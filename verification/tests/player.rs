use rapier2d::dynamics::{RigidBody, RigidBodyBuilder};
use rapier2d::geometry::ColliderBuilder;
use rapier2d::math::Vector;
use rolly_polly::fixed::ONE;
use rolly_polly::frame::Transition;
use rolly_polly::level::LevelId;
use rolly_polly::life_state::LifeState;
use rolly_polly::movement::Input;
use rolly_polly::physics_world::PhysicsWorld;
use rolly_polly::player::{Body, Direction, Player, Polly, PollyParts, Rolly, RollyParts};
use rolly_polly::update::{player_body, player_transition, BodyParts};
use rolly_polly::world::World;

fn body(x: f32, y: f32, rotation: f32, vx: f32, vy: f32, angvel: f32, damping: (f32, f32)) -> RigidBody {
    RigidBodyBuilder::dynamic()
        .translation(Vector::new(x, y))
        .rotation(rotation)
        .linvel(Vector::new(vx, vy))
        .angvel(angvel)
        .linear_damping(damping.0)
        .angular_damping(damping.1)
        .ccd_enabled(true)
        .can_sleep(false)
        .build()
}

fn rolly_from(old: &RigidBody) -> RollyParts {
    RollyParts {
        body: body(
            old.translation().x,
            old.translation().y,
            old.rotation().angle(),
            old.linvel().x,
            old.linvel().y,
            old.angvel(),
            (0.5, 0.4),
        ),
        collider: ColliderBuilder::ball(0.075).friction(0.0).build(),
    }
}

fn polly_from(old: &RigidBody) -> PollyParts {
    let foot = |builder: ColliderBuilder, x: f32| {
        builder.position(Vector::new(x, 0.05).into()).sensor(true).build()
    };
    PollyParts {
        body: body(
            old.translation().x,
            old.translation().y,
            old.rotation().angle(),
            old.linvel().x,
            old.linvel().y,
            old.angvel(),
            (1.0, 0.8),
        ),
        collider: ColliderBuilder::capsule_x(0.05, 0.05).friction(0.0).build(),
        foot_left: foot(ColliderBuilder::ball(0.01), -0.1),
        foot_center: foot(ColliderBuilder::cuboid(0.1, 0.01), 0.0),
        foot_right: foot(ColliderBuilder::ball(0.01), 0.1),
    }
}

fn at_rest() -> RigidBody {
    body(0.0, 0.0, 0.0, 0.0, 0.0, 0.0, (0.5, 0.4))
}

fn physics() -> PhysicsWorld {
    PhysicsWorld::new(Vector::new(0.0, 9.81))
}

fn swap_key() -> Input {
    Input { left: false, right: false, jump: false, swap: true, reset: false }
}

fn no_keys() -> Input {
    Input { left: false, right: false, jump: false, swap: false, reset: false }
}

fn swap(world: &mut World) {
    let handle = world.player.body.any_body_handle();
    let old = world.physics_world.get_body(handle).unwrap().clone();
    let parts = match world.player.body {
        Body::Polly(_) => BodyParts::Rolly(rolly_from(&old)),
        Body::Rolly(_) => BodyParts::Polly(polly_from(&old)),
    };
    player_body(world, swap_key(), parts);
}

#[test]
fn polly_spawns_with_four_colliders() {
    let mut w = physics();
    let polly = Polly::spawn(&mut w, polly_from(&at_rest()));
    assert!(polly.is_live_in(&w));
    assert_eq!(w.body_count(), 1);
    assert_eq!(w.collider_count(), 4);
    assert_eq!(polly.feet_grounded, [false, false, false]);
    assert_eq!(polly.feet_frame.get(), 0);
    assert!(polly.has_collider(polly.collider_handle));
    for foot in polly.feet_sensor_handles.iter() {
        assert!(polly.has_collider(*foot));
        assert!(w.is_attached(*foot, polly.body_handle));
        assert!(w.get_collider(*foot).unwrap().is_sensor());
    }
    // left, middle, right
    let x = |i: usize| {
        w.get_collider(polly.feet_sensor_handles[i]).unwrap().position_wrt_parent().unwrap().translation.x
    };
    assert!(x(0) < x(1) && x(1) < x(2));
    polly.despawn(&mut w);
    assert!(!polly.is_live_in(&w));
    assert_eq!(w.body_count(), 0);
    assert_eq!(w.collider_count(), 0);
}

#[test]
fn rolly_spawns_with_its_ball() {
    let mut w = physics();
    let rolly = Rolly::spawn(&mut w, rolly_from(&at_rest()));
    assert!(rolly.live_in_check(&w));
    rolly.despawn(&mut w);
    assert_eq!(w.body_count(), 0);
    assert_eq!(w.collider_count(), 0);
}

trait LiveCheck {
    fn live_in_check(&self, w: &PhysicsWorld) -> bool;
}

impl LiveCheck for Rolly {
    fn live_in_check(&self, w: &PhysicsWorld) -> bool {
        Body::Rolly(*self).is_live_in(w)
    }
}

#[test]
fn body_accessors() {
    let mut w = physics();
    let polly = Polly::spawn(&mut w, polly_from(&at_rest()));
    let rolly = Rolly::spawn(&mut w, rolly_from(&at_rest()));
    let mut a = Body::Polly(polly);
    let mut b = Body::Rolly(rolly);
    assert_eq!(a.any_body_handle(), polly.body_handle);
    assert_eq!(a.any_collider_handle(), polly.collider_handle);
    assert_eq!(b.any_body_handle(), rolly.body_handle);
    assert_eq!(b.any_collider_handle(), rolly.collider_handle);
    assert_eq!(*a.unwrap_polly(), polly);
    assert_eq!(*b.unwrap_rolly(), rolly);
    a.unwrap_polly_mut().feet_grounded = [true, false, true];
    assert_eq!(a.unwrap_polly().feet_grounded, [true, false, true]);
    let other = b.unwrap_rolly().collider_handle;
    b.unwrap_rolly_mut().collider_handle = polly.collider_handle;
    assert_eq!(b.any_collider_handle(), polly.collider_handle);
    assert!(!b.has_collider(other));
    assert!(a.has_collider(polly.feet_sensor_handles[2]));
    a.despawn(&mut w);
    assert!(!w.contains_body(polly.body_handle));
    assert!(w.contains_body(rolly.body_handle));
}

#[test]
fn a_player_begins_as_rolly_and_dead() {
    let mut w = physics();
    let player = Player::spawn(&mut w, rolly_from(&at_rest()));
    assert!(matches!(player.body, Body::Rolly(_)));
    assert_eq!(player.direction, Direction::Right);
    assert_eq!(player.rolly_polly_transition, Transition::End);
    assert_eq!(player.eye_x.get(), ONE);
    assert_eq!(player.eye_x.half_life, 50_000);
    assert_eq!(player.life_state, LifeState::Dead(Transition::End));
    assert_eq!(player.respawn, LevelId(0));
    assert!(!player.alive());
    assert!(player.body.is_live_in(&w));
}

#[test]
fn only_the_settled_living_are_alive() {
    let mut w = physics();
    let mut player = Player::spawn(&mut w, rolly_from(&at_rest()));
    player.life_state = LifeState::Alive(Transition::End);
    assert!(player.alive());
    player.life_state = LifeState::Alive(Transition::Start);
    assert!(!player.alive());
    player.life_state = LifeState::Alive(Transition::Between { time: 0, duration: 1, forward: false });
    assert!(!player.alive());
    player.life_state = LifeState::Dead(Transition::Start);
    assert!(!player.alive());
}

#[test]
fn reset_keeps_life_and_checkpoint() {
    let mut w = physics();
    let mut player = Player::spawn(&mut w, rolly_from(&at_rest()));
    let first = player.body.any_body_handle();
    player.direction = Direction::Left;
    player.rolly_polly_transition = Transition::Start;
    player.eye_x.set(-ONE);
    player.life_state = LifeState::Alive(Transition::End);
    player.respawn = LevelId(4);
    player.reset(&mut w, rolly_from(&at_rest()));
    assert!(matches!(player.body, Body::Rolly(_)));
    assert_eq!(player.direction, Direction::Right);
    assert_eq!(player.rolly_polly_transition, Transition::End);
    assert_eq!(player.eye_x.target, ONE);
    assert_eq!(player.eye_x.get(), ONE);
    assert_eq!(player.life_state, LifeState::Alive(Transition::End));
    assert_eq!(player.respawn, LevelId(4));
    assert!(!w.contains_body(first));
    assert!(player.body.is_live_in(&w));
    assert_eq!(w.body_count(), 1);
    assert_eq!(w.collider_count(), 1);
}

fn alive_world() -> World {
    let mut world = World::new(Vector::new(0.0, 9.81), rolly_from(&at_rest()));
    world.player.life_state = LifeState::Alive(Transition::End);
    world
}

fn close(a: f32, b: f32) -> bool {
    (a - b).abs() <= 1e-6 * (1.0 + a.abs().max(b.abs()))
}

#[test]
fn shape_swap_preserves_kinematics() {
    let states: [(f32, f32, f32, f32, f32, f32); 4] = [
        (0.0, 0.0, 0.0, 0.0, 0.0, 0.0),
        (1.5, -2.25, 0.75, 3.0, -4.0, 1.25),
        (-100.0, 7.5, -3.0, -0.001, 12.0, -9.0),
        (1234.5, 0.001, 3.1, 1e3, 1e-3, 50.0),
    ];
    for &(x, y, rotation, vx, vy, angvel) in states.iter() {
        let start = body(x, y, rotation, vx, vy, angvel, (1.0, 0.8));
        let mut world = World::new(Vector::new(0.0, 9.81), rolly_from(&start));
        world.player.life_state = LifeState::Alive(Transition::End);
        // Rolly to Polly, then Polly to Rolly and back to Polly
        swap(&mut world);
        assert!(matches!(world.player.body, Body::Polly(_)));
        swap(&mut world);
        assert!(matches!(world.player.body, Body::Rolly(_)));
        swap(&mut world);
        assert!(matches!(world.player.body, Body::Polly(_)));
        assert!(world.is_well_formed());
        let now = world.physics_world.get_body(world.player.body.any_body_handle()).unwrap();
        assert!(close(now.translation().x, x));
        assert!(close(now.translation().y, y));
        assert!(close(now.rotation().angle(), rotation));
        assert!(close(now.linvel().x, vx));
        assert!(close(now.linvel().y, vy));
        assert!(close(now.angvel(), angvel));
        assert_eq!(world.physics_world.body_count(), 1);
        assert_eq!(world.physics_world.collider_count(), 4);
        // with no further swap, the blend ends at End after 0.3 s
        for _ in 0..31 {
            player_transition(&mut world, 10_000);
        }
        assert_eq!(world.player.rolly_polly_transition, Transition::End);
    }
}

#[test]
fn the_blend_runs_toward_start_for_rolly() {
    let mut world = alive_world();
    swap(&mut world);
    // Rolly to Polly from rest at End: the blend stays there
    assert_eq!(world.player.rolly_polly_transition, Transition::End);
    swap(&mut world);
    assert_eq!(
        world.player.rolly_polly_transition,
        Transition::Between { time: 0, duration: 300_000, forward: true }
    );
    player_transition(&mut world, 150_000);
    assert_eq!(
        world.player.rolly_polly_transition,
        Transition::Between { time: 500_000, duration: 300_000, forward: true }
    );
    // swapping again before the blend has ended turns it round where it is
    swap(&mut world);
    assert_eq!(
        world.player.rolly_polly_transition,
        Transition::Between { time: 500_000, duration: 300_000, forward: false }
    );
    player_transition(&mut world, 150_000);
    assert_eq!(
        world.player.rolly_polly_transition,
        Transition::Between { time: 0, duration: 300_000, forward: false }
    );
    player_transition(&mut world, 1);
    assert_eq!(world.player.rolly_polly_transition, Transition::End);
}

#[test]
fn swap_replaces_the_body() {
    let mut world = alive_world();
    let rolly = world.player.body;
    swap(&mut world);
    assert!(world.is_well_formed());
    assert!(!world.physics_world.contains_body(rolly.any_body_handle()));
    assert!(!world.physics_world.contains_collider(rolly.any_collider_handle()));
    let polly = *world.player.body.unwrap_polly();
    assert!(polly.is_live_in(&world.physics_world));
    assert_eq!(polly.feet_grounded, [false, false, false]);
    assert_eq!(world.physics_world.body_count(), 1);
    assert_eq!(world.physics_world.collider_count(), 4);
}

#[test]
fn no_swap_without_the_key_or_without_life() {
    let mut world = alive_world();
    let before = world.player.body;
    let old = world.physics_world.get_body(before.any_body_handle()).unwrap().clone();
    player_body(&mut world, no_keys(), BodyParts::Polly(polly_from(&old)));
    assert_eq!(world.player.body, before);
    world.player.life_state = LifeState::Dead(Transition::Start);
    player_body(&mut world, swap_key(), BodyParts::Polly(polly_from(&old)));
    assert_eq!(world.player.body, before);
    world.player.life_state = LifeState::Alive(Transition::Start);
    player_body(&mut world, swap_key(), BodyParts::Polly(polly_from(&old)));
    assert_eq!(world.player.body, before);
    assert_eq!(world.player.rolly_polly_transition, Transition::End);
    assert_eq!(world.physics_world.body_count(), 1);
}

#[test]
fn no_swap_into_the_same_shape() {
    let mut world = alive_world();
    let before = world.player.body;
    let old = world.physics_world.get_body(before.any_body_handle()).unwrap().clone();
    player_body(&mut world, swap_key(), BodyParts::Rolly(rolly_from(&old)));
    assert_eq!(world.player.body, before);
    assert_eq!(world.physics_world.body_count(), 1);
    assert!(world.is_well_formed());
}

#[test]
fn there_and_back_the_blend_rests_at_end_in_time() {
    let mut world = alive_world();
    swap(&mut world);
    assert!(matches!(world.player.body, Body::Polly(_)));
    // Polly to Rolly and back at once, then nineteen frames at sixty a
    // second: a little more than the length of the run
    swap(&mut world);
    swap(&mut world);
    assert!(matches!(world.player.body, Body::Polly(_)));
    for _ in 0..19 {
        player_transition(&mut world, 16_667);
    }
    assert_eq!(world.player.rolly_polly_transition, Transition::End);
    for _ in 0..5 {
        player_transition(&mut world, 16_667);
        assert_eq!(world.player.rolly_polly_transition, Transition::End);
    }
}

#[test]
fn from_rolly_the_blend_comes_back_to_end_after_its_run() {
    let mut world = alive_world();
    swap(&mut world);
    swap(&mut world);
    assert!(matches!(world.player.body, Body::Rolly(_)));
    // under way toward Start
    player_transition(&mut world, 100_000);
    swap(&mut world);
    for _ in 0..19 {
        player_transition(&mut world, 16_667);
    }
    assert_eq!(world.player.rolly_polly_transition, Transition::End);
}

use rapier2d::dynamics::{RigidBody, RigidBodyBuilder};
use rapier2d::geometry::{Collider, ColliderBuilder};
use rapier2d::math::Vector;
use rolly_polly::physics_world::{BodyHandle, ColliderHandle, PhysicsWorld};

fn world() -> PhysicsWorld {
    PhysicsWorld::new(Vector::new(0.0, 9.81))
}

fn body_at(x: f32, y: f32) -> RigidBody {
    RigidBodyBuilder::dynamic().translation(Vector::new(x, y)).build()
}

fn ball(radius: f32) -> Collider {
    ColliderBuilder::ball(radius).build()
}

#[test]
fn new_world_is_empty() {
    let w = world();
    assert_eq!(w.body_count(), 0);
    assert_eq!(w.collider_count(), 0);
    assert!(!w.contains_body(BodyHandle { index: 0, generation: 0 }));
}

#[test]
fn added_bodies_are_alive_and_distinct() {
    let mut w = world();
    let a = w.add_body(body_at(0.0, 0.0));
    let b = w.add_body(body_at(1.0, 0.0));
    assert_ne!(a, b);
    assert!(w.contains_body(a));
    assert!(w.contains_body(b));
    assert!(w.get_body(a).is_some());
    assert_eq!(w.body_count(), 2);
}

#[test]
fn collider_hangs_on_its_parent() {
    let mut w = world();
    let a = w.add_body(body_at(0.0, 0.0));
    let b = w.add_body(body_at(1.0, 0.0));
    let c = w.add_collider(ball(0.1), a);
    assert!(w.contains_collider(c));
    assert!(w.is_attached(c, a));
    assert!(!w.is_attached(c, b));
    assert!(w.get_collider(c).is_some());
}

#[test]
fn add_body_and_collider_gives_an_attached_pair() {
    let mut w = world();
    let (body, collider) = w.add_body_and_collider(body_at(0.0, 0.0), ball(0.1));
    assert!(w.contains_body(body));
    assert!(w.is_attached(collider, body));
}

#[test]
fn removing_a_body_takes_its_colliders_along() {
    let mut w = world();
    let a = w.add_body(body_at(0.0, 0.0));
    let b = w.add_body(body_at(1.0, 0.0));
    let on_a = w.add_collider(ball(0.1), a);
    let also_on_a = w.add_collider(ball(0.2), a);
    let on_b = w.add_collider(ball(0.1), b);
    w.remove_body(a);
    assert!(!w.contains_body(a));
    assert!(w.contains_body(b));
    assert!(!w.contains_collider(on_a));
    assert!(!w.contains_collider(also_on_a));
    assert!(w.is_attached(on_b, b));
}

#[test]
fn removing_a_dead_body_changes_nothing() {
    let mut w = world();
    let a = w.add_body(body_at(0.0, 0.0));
    let b = w.add_body(body_at(1.0, 0.0));
    let on_b = w.add_collider(ball(0.1), b);
    w.remove_body(a);
    w.remove_body(a);
    assert!(w.contains_body(b));
    assert!(w.is_attached(on_b, b));
    assert_eq!(w.body_count(), 1);
    assert_eq!(w.collider_count(), 1);
}

#[test]
fn removing_a_collider_leaves_the_body() {
    let mut w = world();
    let a = w.add_body(body_at(0.0, 0.0));
    let first = w.add_collider(ball(0.1), a);
    let second = w.add_collider(ball(0.2), a);
    w.remove_collider(first);
    assert!(w.contains_body(a));
    assert!(!w.contains_collider(first));
    assert!(w.is_attached(second, a));
    w.remove_collider(first);
    assert!(w.is_attached(second, a));
}

#[test]
fn a_handle_is_not_reused_for_a_new_body() {
    let mut w = world();
    let a = w.add_body(body_at(0.0, 0.0));
    w.remove_body(a);
    let b = w.add_body(body_at(0.0, 0.0));
    assert_ne!(a, b);
    assert!(!w.contains_body(a));
    assert!(w.contains_body(b));
}

#[test]
fn try_add_collider_refuses_a_dead_parent() {
    let mut w = world();
    let a = w.add_body(body_at(0.0, 0.0));
    w.remove_body(a);
    assert!(w.try_add_collider(ball(0.1), a).is_err());
    assert_eq!(w.collider_count(), 0);
    let b = w.add_body(body_at(0.0, 0.0));
    let added = w.try_add_collider(ball(0.1), b);
    assert!(added.is_ok());
    assert!(w.is_attached(added.ok().unwrap(), b));
}

#[test]
fn step_keeps_bodies_and_colliders() {
    let mut w = world();
    let a = w.add_body(body_at(0.0, 0.0));
    let c = w.add_collider(ball(0.1), a);
    w.set_step_length(16_667);
    for _ in 0..10 {
        w.update();
    }
    assert!(w.contains_body(a));
    assert!(w.is_attached(c, a));
    let y = w.get_body(a).unwrap().translation().y;
    assert!(y > 0.0);
}

#[test]
fn sensor_overlap_is_seen_after_a_step() {
    let mut w = world();
    let ground = w.add_body(RigidBodyBuilder::fixed().build());
    let floor = w.add_collider(ColliderBuilder::cuboid(1.0, 0.1).build(), ground);
    let probe_body = w.add_body(
        RigidBodyBuilder::dynamic().gravity_scale(0.0).translation(Vector::new(0.0, 0.0)).build(),
    );
    let probe = w.add_collider(ColliderBuilder::ball(0.05).sensor(true).build(), probe_body);
    let far_body = w.add_body(
        RigidBodyBuilder::dynamic().gravity_scale(0.0).translation(Vector::new(5.0, 5.0)).build(),
    );
    let far = w.add_collider(ColliderBuilder::ball(0.05).sensor(true).build(), far_body);
    assert!(!w.collider_intersecting(floor, probe));
    w.set_step_length(16_667);
    w.update();
    assert!(w.collider_intersecting(floor, probe));
    assert!(w.collider_intersecting(probe, floor));
    assert!(!w.collider_intersecting(floor, far));
}



struct Lot(u64);

impl Lot {
    fn draw(&mut self, below: usize) -> usize {
        self.0 = self.0.wrapping_mul(6364136223846793005).wrapping_add(1442695040888963407);
        ((self.0 >> 33) as usize) % below
    }
}

#[test]
fn a_long_run_of_changes_agrees_with_a_plain_model() {
    use_model(1);
    use_model(77);
    use_model(4242);
}

fn use_model(seed: u64) {
    let mut lot = Lot(seed);
    let mut w = world();
    w.set_step_length(16_667);
    let mut bodies: Vec<BodyHandle> = Vec::new();
    let mut dead_bodies: Vec<BodyHandle> = Vec::new();
    let mut colliders: Vec<(ColliderHandle, BodyHandle)> = Vec::new();
    let mut dead_colliders: Vec<ColliderHandle> = Vec::new();
    for _ in 0..400 {
        match lot.draw(6) {
            0 => {
                let handle = w.add_body(body_at(lot.draw(10) as f32, lot.draw(10) as f32));
                assert!(!bodies.contains(&handle));
                assert!(!dead_bodies.contains(&handle));
                bodies.push(handle);
            }
            1 if !bodies.is_empty() => {
                let parent = bodies[lot.draw(bodies.len())];
                let handle = w.add_collider(ball(0.1), parent);
                assert!(colliders.iter().all(|(c, _)| *c != handle));
                assert!(!dead_colliders.contains(&handle));
                colliders.push((handle, parent));
            }
            2 if !bodies.is_empty() => {
                let gone = bodies.swap_remove(lot.draw(bodies.len()));
                w.remove_body(gone);
                dead_bodies.push(gone);
                for (c, _) in colliders.iter().filter(|(_, parent)| *parent == gone) {
                    dead_colliders.push(*c);
                }
                colliders.retain(|(_, parent)| *parent != gone);
            }
            3 if !colliders.is_empty() => {
                let (gone, _) = colliders.swap_remove(lot.draw(colliders.len()));
                w.remove_collider(gone);
                dead_colliders.push(gone);
            }
            4 if !dead_bodies.is_empty() => {
                // removing what is gone, and adding to what is gone
                let gone = dead_bodies[lot.draw(dead_bodies.len())];
                w.remove_body(gone);
                assert!(w.try_add_collider(ball(0.1), gone).is_err());
            }
            _ => w.update(),
        }
        assert_eq!(w.body_count(), bodies.len());
        assert_eq!(w.collider_count(), colliders.len());
        for body in bodies.iter() {
            assert!(w.contains_body(*body));
            assert!(w.get_body(*body).is_some());
        }
        for body in dead_bodies.iter() {
            assert!(!w.contains_body(*body));
        }
        for (collider, parent) in colliders.iter() {
            assert!(w.is_attached(*collider, *parent));
        }
        for collider in dead_colliders.iter() {
            assert!(!w.contains_collider(*collider));
        }
    }
}


#[test]
fn the_records_are_in_step_in_a_new_world() {
    assert!(world().is_consistent());
}

#[test]
fn the_records_stay_in_step_as_bodies_and_colliders_come_and_go() {
    let mut w = world();
    let a = w.add_body(body_at(0.0, 0.0));
    assert!(w.is_consistent());
    let b = w.add_body(body_at(1.0, 0.0));
    let c1 = w.add_collider(ball(0.1), a);
    let c2 = w.add_collider(ball(0.2), a);
    let c3 = w.add_collider(ball(0.3), b);
    assert!(w.is_consistent());
    w.remove_collider(c1);
    assert!(w.is_consistent());
    assert!(w.is_attached(c2, a));
    w.remove_body(a);
    assert!(w.is_consistent());
    assert!(!w.contains_collider(c2));
    assert!(w.is_attached(c3, b));
    w.update();
    assert!(w.is_consistent());
    w.remove_body(b);
    assert!(w.is_consistent());
    assert_eq!(w.collider_count(), 0);
}








#[test]
fn try_remove_body_removes_where_the_records_are_in_step() {
    let mut w = world();
    let (a, c) = w.add_body_and_collider(body_at(0.0, 0.0), ball(0.1));
    let (b, d) = w.add_body_and_collider(body_at(1.0, 0.0), ball(0.1));
    assert!(w.try_remove_body(a));
    assert!(!w.contains_body(a));
    assert!(!w.contains_collider(c));
    assert!(w.is_attached(d, b));
    assert!(w.is_consistent());
}

#[test]
fn the_motion_of_a_body_can_be_set() {
    let mut w = world();
    let a = w.add_body(body_at(0.0, 0.0));
    let c = w.add_collider(ball(0.1), a);
    assert!(w.set_linvel(a, Vector::new(3.0, 4.0), true));
    assert!(w.set_angvel(a, 0.5, true));
    assert!(w.set_translation(a, Vector::new(7.0, -2.0), true));
    assert!(w.set_rotation(a, 0.25, true));
    let body = w.get_body(a).unwrap();
    assert_eq!(body.linvel().x, 3.0);
    assert_eq!(body.linvel().y, 4.0);
    assert_eq!(body.angvel(), 0.5);
    assert_eq!(body.translation().x, 7.0);
    assert_eq!(body.translation().y, -2.0);
    assert!((body.rotation().angle() - 0.25).abs() < 1e-6);
    assert!(w.contains_body(a));
    assert!(w.is_attached(c, a));
    assert!(w.is_consistent());
    assert_eq!(w.body_count(), 1);
    assert_eq!(w.collider_count(), 1);
}

#[test]
fn the_motion_of_a_body_that_is_gone_cannot_be_set() {
    let mut w = world();
    let a = w.add_body(body_at(0.0, 0.0));
    let b = w.add_body(body_at(1.0, 0.0));
    w.remove_body(a);
    assert!(!w.set_linvel(a, Vector::new(3.0, 4.0), true));
    assert!(!w.set_angvel(a, 0.5, true));
    assert!(!w.set_translation(a, Vector::new(7.0, -2.0), true));
    assert!(!w.set_rotation(a, 0.25, true));
    assert_eq!(w.get_body(b).unwrap().translation().x, 1.0);
    assert_eq!(w.body_count(), 1);
}

#[test]
fn the_step_length_decides_how_far_a_step_goes() {
    let mut slow = world();
    let mut fast = world();
    let a = slow.add_body(body_at(0.0, 0.0));
    let b = fast.add_body(body_at(0.0, 0.0));
    slow.add_collider(ball(0.1), a);
    fast.add_collider(ball(0.1), b);
    slow.set_linvel(a, Vector::new(1.0, 0.0), true);
    fast.set_linvel(b, Vector::new(1.0, 0.0), true);
    slow.set_step_length(10_000);
    fast.set_step_length(100_000);
    slow.update();
    fast.update();
    let near = slow.get_body(a).unwrap().translation().x;
    let far = fast.get_body(b).unwrap().translation().x;
    assert!((near - 0.01).abs() < 1e-4);
    assert!((far - 0.1).abs() < 1e-4);
}

#[test]
fn try_update_steps_a_world_whose_records_are_in_step() {
    let mut w = world();
    let (a, c) = w.add_body_and_collider(body_at(0.0, 0.0), ball(0.1));
    w.set_step_length(16_667);
    assert!(w.try_update());
    assert!(w.get_body(a).unwrap().translation().y > 0.0);
    assert!(w.is_attached(c, a));
    assert!(w.is_consistent());
}

#[test]
fn the_counts_follow_what_comes_and_goes() {
    let mut w = world();
    assert_eq!(w.body_count(), 0);
    assert_eq!(w.collider_count(), 0);
    let a = w.add_body(body_at(0.0, 0.0));
    let b = w.add_body(body_at(1.0, 0.0));
    w.add_collider(ball(0.1), a);
    w.add_collider(ball(0.1), a);
    let c = w.add_collider(ball(0.1), b);
    assert_eq!(w.body_count(), 2);
    assert_eq!(w.collider_count(), 3);
    w.remove_collider(c);
    assert_eq!(w.collider_count(), 2);
    w.remove_body(a);
    assert_eq!(w.body_count(), 1);
    assert_eq!(w.collider_count(), 0);
}

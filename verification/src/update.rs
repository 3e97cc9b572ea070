//! The systems of a frame that concern the camera and the player: each one
//! a step from the world as it is to the world as it is next. The order in
//! which the steps of a frame follow each other is that of [`frame_steps`].

use crate::entity::Entity;
use crate::fixed::{clamp64, mul_div, sat_add, sat_sub, trunc_div, ONE};
use crate::floor::Material;
use crate::frame::Transition;
use crate::geometry::{Rect, Vec2};
use crate::life_state::LifeState;
use crate::movement::{in_water_velocity, move_polly, moved, water_velocity, Input, Kinematics};
use crate::physics_world::{ColliderHandle, PhysicsWorld};
use crate::player::{Body, Direction, Polly, PollyParts, Rolly, RollyParts};
use crate::settings::Settings;
use crate::world::World;
use vstd::prelude::*;

verus! {

/// The steps of a frame.
#[derive(Debug, Clone, Copy, PartialEq, Eq, Structural)]
pub enum Step {
    /// The camera moves toward the player.
    Camera,
    /// Levels are loaded and unloaded around the view.
    Streaming,
    /// Lazy colliders wake and sleep around the player.
    LazyColliders,
    /// The physics world advances.
    Physics,
    /// The player changes shape.
    Shape,
    /// Water slows the player, and may kill it.
    Water,
    /// A fall out of the level kills the player.
    Fall,
    /// The blend between the shapes and the eyes move on.
    Transitions,
    /// The player takes checkpoints.
    Checkpoints,
    /// The player's life and death fade on.
    Life,
    /// Polly finds the ground and moves.
    Polly,
}

/// The steps of a frame in their order. Each step runs to its end before
/// the next begins.
pub fn frame_steps() -> (steps: [Step; 11])
    ensures
        steps@ == seq![
            Step::Camera,
            Step::Streaming,
            Step::LazyColliders,
            Step::Physics,
            Step::Shape,
            Step::Water,
            Step::Fall,
            Step::Transitions,
            Step::Checkpoints,
            Step::Life,
            Step::Polly,
        ],
{
    let steps = [
        Step::Camera,
        Step::Streaming,
        Step::LazyColliders,
        Step::Physics,
        Step::Shape,
        Step::Water,
        Step::Fall,
        Step::Transitions,
        Step::Checkpoints,
        Step::Life,
        Step::Polly,
    ];
    assert(steps@ =~= seq![
        Step::Camera,
        Step::Streaming,
        Step::LazyColliders,
        Step::Physics,
        Step::Shape,
        Step::Water,
        Step::Fall,
        Step::Transitions,
        Step::Checkpoints,
        Step::Life,
        Step::Polly,
    ]);
    steps
}

/// The zoom of the camera at a zoom setting of one.
pub const ZOOM: i64 = 500_000;

/// How long the fade between life and death takes, in microseconds.
pub const DEAD_ALIVE_TRANSITION_DURATION: u32 = 1_000_000;

/// How long the blend between the two shapes takes, in microseconds.
pub const SHAPE_TRANSITION_DURATION: u32 = 300_000;

/// The depth below which the player has fallen out of the level.
pub const FALL_LIMIT: i64 = 10_000_000;

/// How far the stride moves per metre walked on the ground, in millionths.
pub const STRIDE_GROUNDED: i64 = 100_000;

/// How far the stride moves per metre moved in the air, in millionths.
pub const STRIDE_AIRBORNE: i64 = 20_000;

/// Whether the camera follows the player in this state of life: while the
/// player is alive and settled, and while it dies, but not once it is
/// dead nor while it comes back.
pub open spec fn camera_follows(life_state: LifeState) -> bool {
    match life_state {
        LifeState::Alive(Transition::End) => true,
        LifeState::Dead(Transition::Start) => true,
        LifeState::Dead(Transition::Between { .. }) => true,
        _ => false,
    }
}

/// A point moved toward `goal` by the share `speed` of the way, given in
/// millionths.
pub open spec fn approached(from: Vec2, goal: Vec2, speed: i64) -> Vec2 {
    Vec2 {
        x: clamp64(from.x + clamp64(trunc_div(clamp64(goal.x - from.x) * speed, ONE as int))),
        y: clamp64(from.y + clamp64(trunc_div(clamp64(goal.y - from.y) * speed, ONE as int))),
    }
}

/// The camera's zoom along both axes for the settings and for a screen
/// that is `aspect` times as wide as high, in millionths.
pub open spec fn zoom_for(zoom: i64, aspect: i64) -> Vec2 {
    Vec2 {
        x: clamp64(trunc_div(ZOOM * zoom, ONE as int)),
        y: clamp64(
            trunc_div(clamp64(trunc_div(aspect * ZOOM, ONE as int)) * zoom, ONE as int),
        ),
    }
}

/// The camera's zoom for the settings and the shape of the screen.
pub fn camera_zoom(settings: &Settings, aspect: i64) -> (zoom: Vec2)
    ensures
        zoom == zoom_for(settings.zoom.value, aspect),
{
    Vec2 {
        x: mul_div(ZOOM, settings.zoom.value, ONE),
        y: mul_div(mul_div(aspect, ZOOM, ONE), settings.zoom.value, ONE),
    }
}

/// Moves the camera toward the player, where it follows the player, and
/// sets its zoom from the settings.
pub fn update_camera(world: &mut World, settings: &Settings, player_pos: Vec2, aspect: i64)
    ensures
        final(world).camera.target == if camera_follows(old(world).player.life_state) {
            approached(old(world).camera.target, player_pos, settings.camera_speed.value)
        } else {
            old(world).camera.target
        },
        final(world).camera.zoom == zoom_for(settings.zoom.value, aspect),
        final(world).player == old(world).player,
        final(world).entities == old(world).entities,
        final(world).physics_world == old(world).physics_world,
        final(world).levels == old(world).levels,
        final(world).next_entity == old(world).next_entity,
{
    let follows = match world.player.life_state {
        LifeState::Alive(Transition::End) => true,
        LifeState::Dead(Transition::Start) => true,
        LifeState::Dead(Transition::Between { .. }) => true,
        _ => false,
    };
    if follows {
        let target = world.camera.target;
        let speed = settings.camera_speed.value;
        world.camera.target = Vec2 {
            x: sat_add(target.x, mul_div(sat_sub(player_pos.x, target.x), speed, ONE)),
            y: sat_add(target.y, mul_div(sat_sub(player_pos.y, target.y), speed, ONE)),
        };
    }
    world.camera.zoom = camera_zoom(settings, aspect);
}

/// The rectangle of the world that a camera shows: from its target, one
/// over the zoom to every side.
pub open spec fn view_of(target: Vec2, zoom: Vec2) -> Rect {
    let half_x = (ONE * ONE) / (zoom.x as int);
    let half_y = (ONE * ONE) / (zoom.y as int);
    let left = clamp64(target.x - half_x);
    let top = clamp64(target.y - half_y);
    Rect {
        x: left,
        y: top,
        w: clamp64(clamp64(target.x + half_x) - left),
        h: clamp64(clamp64(target.y + half_y) - top),
    }
}

/// The rectangle of the world that the camera shows.
pub fn get_camera_rect(world: &World) -> (view: Rect)
    requires
        world.camera.zoom.x > 0,
        world.camera.zoom.y > 0,
    ensures
        view == view_of(world.camera.target, world.camera.zoom),
{
    let target = world.camera.target;
    let whole: i64 = 1_000_000_000_000;
    let half_x: i64 = whole / world.camera.zoom.x;
    let half_y: i64 = whole / world.camera.zoom.y;
    let left = sat_sub(target.x, half_x);
    let top = sat_sub(target.y, half_y);
    Rect {
        x: left,
        y: top,
        w: sat_sub(sat_add(target.x, half_x), left),
        h: sat_sub(sat_add(target.y, half_y), top),
    }
}

/// Whether the camera shows the point `pos`.
pub fn pos_in_camera(world: &World, pos: Vec2) -> (shown: bool)
    requires
        world.camera.zoom.x > 0,
        world.camera.zoom.y > 0,
    ensures
        shown == view_of(world.camera.target, world.camera.zoom).contains(pos),
{
    get_camera_rect(world).contains(pos)
}

/// Turns the player to the side of the one key that is held, and its eyes
/// with it. Only a player that is alive and settled turns.
pub fn player_direction(world: &mut World, input: Input)
    ensures
        final(world).player.direction == if !old(world).player.alive() {
            old(world).player.direction
        } else if input.right && !input.left {
            Direction::Right
        } else if input.left && !input.right {
            Direction::Left
        } else {
            old(world).player.direction
        },
        final(world).player.eye_x.target == if !old(world).player.alive() {
            old(world).player.eye_x.target
        } else if input.right && !input.left {
            ONE
        } else if input.left && !input.right {
            (-ONE) as i64
        } else {
            old(world).player.eye_x.target
        },
        final(world).player.eye_x.value == old(world).player.eye_x.value,
        final(world).player.eye_x.half_life == old(world).player.eye_x.half_life,
        final(world).player.body == old(world).player.body,
        final(world).player.rolly_polly_transition == old(world).player.rolly_polly_transition,
        final(world).player.life_state == old(world).player.life_state,
        final(world).player.respawn == old(world).player.respawn,
        final(world).entities == old(world).entities,
        final(world).camera == old(world).camera,
        final(world).physics_world == old(world).physics_world,
        final(world).levels == old(world).levels,
        final(world).next_entity == old(world).next_entity,
{
    if world.player.alive() {
        if input.right && !input.left {
            world.player.eye_x.set(ONE);
            world.player.direction = Direction::Right;
        } else if input.left && !input.right {
            world.player.eye_x.set(-ONE);
            world.player.direction = Direction::Left;
        }
    }
}

/// How far a frame moves the stride back: by the sideways velocity times
/// the stride per metre, which is larger on the ground.
pub open spec fn stride_step(linvel_x: i64, center_grounded: bool) -> i64 {
    clamp64(
        trunc_div(
            linvel_x * if center_grounded {
                STRIDE_GROUNDED
            } else {
                STRIDE_AIRBORNE
            },
            ONE as int,
        ),
    )
}

/// Moves Polly's stride by what it has walked in this frame.
pub fn player_feet_frame(world: &mut World, linvel_x: i64)
    requires
        old(world).player.body is Polly,
    ensures
        final(world).player.body matches Body::Polly(polly) && polly.feet_frame.value()
            == crate::frame::wrap_unit(
            clamp64(
                old(world).player.body->Polly_0.feet_frame.value() - stride_step(
                    linvel_x,
                    old(world).player.body->Polly_0.feet_grounded[1],
                ),
            ) as int,
        ),
        final(world).player.body->Polly_0.body_handle == old(world).player.body->Polly_0.body_handle,
        final(world).player.body->Polly_0.collider_handle == old(world).player.body->Polly_0.collider_handle,
        final(world).player.body->Polly_0.feet_sensor_handles == old(world).player.body->Polly_0.feet_sensor_handles,
        final(world).player.body->Polly_0.feet_grounded == old(world).player.body->Polly_0.feet_grounded,
        final(world).player.direction == old(world).player.direction,
        final(world).player.eye_x == old(world).player.eye_x,
        final(world).player.rolly_polly_transition == old(world).player.rolly_polly_transition,
        final(world).player.life_state == old(world).player.life_state,
        final(world).player.respawn == old(world).player.respawn,
        final(world).entities == old(world).entities,
        final(world).camera == old(world).camera,
        final(world).physics_world == old(world).physics_world,
        final(world).levels == old(world).levels,
        final(world).next_entity == old(world).next_entity,
{
    match world.player.body {
        Body::Polly(polly) => {
            let rate = if polly.feet_grounded[1] {
                STRIDE_GROUNDED
            } else {
                STRIDE_AIRBORNE
            };
            let mut next = polly;
            next.feet_frame = polly.feet_frame.minus(mul_div(linvel_x, rate, ONE));
            world.player.body = Body::Polly(next);
        },
        Body::Rolly(_) => {},
    }
}

/// Lets a frame's time pass for the blend between the shapes and for the
/// eyes.
pub fn player_transition(world: &mut World, delta_time: u32)
    ensures
        final(world).player.rolly_polly_transition == old(world).player.rolly_polly_transition.ticked(delta_time),
        final(world).player.eye_x == (crate::frame::Tween {
            value: old(world).player.eye_x.ticked_value(delta_time),
            ..old(world).player.eye_x
        }),
        final(world).player.direction == old(world).player.direction,
        final(world).player.body == old(world).player.body,
        final(world).player.life_state == old(world).player.life_state,
        final(world).player.respawn == old(world).player.respawn,
        final(world).entities == old(world).entities,
        final(world).camera == old(world).camera,
        final(world).physics_world == old(world).physics_world,
        final(world).levels == old(world).levels,
        final(world).next_entity == old(world).next_entity,
{
    world.player.rolly_polly_transition.tick(delta_time);
    world.player.eye_x.tick(delta_time);
}

/// Applies the movement rules of one frame to Polly as it moves with
/// `motion`, and gives the motion that it is to have.
pub fn player_movement(world: &World, input: Input, motion: Kinematics, delta_time: u32) -> (next:
    Kinematics)
    requires
        world.player.body is Polly,
    ensures
        next == moved(
            motion,
            world.player.alive(),
            world.player.body->Polly_0.feet_grounded,
            input,
            delta_time,
        ),
{
    let alive = world.player.alive();
    match &world.player.body {
        Body::Polly(polly) => move_polly(motion, alive, polly.feet_grounded, input, delta_time),
        Body::Rolly(_) => motion,
    }
}

/// A player that is alive and settled and has fallen below the fall limit
/// begins to die.
pub fn player_fall(world: &mut World, player_pos: Vec2)
    ensures
        final(world).player.life_state == if old(world).player.alive() && player_pos.y
            > FALL_LIMIT {
            LifeState::Dead(Transition::Start)
        } else {
            old(world).player.life_state
        },
        final(world).player.direction == old(world).player.direction,
        final(world).player.body == old(world).player.body,
        final(world).player.rolly_polly_transition == old(world).player.rolly_polly_transition,
        final(world).player.eye_x == old(world).player.eye_x,
        final(world).player.respawn == old(world).player.respawn,
        final(world).entities == old(world).entities,
        final(world).camera == old(world).camera,
        final(world).physics_world == old(world).physics_world,
        final(world).levels == old(world).levels,
        final(world).next_entity == old(world).next_entity,
{
    if !world.player.alive() {
        return;
    }
    if player_pos.y > FALL_LIMIT {
        world.player.life_state = LifeState::Dead(Transition::Start);
    }
}

/// What a step of the player's life asks of the world.
#[derive(Debug, Clone, Copy, PartialEq, Eq, Structural)]
pub enum LifeEvent {
    /// Nothing.
    Quiet,
    /// The fade into life is over: put the player on its checkpoint.
    Respawn,
    /// The fade into death is over: unload every level and load the level
    /// of the checkpoint anew.
    Reload,
}

/// The fade after a frame: a fade at `Start` is set going toward `End`,
/// and then the frame's time passes.
pub open spec fn fade_after(t: Transition, delta_time: u32) -> Transition {
    (if t is Start {
        t.ran(DEAD_ALIVE_TRANSITION_DURATION, false)
    } else {
        t
    }).ticked(delta_time)
}

/// The player's life after a frame. The fade of its state moves on; a
/// death whose fade is over turns into the beginning of life.
pub open spec fn life_after(life_state: LifeState, delta_time: u32) -> LifeState {
    let faded = life_state.with_transition(fade_after(life_state.transition(), delta_time));
    if faded == LifeState::Dead(Transition::End) {
        LifeState::Alive(Transition::Start)
    } else {
        faded
    }
}

/// What a frame of the player's life asks of the world: a death whose
/// fade is over asks for the levels to be loaded anew, and a life whose
/// fade ends in this frame, having been under way, asks for the respawn.
pub open spec fn life_event(life_state: LifeState, delta_time: u32) -> LifeEvent {
    let faded = life_state.with_transition(fade_after(life_state.transition(), delta_time));
    if life_state.transition() is Between && faded == LifeState::Alive(Transition::End) {
        LifeEvent::Respawn
    } else if faded == LifeState::Dead(Transition::End) {
        LifeEvent::Reload
    } else {
        LifeEvent::Quiet
    }
}

/// Lets a frame's time pass for the player's life, and says what is to
/// follow from it.
pub fn update_life_state(world: &mut World, delta_time: u32) -> (event: LifeEvent)
    ensures
        final(world).player.life_state == life_after(old(world).player.life_state, delta_time),
        event == life_event(old(world).player.life_state, delta_time),
        final(world).player.direction == old(world).player.direction,
        final(world).player.body == old(world).player.body,
        final(world).player.rolly_polly_transition == old(world).player.rolly_polly_transition,
        final(world).player.eye_x == old(world).player.eye_x,
        final(world).player.respawn == old(world).player.respawn,
        final(world).entities == old(world).entities,
        final(world).camera == old(world).camera,
        final(world).physics_world == old(world).physics_world,
        final(world).levels == old(world).levels,
        final(world).next_entity == old(world).next_entity,
{
    let old_transition = world.player.life_state.transition();
    let mut transition = old_transition;
    match transition {
        Transition::Start => {
            transition.run(DEAD_ALIVE_TRANSITION_DURATION, false);
        },
        _ => {},
    }
    transition.tick(delta_time);
    let faded = world.player.life_state.with_transition(transition);
    world.player.life_state = faded;
    let was_between = match old_transition {
        Transition::Between { .. } => true,
        _ => false,
    };
    match faded {
        LifeState::Alive(Transition::End) => {
            if was_between {
                LifeEvent::Respawn
            } else {
                LifeEvent::Quiet
            }
        },
        LifeState::Dead(Transition::End) => {
            world.player.life_state = LifeState::Alive(Transition::Start);
            LifeEvent::Reload
        },
        _ => LifeEvent::Quiet,
    }
}

/// A death never ends a frame settled: once its fade is over, life begins.
pub proof fn lemma_never_settled_dead(life_state: LifeState, delta_time: u32)
    ensures
        life_after(life_state, delta_time) != LifeState::Dead(Transition::End),
        life_event(life_state, delta_time) is Reload ==> life_after(life_state, delta_time)
            == LifeState::Alive(Transition::Start),
        life_event(life_state, delta_time) is Reload ==> life_state is Dead,
        life_event(life_state, delta_time) is Respawn ==> life_state is Alive && life_after(
            life_state,
            delta_time,
        ) == LifeState::Alive(Transition::End),
{
}

/// Whether the entity is solid ground under `sensor`: it has a live
/// collider of a solid material which the physics world found to
/// intersect the sensor.
pub open spec fn stands_under(entity: Entity, physics_world: &PhysicsWorld, sensor: ColliderHandle) -> bool {
    &&& entity.collider matches Some(collider) && physics_world.intersecting(collider, sensor)
    &&& entity.material matches Some(material) && material.rigid()
}

/// Whether some entity is solid ground under `sensor`.
pub open spec fn grounded(
    entities: Seq<Entity>,
    physics_world: &PhysicsWorld,
    sensor: ColliderHandle,
) -> bool {
    exists|i: int|
        0 <= i < entities.len() && stands_under(#[trigger] entities[i], physics_world, sensor)
}

/// Whether the entity is water around `collider`.
pub open spec fn wets(entity: Entity, physics_world: &PhysicsWorld, collider: ColliderHandle) -> bool {
    &&& entity.collider matches Some(own) && physics_world.intersecting(own, collider)
    &&& entity.material == Some(Material::Water)
}

/// Whether some entity is water around `collider`.
pub open spec fn in_water(
    entities: Seq<Entity>,
    physics_world: &PhysicsWorld,
    collider: ColliderHandle,
) -> bool {
    exists|i: int| 0 <= i < entities.len() && wets(#[trigger] entities[i], physics_world, collider)
}

/// Whether some entity is solid ground under `sensor`.
pub fn sensor_grounded(entities: &Vec<Entity>, physics_world: &PhysicsWorld, sensor: ColliderHandle) -> (found:
    bool)
    ensures
        found == grounded(entities@, physics_world, sensor),
{
    let mut i: usize = 0;
    while i < entities.len()
        invariant
            i <= entities@.len(),
            forall|k: int| 0 <= k < i ==> !stands_under(#[trigger] entities@[k], physics_world, sensor),
        decreases entities@.len() - i,
    {
        let solid = match entities[i].material {
            Some(material) => material.rigid(),
            None => false,
        };
        if solid {
            match entities[i].collider {
                Some(collider) => {
                    if physics_world.collider_intersecting(collider, sensor) {
                        return true;
                    }
                },
                None => {},
            }
        }
        i += 1;
    }
    false
}

/// Whether some entity is water around `collider`.
pub fn collider_in_water(
    entities: &Vec<Entity>,
    physics_world: &PhysicsWorld,
    collider: ColliderHandle,
) -> (found: bool)
    ensures
        found == in_water(entities@, physics_world, collider),
{
    let mut i: usize = 0;
    while i < entities.len()
        invariant
            i <= entities@.len(),
            forall|k: int| 0 <= k < i ==> !wets(#[trigger] entities@[k], physics_world, collider),
        decreases entities@.len() - i,
    {
        let water = match entities[i].material {
            Some(Material::Water) => true,
            _ => false,
        };
        if water {
            match entities[i].collider {
                Some(own) => {
                    if physics_world.collider_intersecting(own, collider) {
                        return true;
                    }
                },
                None => {},
            }
        }
        i += 1;
    }
    false
}

/// Finds out which of Polly's feet stand on solid ground: the left foot,
/// the middle and the right foot, each as the physics world saw it in its
/// latest step.
pub fn player_feet_grounded(world: &mut World)
    requires
        old(world).player.body is Polly,
    ensures
        final(world).player.body matches Body::Polly(polly) && {
            &&& polly.feet_grounded[0] == grounded(
                old(world).entities@,
                &old(world).physics_world,
                polly.feet_sensor_handles[0],
            )
            &&& polly.feet_grounded[1] == grounded(
                old(world).entities@,
                &old(world).physics_world,
                polly.feet_sensor_handles[1],
            )
            &&& polly.feet_grounded[2] == grounded(
                old(world).entities@,
                &old(world).physics_world,
                polly.feet_sensor_handles[2],
            )
        },
        final(world).player.body->Polly_0.body_handle == old(world).player.body->Polly_0.body_handle,
        final(world).player.body->Polly_0.collider_handle == old(world).player.body->Polly_0.collider_handle,
        final(world).player.body->Polly_0.feet_sensor_handles == old(world).player.body->Polly_0.feet_sensor_handles,
        final(world).player.body->Polly_0.feet_frame == old(world).player.body->Polly_0.feet_frame,
        final(world).player.direction == old(world).player.direction,
        final(world).player.eye_x == old(world).player.eye_x,
        final(world).player.rolly_polly_transition == old(world).player.rolly_polly_transition,
        final(world).player.life_state == old(world).player.life_state,
        final(world).player.respawn == old(world).player.respawn,
        final(world).entities == old(world).entities,
        final(world).camera == old(world).camera,
        final(world).physics_world == old(world).physics_world,
        final(world).levels == old(world).levels,
        final(world).next_entity == old(world).next_entity,
        old(world).wf() ==> final(world).wf(),
{
    match world.player.body {
        Body::Polly(polly) => {
            let left = sensor_grounded(
                &world.entities,
                &world.physics_world,
                polly.feet_sensor_handles[0],
            );
            let center = sensor_grounded(
                &world.entities,
                &world.physics_world,
                polly.feet_sensor_handles[1],
            );
            let right = sensor_grounded(
                &world.entities,
                &world.physics_world,
                polly.feet_sensor_handles[2],
            );
            let mut next = polly;
            next.feet_grounded = [left, center, right];
            world.player.body = Body::Polly(next);
            proof {
                assert(next.feet_sensor_handles == polly.feet_sensor_handles);
                if old(world).wf() {
                    assert forall|i: int| 0 <= i < world.entities@.len() implies world.admits(
                        #[trigger] world.entities@[i],
                    ) by {
                        assert(old(world).admits(old(world).entities@[i]));
                    }
                }
            }
        },
        Body::Rolly(_) => {},
    }
}

/// Ground under the middle foot alone gives a Polly that stands on its
/// middle foot alone.
pub proof fn lemma_center_foot_alone(
    entities: Seq<Entity>,
    physics_world: &PhysicsWorld,
    feet: [ColliderHandle; 3],
    ground: int,
)
    requires
        0 <= ground < entities.len(),
        stands_under(entities[ground], physics_world, feet[1]),
        forall|i: int|
            0 <= i < entities.len() ==> !stands_under(#[trigger] entities[i], physics_world, feet[0])
                && !stands_under(entities[i], physics_world, feet[2]),
    ensures
        !grounded(entities, physics_world, feet[0]),
        grounded(entities, physics_world, feet[1]),
        !grounded(entities, physics_world, feet[2]),
{
}

/// What water does to the player in a frame. A player whose main collider
/// is in water moves on with a velocity that water has slowed and that
/// sinks; a Polly that is alive and settled begins to die of it. Gives the
/// velocity that the player is to have.
pub fn player_water(world: &mut World, linvel: Vec2, delta_time: u32) -> (next: Vec2)
    ensures
        next == if in_water(
            old(world).entities@,
            &old(world).physics_world,
            old(world).player.body.collider_handle(),
        ) {
            in_water_velocity(linvel, delta_time)
        } else {
            linvel
        },
        final(world).player.life_state == if in_water(
            old(world).entities@,
            &old(world).physics_world,
            old(world).player.body.collider_handle(),
        ) && old(world).player.alive() && old(world).player.body is Polly {
            LifeState::Dead(Transition::Start)
        } else {
            old(world).player.life_state
        },
        final(world).player.direction == old(world).player.direction,
        final(world).player.body == old(world).player.body,
        final(world).player.rolly_polly_transition == old(world).player.rolly_polly_transition,
        final(world).player.eye_x == old(world).player.eye_x,
        final(world).player.respawn == old(world).player.respawn,
        final(world).entities == old(world).entities,
        final(world).camera == old(world).camera,
        final(world).physics_world == old(world).physics_world,
        final(world).levels == old(world).levels,
        final(world).next_entity == old(world).next_entity,
{
    let player_collider = world.player.body.any_collider_handle();
    if collider_in_water(&world.entities, &world.physics_world, player_collider) {
        if world.player.alive() {
            match world.player.body {
                Body::Polly(_) => {
                    world.player.life_state = LifeState::Dead(Transition::Start);
                },
                Body::Rolly(_) => {},
            }
        }
        water_velocity(linvel, delta_time)
    } else {
        linvel
    }
}

/// What a new shape of the player is made from.
pub enum BodyParts {
    Polly(PollyParts),
    Rolly(RollyParts),
}

/// Whether a frame changes the player's shape: the player is alive and
/// settled, the key is pressed, and the parts are those of the shape that
/// the player is not in.
pub open spec fn changes_shape(world: &World, input: Input, parts: BodyParts) -> bool {
    world.player.alive() && input.swap && (parts is Polly <==> world.player.body is Rolly)
}

/// Changes the player's shape where the key asks for it. The body of the
/// old shape leaves the physics world with its colliders, and the body of
/// the new shape, made from `parts`, enters it. The blend between the
/// shapes is set going, forward for a change into Rolly and backward for
/// a change into Polly, where it comes to rest at `End`; a blend that is
/// under way turns round where it is.
pub fn player_body(world: &mut World, input: Input, parts: BodyParts)
    requires
        old(world).wf(),
    ensures
        final(world).wf(),
        !changes_shape(old(world), input, parts) ==> *final(world) == *old(world),
        changes_shape(old(world), input, parts) ==> {
            &&& final(world).player.body is Polly <==> old(world).player.body is Rolly
            &&& final(world).player.rolly_polly_transition == old(world).player.rolly_polly_transition.ran(
                SHAPE_TRANSITION_DURATION,
                old(world).player.body is Polly,
            )
            &&& !old(world).physics_world.bodies().remove(
                old(world).player.body.body_handle(),
            ).contains(final(world).player.body.body_handle())
            &&& final(world).physics_world.bodies() == old(world).physics_world.bodies().remove(
                old(world).player.body.body_handle(),
            ).insert(final(world).player.body.body_handle())
            &&& forall|c: ColliderHandle|
                final(world).physics_world.colliders().contains_key(c) <==> (old(world).physics_world.colliders().contains_key(c) && old(world).physics_world.colliders()[c]
                    != Some(old(world).player.body.body_handle()))
                    || final(world).player.body.owns_collider(c)
            &&& final(world).player.body matches Body::Polly(polly) ==> polly.feet_grounded[0]
                == false && polly.feet_grounded[1] == false && polly.feet_grounded[2] == false
                && polly.feet_frame.value() == 0
        },
        final(world).player.direction == old(world).player.direction,
        final(world).player.eye_x == old(world).player.eye_x,
        final(world).player.life_state == old(world).player.life_state,
        final(world).player.respawn == old(world).player.respawn,
        final(world).entities == old(world).entities,
        final(world).camera == old(world).camera,
        final(world).levels == old(world).levels,
        final(world).next_entity == old(world).next_entity,
        final(world).physics_world.tested() == old(world).physics_world.tested(),
{
    if !world.player.alive() || !input.swap {
        return;
    }
    let ghost before = world.physics_world.colliders();
    let ghost old_body = world.player.body;
    match (world.player.body, parts) {
        (Body::Polly(polly), BodyParts::Rolly(rolly_parts)) => {
            polly.despawn(&mut world.physics_world);
            world.player.rolly_polly_transition.run(SHAPE_TRANSITION_DURATION, true);
            world.player.body = Body::Rolly(Rolly::spawn(&mut world.physics_world, rolly_parts));
        },
        (Body::Rolly(rolly), BodyParts::Polly(polly_parts)) => {
            rolly.despawn(&mut world.physics_world);
            world.player.rolly_polly_transition.run(SHAPE_TRANSITION_DURATION, false);
            world.player.body = Body::Polly(Polly::spawn(&mut world.physics_world, polly_parts));
        },
        _ => {
            return;
        },
    }
    proof {
        let after = world.physics_world.colliders();
        let gone = old_body.body_handle();
        let between = PhysicsWorld::colliders_without_body(before, gone);
        assert forall|c: ColliderHandle| #[trigger]
            world.player.body.owns_collider(c) implies !between.contains_key(c) by {}
        assert forall|c: ColliderHandle| #[trigger]
            after.contains_key(c) <==> between.contains_key(c) || world.player.body.owns_collider(
                c,
            ) by {}
        assert forall|i: int| 0 <= i < world.entities@.len() implies world.admits(
            #[trigger] world.entities@[i],
        ) by {
            let e = world.entities@[i];
            assert(old(world).admits(old(world).entities@[i]));
            if e.collider is Some {
                let c = e.collider->0;
                assert(before.contains_key(c) && before[c] == e.anchor());
                assert(between.contains_key(c) && between[c] == e.anchor());
                assert(!world.player.body.owns_collider(c));
                assert(after.contains_key(c) && after[c] == e.anchor());
            }
        }
    }
}

/// Polly's frame: the feet find the ground, the stride moves, the player
/// turns to the keys, and the movement rules give the motion that Polly is
/// to have.
pub fn player_polly(world: &mut World, input: Input, motion: Kinematics, delta_time: u32) -> (next:
    Kinematics)
    requires
        old(world).player.body is Polly,
    ensures
        final(world).player.body matches Body::Polly(polly) && {
            let before = old(world).player.body->Polly_0;
            &&& polly.feet_grounded[0] == grounded(
                old(world).entities@,
                &old(world).physics_world,
                before.feet_sensor_handles[0],
            )
            &&& polly.feet_grounded[1] == grounded(
                old(world).entities@,
                &old(world).physics_world,
                before.feet_sensor_handles[1],
            )
            &&& polly.feet_grounded[2] == grounded(
                old(world).entities@,
                &old(world).physics_world,
                before.feet_sensor_handles[2],
            )
            &&& polly.feet_frame.value() == crate::frame::wrap_unit(
                clamp64(
                    before.feet_frame.value() - stride_step(motion.linvel.x, polly.feet_grounded[1]),
                ) as int,
            )
            &&& polly.body_handle == before.body_handle
            &&& polly.collider_handle == before.collider_handle
            &&& polly.feet_sensor_handles == before.feet_sensor_handles
            &&& next == moved(
                motion,
                old(world).player.alive(),
                polly.feet_grounded,
                input,
                delta_time,
            )
        },
        final(world).player.direction == if !old(world).player.alive() {
            old(world).player.direction
        } else if input.right && !input.left {
            Direction::Right
        } else if input.left && !input.right {
            Direction::Left
        } else {
            old(world).player.direction
        },
        final(world).player.eye_x.target == if !old(world).player.alive() {
            old(world).player.eye_x.target
        } else if input.right && !input.left {
            ONE
        } else if input.left && !input.right {
            (-ONE) as i64
        } else {
            old(world).player.eye_x.target
        },
        final(world).player.eye_x.value == old(world).player.eye_x.value,
        final(world).player.eye_x.half_life == old(world).player.eye_x.half_life,
        final(world).player.rolly_polly_transition == old(world).player.rolly_polly_transition,
        final(world).player.life_state == old(world).player.life_state,
        final(world).player.respawn == old(world).player.respawn,
        final(world).entities == old(world).entities,
        final(world).camera == old(world).camera,
        final(world).physics_world == old(world).physics_world,
        final(world).levels == old(world).levels,
        final(world).next_entity == old(world).next_entity,
{
    player_feet_grounded(world);
    player_feet_frame(world, motion.linvel.x);
    player_direction(world, input);
    player_movement(world, input, motion, delta_time)
}

} // verus!

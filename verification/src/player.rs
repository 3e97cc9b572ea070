//! The player: a creature with two bodies, of which one is alive at a
//! time. Polly is a capsule on three feet and walks; Rolly is a ball and
//! rolls.

use crate::fixed::ONE;
use crate::frame::{ContinuousFrame, Transition, Tween};
use crate::level::LevelId;
use crate::life_state::LifeState;
use crate::physics_world::{BodyHandle, ColliderHandle, PhysicsWorld};
use rapier2d::dynamics::RigidBody;
use rapier2d::geometry::Collider;
use vstd::prelude::*;

verus! {

/// The time in which the eyes cover the way to where they look twice over,
/// in microseconds.
pub const EYE_HALF_LIFE: u32 = 50_000;

/// The way the player faces.
#[derive(Debug, Clone, Copy, PartialEq, Eq, Structural)]
pub enum Direction {
    Left,
    Right,
}

/// What Polly is made from: the body, its capsule, and the sensors under
/// its left foot, its middle and its right foot.
pub struct PollyParts {
    pub body: RigidBody,
    pub collider: Collider,
    pub foot_left: Collider,
    pub foot_center: Collider,
    pub foot_right: Collider,
}

/// What Rolly is made from: the body and its ball.
pub struct RollyParts {
    pub body: RigidBody,
    pub collider: Collider,
}

/// The walking shape.
#[derive(Debug, Clone, Copy, PartialEq)]
pub struct Polly {
    pub body_handle: BodyHandle,
    pub collider_handle: ColliderHandle,
    /// The sensors under the left foot, the middle and the right foot.
    pub feet_sensor_handles: [ColliderHandle; 3],
    /// Which of the three sensors touched solid ground in the last frame.
    pub feet_grounded: [bool; 3],
    /// Where the feet are in their stride.
    pub feet_frame: ContinuousFrame,
}

/// The rolling shape.
#[derive(Debug, Clone, Copy, PartialEq, Eq, Structural)]
pub struct Rolly {
    pub body_handle: BodyHandle,
    pub collider_handle: ColliderHandle,
}

/// Whether body `body` is alive with collider `collider` attached to it.
pub open spec fn attached(physics_world: &PhysicsWorld, collider: ColliderHandle, body: BodyHandle) -> bool {
    physics_world.colliders().contains_key(collider) && physics_world.colliders()[collider]
        == Some(body)
}

impl Polly {
    /// Whether `collider` is the capsule or one of the feet.
    pub open spec fn owns_collider(&self, collider: ColliderHandle) -> bool {
        ||| collider == self.collider_handle
        ||| collider == self.feet_sensor_handles[0]
        ||| collider == self.feet_sensor_handles[1]
        ||| collider == self.feet_sensor_handles[2]
    }

    /// The body is alive and carries the capsule and the three feet, four
    /// colliders in all.
    pub open spec fn live_in(&self, physics_world: &PhysicsWorld) -> bool {
        &&& physics_world.bodies().contains(self.body_handle)
        &&& attached(physics_world, self.collider_handle, self.body_handle)
        &&& attached(physics_world, self.feet_sensor_handles[0], self.body_handle)
        &&& attached(physics_world, self.feet_sensor_handles[1], self.body_handle)
        &&& attached(physics_world, self.feet_sensor_handles[2], self.body_handle)
        &&& self.collider_handle != self.feet_sensor_handles[0]
        &&& self.collider_handle != self.feet_sensor_handles[1]
        &&& self.collider_handle != self.feet_sensor_handles[2]
        &&& self.feet_sensor_handles[0] != self.feet_sensor_handles[1]
        &&& self.feet_sensor_handles[0] != self.feet_sensor_handles[2]
        &&& self.feet_sensor_handles[1] != self.feet_sensor_handles[2]
    }

    /// Says whether the body is alive with the capsule and the three feet
    /// on it.
    pub fn is_live_in(&self, physics_world: &PhysicsWorld) -> (live: bool)
        ensures
            live == self.live_in(physics_world),
    {
        let left = self.feet_sensor_handles[0];
        let center = self.feet_sensor_handles[1];
        let right = self.feet_sensor_handles[2];
        physics_world.contains_body(self.body_handle) && physics_world.is_attached(
            self.collider_handle,
            self.body_handle,
        ) && physics_world.is_attached(left, self.body_handle) && physics_world.is_attached(
            center,
            self.body_handle,
        ) && physics_world.is_attached(right, self.body_handle) && self.collider_handle != left
            && self.collider_handle != center && self.collider_handle != right && left != center
            && left != right && center != right
    }

    /// Says whether `collider` is the capsule or one of the feet.
    pub fn has_collider(&self, collider: ColliderHandle) -> (owned: bool)
        ensures
            owned == self.owns_collider(collider),
    {
        collider == self.collider_handle || collider == self.feet_sensor_handles[0] || collider
            == self.feet_sensor_handles[1] || collider == self.feet_sensor_handles[2]
    }

    /// Puts Polly into the world: a new body with its capsule and its
    /// three foot sensors, standing in the air with the stride at its
    /// beginning.
    pub fn spawn(physics_world: &mut PhysicsWorld, parts: PollyParts) -> (polly: Self)
        ensures
            old(physics_world).agrees() ==> final(physics_world).agrees(),
            !old(physics_world).bodies().contains(polly.body_handle),
            forall|c: ColliderHandle|
                polly.owns_collider(c) ==> !old(physics_world).colliders().contains_key(c),
            final(physics_world).bodies() == old(physics_world).bodies().insert(polly.body_handle),
            final(physics_world).colliders() == old(physics_world).colliders().insert(
                polly.collider_handle,
                Some(polly.body_handle),
            ).insert(polly.feet_sensor_handles[1], Some(polly.body_handle)).insert(
                polly.feet_sensor_handles[0],
                Some(polly.body_handle),
            ).insert(polly.feet_sensor_handles[2], Some(polly.body_handle)),
            final(physics_world).tested() == old(physics_world).tested(),
            polly.live_in(final(physics_world)),
            polly.feet_grounded[0] == false,
            polly.feet_grounded[1] == false,
            polly.feet_grounded[2] == false,
            polly.feet_frame.value() == 0,
    {
        let (body_handle, collider_handle) = physics_world.add_body_and_collider(
            parts.body,
            parts.collider,
        );
        let feet_center = physics_world.add_collider(parts.foot_center, body_handle);
        let feet_left = physics_world.add_collider(parts.foot_left, body_handle);
        let feet_right = physics_world.add_collider(parts.foot_right, body_handle);
        Polly {
            body_handle,
            collider_handle,
            feet_sensor_handles: [feet_left, feet_center, feet_right],
            feet_grounded: [false, false, false],
            feet_frame: ContinuousFrame::new(0),
        }
    }

    /// Takes Polly out of the world: the body goes, and with it every
    /// collider attached to it.
    pub fn despawn(&self, physics_world: &mut PhysicsWorld)
        requires
            old(physics_world).agrees(),
        ensures
            final(physics_world).agrees(),
            final(physics_world).bodies() == old(physics_world).bodies().remove(self.body_handle),
            old(physics_world).bodies().contains(self.body_handle) ==> final(physics_world).colliders() == PhysicsWorld::colliders_without_body(
                old(physics_world).colliders(),
                self.body_handle,
            ),
            !old(physics_world).bodies().contains(self.body_handle) ==> final(physics_world).colliders() == old(physics_world).colliders(),
            final(physics_world).tested() == old(physics_world).tested(),
    {
        physics_world.remove_body(self.body_handle);
    }
}

impl Rolly {
    /// The body is alive and carries the ball.
    pub open spec fn live_in(&self, physics_world: &PhysicsWorld) -> bool {
        &&& physics_world.bodies().contains(self.body_handle)
        &&& attached(physics_world, self.collider_handle, self.body_handle)
    }

    /// Puts Rolly into the world: a new body with its ball.
    pub fn spawn(physics_world: &mut PhysicsWorld, parts: RollyParts) -> (rolly: Self)
        ensures
            old(physics_world).agrees() ==> final(physics_world).agrees(),
            !old(physics_world).bodies().contains(rolly.body_handle),
            !old(physics_world).colliders().contains_key(rolly.collider_handle),
            final(physics_world).bodies() == old(physics_world).bodies().insert(rolly.body_handle),
            final(physics_world).colliders() == old(physics_world).colliders().insert(
                rolly.collider_handle,
                Some(rolly.body_handle),
            ),
            final(physics_world).tested() == old(physics_world).tested(),
            rolly.live_in(final(physics_world)),
    {
        let (body_handle, collider_handle) = physics_world.add_body_and_collider(
            parts.body,
            parts.collider,
        );
        Rolly { body_handle, collider_handle }
    }

    /// Takes Rolly out of the world: the body goes, and with it every
    /// collider attached to it.
    pub fn despawn(&self, physics_world: &mut PhysicsWorld)
        requires
            old(physics_world).agrees(),
        ensures
            final(physics_world).agrees(),
            final(physics_world).bodies() == old(physics_world).bodies().remove(self.body_handle),
            old(physics_world).bodies().contains(self.body_handle) ==> final(physics_world).colliders() == PhysicsWorld::colliders_without_body(
                old(physics_world).colliders(),
                self.body_handle,
            ),
            !old(physics_world).bodies().contains(self.body_handle) ==> final(physics_world).colliders() == old(physics_world).colliders(),
            final(physics_world).tested() == old(physics_world).tested(),
    {
        physics_world.remove_body(self.body_handle);
    }
}

/// The shape that the player is in.
#[derive(Debug, Clone, Copy, PartialEq)]
pub enum Body {
    Polly(Polly),
    Rolly(Rolly),
}

impl Body {
    /// The handle of the live body, whichever shape it has.
    pub open spec fn body_handle(&self) -> BodyHandle {
        match self {
            Body::Polly(polly) => polly.body_handle,
            Body::Rolly(rolly) => rolly.body_handle,
        }
    }

    /// The handle of the shape's main collider.
    pub open spec fn collider_handle(&self) -> ColliderHandle {
        match self {
            Body::Polly(polly) => polly.collider_handle,
            Body::Rolly(rolly) => rolly.collider_handle,
        }
    }

    /// Whether `collider` belongs to the shape.
    pub open spec fn owns_collider(&self, collider: ColliderHandle) -> bool {
        match self {
            Body::Polly(polly) => polly.owns_collider(collider),
            Body::Rolly(rolly) => collider == rolly.collider_handle,
        }
    }

    /// The shape's body and colliders are alive and belong together.
    pub open spec fn live_in(&self, physics_world: &PhysicsWorld) -> bool {
        match self {
            Body::Polly(polly) => polly.live_in(physics_world),
            Body::Rolly(rolly) => rolly.live_in(physics_world),
        }
    }

    /// Says whether the shape's body and colliders are alive and belong
    /// together.
    pub fn is_live_in(&self, physics_world: &PhysicsWorld) -> (live: bool)
        ensures
            live == self.live_in(physics_world),
    {
        match self {
            Body::Polly(polly) => polly.is_live_in(physics_world),
            Body::Rolly(rolly) => physics_world.contains_body(rolly.body_handle)
                && physics_world.is_attached(rolly.collider_handle, rolly.body_handle),
        }
    }

    /// Says whether `collider` belongs to the shape.
    pub fn has_collider(&self, collider: ColliderHandle) -> (owned: bool)
        ensures
            owned == self.owns_collider(collider),
    {
        match self {
            Body::Polly(polly) => polly.has_collider(collider),
            Body::Rolly(rolly) => collider == rolly.collider_handle,
        }
    }

    /// The handle of the live body, whichever shape it has.
    pub fn any_body_handle(&self) -> (handle: BodyHandle)
        ensures
            handle == self.body_handle(),
    {
        match self {
            Body::Polly(polly) => polly.body_handle,
            Body::Rolly(rolly) => rolly.body_handle,
        }
    }

    /// The handle of the shape's main collider.
    pub fn any_collider_handle(&self) -> (handle: ColliderHandle)
        ensures
            handle == self.collider_handle(),
    {
        match self {
            Body::Polly(polly) => polly.collider_handle,
            Body::Rolly(rolly) => rolly.collider_handle,
        }
    }

    /// Polly, of a player that is Polly.
    pub fn unwrap_polly(&self) -> (polly: &Polly)
        requires
            self is Polly,
        ensures
            *self == Body::Polly(*polly),
    {
        match self {
            Body::Polly(polly) => polly,
            Body::Rolly(_) => unreached(),
        }
    }

    /// Polly, to change, of a player that is Polly.
    pub fn unwrap_polly_mut(&mut self) -> (polly: &mut Polly)
        requires
            *old(self) is Polly,
        ensures
            *old(self) == Body::Polly(*polly),
            *final(self) == Body::Polly(*final(polly)),
    {
        match self {
            Body::Polly(polly) => polly,
            Body::Rolly(_) => unreached(),
        }
    }

    /// Rolly, to change, of a player that is Rolly.
    pub fn unwrap_rolly_mut(&mut self) -> (rolly: &mut Rolly)
        requires
            *old(self) is Rolly,
        ensures
            *old(self) == Body::Rolly(*rolly),
            *final(self) == Body::Rolly(*final(rolly)),
    {
        match self {
            Body::Rolly(rolly) => rolly,
            Body::Polly(_) => unreached(),
        }
    }

    /// Rolly, of a player that is Rolly.
    pub fn unwrap_rolly(&self) -> (rolly: &Rolly)
        requires
            self is Rolly,
        ensures
            *self == Body::Rolly(*rolly),
    {
        match self {
            Body::Rolly(rolly) => rolly,
            Body::Polly(_) => unreached(),
        }
    }

    /// Takes the shape out of the world: its body goes, and with it every
    /// collider attached to it.
    pub fn despawn(&self, physics_world: &mut PhysicsWorld)
        requires
            old(physics_world).agrees(),
        ensures
            final(physics_world).agrees(),
            final(physics_world).bodies() == old(physics_world).bodies().remove(self.body_handle()),
            old(physics_world).bodies().contains(self.body_handle()) ==> final(physics_world).colliders() == PhysicsWorld::colliders_without_body(
                old(physics_world).colliders(),
                self.body_handle(),
            ),
            !old(physics_world).bodies().contains(self.body_handle()) ==> final(physics_world).colliders() == old(physics_world).colliders(),
            final(physics_world).tested() == old(physics_world).tested(),
    {
        match self {
            Body::Polly(polly) => polly.despawn(physics_world),
            Body::Rolly(rolly) => rolly.despawn(physics_world),
        }
    }
}

/// The player.
pub struct Player {
    pub direction: Direction,
    pub body: Body,
    /// The blend between the two shapes, which a change of shape sets
    /// going: forward for a change into Rolly, backward for a change into
    /// Polly. It decides how the player shows only while it is under way;
    /// at rest the player shows as the shape that its body has. A fresh
    /// player is Rolly with the blend at rest at `End`.
    pub rolly_polly_transition: Transition,
    /// Where the eyes look, from -`ONE` on the left to `ONE` on the right.
    pub eye_x: Tween,
    pub life_state: LifeState,
    /// The level of the highest checkpoint that the player has touched.
    pub respawn: LevelId,
}

impl Player {
    /// A player as it is at the beginning and after every respawn: Rolly,
    /// facing right, with the shapes' blend at rest and the eyes to the
    /// right.
    pub open spec fn is_fresh(&self) -> bool {
        &&& self.body is Rolly
        &&& self.direction == Direction::Right
        &&& self.rolly_polly_transition == Transition::End
        &&& self.eye_x == (Tween { target: ONE, value: ONE, half_life: EYE_HALF_LIFE })
    }

    /// Puts a new player into the world as Rolly. The player begins dead
    /// and settled, with the first level to come back to.
    pub fn spawn(physics_world: &mut PhysicsWorld, parts: RollyParts) -> (player: Self)
        ensures
            old(physics_world).agrees() ==> final(physics_world).agrees(),
            player.is_fresh(),
            player.life_state == LifeState::Dead(Transition::End),
            player.respawn == LevelId(0),
            !old(physics_world).bodies().contains(player.body.body_handle()),
            !old(physics_world).colliders().contains_key(player.body.collider_handle()),
            final(physics_world).bodies() == old(physics_world).bodies().insert(
                player.body.body_handle(),
            ),
            final(physics_world).colliders() == old(physics_world).colliders().insert(
                player.body.collider_handle(),
                Some(player.body.body_handle()),
            ),
            final(physics_world).tested() == old(physics_world).tested(),
            player.body.live_in(final(physics_world)),
    {
        let body = Body::Rolly(Rolly::spawn(physics_world, parts));
        Player {
            direction: Direction::Right,
            body,
            rolly_polly_transition: Transition::End,
            eye_x: Tween::new(ONE, EYE_HALF_LIFE),
            life_state: LifeState::Dead(Transition::End),
            respawn: LevelId::first(),
        }
    }

    /// Whether the player is alive and settled.
    pub open spec fn spec_alive(&self) -> bool {
        self.life_state == LifeState::Alive(Transition::End)
    }

    #[verifier::when_used_as_spec(spec_alive)]
    pub fn alive(&self) -> (alive: bool)
        ensures
            alive == self.spec_alive(),
    {
        self.life_state.settled_alive()
    }

    /// Makes the player new again but for its life and its checkpoint: the
    /// old body goes with its colliders, and a new Rolly takes its place.
    pub fn reset(&mut self, physics_world: &mut PhysicsWorld, parts: RollyParts)
        requires
            old(physics_world).agrees(),
            old(self).body.live_in(old(physics_world)),
        ensures
            final(physics_world).agrees(),
            final(self).is_fresh(),
            final(self).life_state == old(self).life_state,
            final(self).respawn == old(self).respawn,
            !old(physics_world).bodies().remove(old(self).body.body_handle()).contains(
                final(self).body.body_handle(),
            ),
            !PhysicsWorld::colliders_without_body(
                old(physics_world).colliders(),
                old(self).body.body_handle(),
            ).contains_key(final(self).body.collider_handle()),
            final(physics_world).bodies() == old(physics_world).bodies().remove(
                old(self).body.body_handle(),
            ).insert(final(self).body.body_handle()),
            final(physics_world).colliders() == PhysicsWorld::colliders_without_body(
                old(physics_world).colliders(),
                old(self).body.body_handle(),
            ).insert(final(self).body.collider_handle(), Some(final(self).body.body_handle())),
            final(physics_world).tested() == old(physics_world).tested(),
            final(self).body.live_in(final(physics_world)),
    {
        self.body.despawn(physics_world);
        self.body = Body::Rolly(Rolly::spawn(physics_world, parts));
        self.direction = Direction::Right;
        self.rolly_polly_transition = Transition::End;
        self.eye_x = Tween::new(ONE, EYE_HALF_LIFE);
    }
}

} // verus!

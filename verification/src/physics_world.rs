//! The physics world: the rigid bodies and colliders of the simulation,
//! owned by handle.
//!
//! The simulation itself is the work of the physics engine. What this
//! module states, and what the rest of the library is proved against, is
//! which handles are alive: which bodies exist, which colliders exist and
//! which body each collider hangs on.
//!
//! The engine keeps the link between a body and its colliders twice: every
//! collider names its body, and every body lists its colliders. The
//! engine's own functions keep the two records in step, and it removes
//! with a body the colliders that the body lists. `PhysicsWorld::agrees`
//! says that the two records are in step; the functions here keep it so,
//! and `PhysicsWorld::is_consistent` tests it.

use rapier2d::dynamics::{
    CCDSolver, ImpulseJointSet, IntegrationParameters, IslandManager, MultibodyJointSet,
    RigidBody, RigidBodyHandle, RigidBodySet,
};
use rapier2d::geometry::{BroadPhase, Collider, ColliderSet, NarrowPhase};
use rapier2d::math::{Real, Rotation, Vector};
use rapier2d::pipeline::PhysicsPipeline;
use std::time::Duration;
use vstd::prelude::*;

verus! {

// The types of the physics engine that pass through this library. Each is
// taken as it is: nothing is known of a value but what the functions below
// say of it.
#[verifier::external_type_specification]
#[verifier::external_body]
pub struct ExRigidBodySet(RigidBodySet);

#[verifier::external_type_specification]
#[verifier::external_body]
pub struct ExColliderSet(ColliderSet);

#[verifier::external_type_specification]
#[verifier::external_body]
pub struct ExIntegrationParameters(IntegrationParameters);

#[verifier::external_type_specification]
#[verifier::external_body]
pub struct ExPhysicsPipeline(PhysicsPipeline);

#[verifier::external_type_specification]
#[verifier::external_body]
pub struct ExIslandManager(IslandManager);

#[verifier::external_type_specification]
#[verifier::external_body]
pub struct ExBroadPhase(BroadPhase);

#[verifier::external_type_specification]
#[verifier::external_body]
pub struct ExNarrowPhase(NarrowPhase);

#[verifier::external_type_specification]
#[verifier::external_body]
pub struct ExImpulseJointSet(ImpulseJointSet);

#[verifier::external_type_specification]
#[verifier::external_body]
pub struct ExMultibodyJointSet(MultibodyJointSet);

#[verifier::external_type_specification]
#[verifier::external_body]
pub struct ExCCDSolver(CCDSolver);

#[verifier::external_type_specification]
#[verifier::external_body]
pub struct ExRigidBody(RigidBody);

#[verifier::external_type_specification]
#[verifier::external_body]
pub struct ExCollider(Collider);

// The types of the linear algebra library that the gravity vector is made
// of.
#[verifier::external_type_specification]
#[verifier::external_body]
#[verifier::reject_recursive_types(T)]
#[verifier::reject_recursive_types(R)]
#[verifier::reject_recursive_types(C)]
#[verifier::reject_recursive_types(S)]
pub struct ExMatrix<T, R, C, S>(nalgebra::Matrix<T, R, C, S>);

#[verifier::external_type_specification]
#[verifier::external_body]
pub struct ExConst<const R: usize>(nalgebra::Const<R>);

#[verifier::external_type_specification]
#[verifier::external_body]
#[verifier::reject_recursive_types(T)]
pub struct ExArrayStorage<T, const R: usize, const C: usize>(nalgebra::ArrayStorage<T, R, C>);

/// The handle of a rigid body: its slot in the body set and the generation
/// of that slot.
#[derive(Clone, Copy, Debug, PartialEq, Eq, Hash, Structural)]
pub struct BodyHandle {
    pub index: u32,
    pub generation: u32,
}

/// The handle of a collider: its slot in the collider set and the
/// generation of that slot.
#[derive(Clone, Copy, Debug, PartialEq, Eq, Hash, Structural)]
pub struct ColliderHandle {
    pub index: u32,
    pub generation: u32,
}

/// The handles of the bodies that a body set holds.
pub uninterp spec fn body_set_handles(set: RigidBodySet) -> Set<BodyHandle>;

/// The colliders that a collider set holds, each with the body it is
/// attached to, if any.
pub uninterp spec fn collider_set_parents(set: ColliderSet) -> Map<
    ColliderHandle,
    Option<BodyHandle>,
>;

/// The list that each body of a body set keeps of the colliders attached
/// to it, in the order in which the body holds them.
pub uninterp spec fn body_set_colliders(set: RigidBodySet) -> Map<BodyHandle, Seq<ColliderHandle>>;

/// The pairs of colliders that the narrow phase tracks as possibly
/// intersecting, each with the result of its latest test.
pub uninterp spec fn intersection_results(narrow_phase: NarrowPhase) -> Map<
    (ColliderHandle, ColliderHandle),
    bool,
>;

/// Whether every collider of `before` is among `after`, on the same body.
pub open spec fn colliders_kept(
    before: Map<ColliderHandle, Option<BodyHandle>>,
    after: Map<ColliderHandle, Option<BodyHandle>>,
) -> bool {
    forall|c: ColliderHandle| #[trigger]
        before.contains_key(c) ==> after.contains_key(c) && after[c] == before[c]
}

/// The physics world: the engine's sets of bodies and colliders, and what
/// the engine needs to step them. The engine's values are kept out of
/// reach, so that they change through the engine's own functions alone,
/// called by the functions here: the engine steps a world safely only if
/// its sets, its islands and its pipeline stages know of each other what
/// those functions tell them.
pub struct PhysicsWorld {
    rigid_body_set: RigidBodySet,
    collider_set: ColliderSet,
    gravity: Vector<Real>,
    integration_parameters: IntegrationParameters,
    physics_pipeline: PhysicsPipeline,
    island_manager: IslandManager,
    broad_phase: BroadPhase,
    narrow_phase: NarrowPhase,
    impulse_joint_set: ImpulseJointSet,
    multibody_joint_set: MultibodyJointSet,
    ccd_solver: CCDSolver,
}

impl PhysicsWorld {
    /// The handles of the live bodies.
    pub closed spec fn bodies(&self) -> Set<BodyHandle> {
        body_set_handles(self.rigid_body_set)
    }

    /// The live colliders, each with the body it is attached to.
    pub closed spec fn colliders(&self) -> Map<ColliderHandle, Option<BodyHandle>> {
        collider_set_parents(self.collider_set)
    }

    /// The pairs of colliders that the narrow phase tracks, each with the
    /// result of its latest test.
    pub closed spec fn tested(&self) -> Map<(ColliderHandle, ColliderHandle), bool> {
        intersection_results(self.narrow_phase)
    }

    /// Whether the narrow phase's latest test found the two colliders
    /// intersecting.
    pub open spec fn intersecting(&self, a: ColliderHandle, b: ColliderHandle) -> bool {
        self.tested().contains_key((a, b)) && self.tested()[(a, b)]
    }

    /// The colliders that are left when body `handle` goes: all but those
    /// attached to it.
    pub open spec fn colliders_without_body(
        colliders: Map<ColliderHandle, Option<BodyHandle>>,
        handle: BodyHandle,
    ) -> Map<ColliderHandle, Option<BodyHandle>> {
        colliders.remove_keys(
            Set::new(
                |c: ColliderHandle| colliders.contains_key(c) && colliders[c] == Some(handle),
            ),
        )
    }

    /// The list that each live body keeps of its colliders.
    pub closed spec fn listed(&self) -> Map<BodyHandle, Seq<ColliderHandle>> {
        body_set_colliders(self.rigid_body_set)
    }

    /// Whether the two records of the engine are in step: every collider
    /// that names a body names a live one and stands on that body's list,
    /// no list holds a collider twice, and every collider on the list of a
    /// live body is alive and names that body.
    pub open spec fn agrees(&self) -> bool {
        &&& forall|c: ColliderHandle| #[trigger]
            self.colliders().contains_key(c) && self.colliders()[c] is Some
                ==> self.bodies().contains(self.colliders()[c]->0)
                && self.listed()[self.colliders()[c]->0].contains(c)
        &&& forall|b: BodyHandle| #[trigger]
            self.bodies().contains(b) ==> self.listed()[b].no_duplicates()
        &&& forall|b: BodyHandle, c: ColliderHandle|
            self.bodies().contains(b) && #[trigger] self.listed()[b].contains(c)
                ==> self.colliders().contains_key(c) && self.colliders()[c] == Some(b)
    }

    /// The live body that a live collider names, if it names one.
    pub open spec fn live_parent(&self, handle: ColliderHandle) -> Option<BodyHandle> {
        if self.colliders().contains_key(handle) && self.colliders()[handle] is Some
            && self.bodies().contains(self.colliders()[handle]->0) {
            self.colliders()[handle]
        } else {
            None
        }
    }

    /// Whether every live collider on the list of body `handle` names
    /// that body.
    pub open spec fn lists_its_own(&self, handle: BodyHandle) -> bool {
        forall|c: ColliderHandle|
            #[trigger] self.listed()[handle].contains(c) && self.colliders().contains_key(c)
                ==> self.colliders()[c] == Some(handle)
    }

    /// How the lists stand once collider `handle` has been struck from the
    /// list of body `at`: no other list and no other collider is touched,
    /// and a list that held the collider once holds it no more.
    pub open spec fn unlisted(
        before: Map<BodyHandle, Seq<ColliderHandle>>,
        after: Map<BodyHandle, Seq<ColliderHandle>>,
        at: Option<BodyHandle>,
        handle: ColliderHandle,
    ) -> bool {
        match at {
            None => after == before,
            Some(body) => {
                &&& forall|b: BodyHandle| b != body ==> #[trigger] after[b] == before[b]
                &&& forall|h: ColliderHandle|
                    h != handle ==> #[trigger] after[body].contains(h) == before[body].contains(h)
                &&& after[body].contains(handle) ==> before[body].contains(handle)
                &&& before[body].no_duplicates() ==> after[body].no_duplicates()
                    && !after[body].contains(handle)
            },
        }
    }

    /// Whether the two worlds hold the same bodies and colliders, attached
    /// alike, with the same results of the narrow phase's tests, and their
    /// records are in step alike.
    pub open spec fn unchanged(before: Self, after: Self) -> bool {
        &&& after.bodies() == before.bodies()
        &&& after.colliders() == before.colliders()
        &&& after.listed() == before.listed()
        &&& after.tested() == before.tested()
    }

    /// Whether the two worlds hold the same bodies, colliders and lists,
    /// and the same results of the narrow phase's tests.
    pub closed spec fn same_sets(before: Self, after: Self) -> bool {
        &&& body_set_handles(after.rigid_body_set) == body_set_handles(before.rigid_body_set)
        &&& collider_set_parents(after.collider_set) == collider_set_parents(before.collider_set)
        &&& body_set_colliders(after.rigid_body_set) == body_set_colliders(before.rigid_body_set)
        &&& intersection_results(after.narrow_phase) == intersection_results(before.narrow_phase)
    }

    /// No bodies.
    pub open spec fn no_bodies() -> Set<BodyHandle> {
        Set::empty()
    }

    /// No colliders.
    pub open spec fn no_colliders() -> Map<ColliderHandle, Option<BodyHandle>> {
        Map::empty()
    }

    /// No list.
    pub open spec fn no_lists() -> Map<BodyHandle, Seq<ColliderHandle>> {
        Map::empty()
    }

    /// A list without a collider.
    pub open spec fn no_list() -> Seq<ColliderHandle> {
        Seq::empty()
    }

    /// No pair tested.
    pub open spec fn no_results() -> Map<(ColliderHandle, ColliderHandle), bool> {
        Map::empty()
    }

    /// An empty world under `gravity`. Calls the constructors of the
    /// engine's sets and pipeline stages, `RigidBodySet::new`,
    /// `ColliderSet::new` and `NarrowPhase::new` among them; each starts out
    /// empty.
    #[verifier::external_body]
    fn empty(gravity: Vector<Real>) -> (world: Self)
        ensures
            body_set_handles(world.rigid_body_set) == Self::no_bodies(),
            collider_set_parents(world.collider_set) == Self::no_colliders(),
            body_set_colliders(world.rigid_body_set) == Self::no_lists(),
            intersection_results(world.narrow_phase) == Self::no_results(),
    {
        Self {
            rigid_body_set: RigidBodySet::new(),
            collider_set: ColliderSet::new(),
            gravity,
            integration_parameters: IntegrationParameters::default(),
            physics_pipeline: PhysicsPipeline::new(),
            island_manager: IslandManager::new(),
            broad_phase: BroadPhase::new(),
            narrow_phase: NarrowPhase::new(),
            impulse_joint_set: ImpulseJointSet::new(),
            multibody_joint_set: MultibodyJointSet::new(),
            ccd_solver: CCDSolver::new(),
        }
    }

    /// Advances the simulation by the step length. Calls
    /// `PhysicsPipeline::step`, which moves bodies and recomputes contacts
    /// and intersections but neither adds nor removes a body or a collider,
    /// nor attaches one anew. The step looks up the body that a collider
    /// names and the colliders that a body lists without asking whether
    /// they are alive, and unwinds where one is not: the two records have
    /// to be in step. It also asserts that the smallest island has a size
    /// above zero, which holds of the parameters that `empty` made, of
    /// which nothing but the step length is ever changed.
    #[verifier::external_body]
    fn step(&mut self)
        requires
            old(self).agrees(),
        ensures
            body_set_handles(final(self).rigid_body_set) == body_set_handles(
                old(self).rigid_body_set,
            ),
            collider_set_parents(final(self).collider_set) == collider_set_parents(
                old(self).collider_set,
            ),
            body_set_colliders(final(self).rigid_body_set) == body_set_colliders(
                old(self).rigid_body_set,
            ),
    {
        self.physics_pipeline.step(
            &self.gravity, &self.integration_parameters, &mut self.island_manager,
            &mut self.broad_phase, &mut self.narrow_phase, &mut self.rigid_body_set,
            &mut self.collider_set, &mut self.impulse_joint_set,
            &mut self.multibody_joint_set, &mut self.ccd_solver, None, &(), &(),
        );
    }

    /// Sets the length of a step, given in microseconds. Writes the field
    /// `dt` of the engine's `IntegrationParameters` with the seconds that
    /// `Duration::as_secs_f32` makes of the microseconds, a number that is
    /// finite and not negative; nothing else is touched.
    #[verifier::external_body]
    fn write_step_length(&mut self, micros: u32)
        ensures
            final(self).rigid_body_set == old(self).rigid_body_set,
            final(self).collider_set == old(self).collider_set,
            final(self).narrow_phase == old(self).narrow_phase,
    {
        self.integration_parameters.dt = Duration::from_micros(micros.into()).as_secs_f32();
    }

    /// Gives a live body a linear velocity. Calls `RigidBodySet::get_mut`
    /// and, on the body found, `RigidBody::set_linvel`, which changes the
    /// body's motion and nothing else.
    #[verifier::external_body]
    fn write_linvel(&mut self, handle: BodyHandle, linvel: Vector<Real>, wake_up: bool) -> (found:
        bool)
        ensures
            found == body_set_handles(old(self).rigid_body_set).contains(handle),
            Self::same_sets(*old(self), *final(self)),
    {
        let raw = RigidBodyHandle::from_raw_parts(handle.index, handle.generation);
        match self.rigid_body_set.get_mut(raw) {
            Some(body) => {
                body.set_linvel(linvel, wake_up);
                true
            },
            None => false,
        }
    }

    /// Gives a live body an angular velocity. Calls
    /// `RigidBodySet::get_mut` and, on the body found,
    /// `RigidBody::set_angvel`, which changes the body's motion and nothing
    /// else.
    #[verifier::external_body]
    fn write_angvel(&mut self, handle: BodyHandle, angvel: Real, wake_up: bool) -> (found: bool)
        ensures
            found == body_set_handles(old(self).rigid_body_set).contains(handle),
            Self::same_sets(*old(self), *final(self)),
    {
        let raw = RigidBodyHandle::from_raw_parts(handle.index, handle.generation);
        match self.rigid_body_set.get_mut(raw) {
            Some(body) => {
                body.set_angvel(angvel, wake_up);
                true
            },
            None => false,
        }
    }

    /// Puts a live body at a place. Calls `RigidBodySet::get_mut` and, on
    /// the body found, `RigidBody::set_translation`, which changes the
    /// body's position and nothing else.
    #[verifier::external_body]
    fn write_translation(
        &mut self,
        handle: BodyHandle,
        translation: Vector<Real>,
        wake_up: bool,
    ) -> (found: bool)
        ensures
            found == body_set_handles(old(self).rigid_body_set).contains(handle),
            Self::same_sets(*old(self), *final(self)),
    {
        let raw = RigidBodyHandle::from_raw_parts(handle.index, handle.generation);
        match self.rigid_body_set.get_mut(raw) {
            Some(body) => {
                body.set_translation(translation, wake_up);
                true
            },
            None => false,
        }
    }

    /// Turns a live body to an angle, in radians. Calls
    /// `RigidBodySet::get_mut` and, on the body found,
    /// `RigidBody::set_rotation` with the rotation that `Rotation::new`
    /// makes of the angle, which changes the body's position and nothing
    /// else.
    #[verifier::external_body]
    fn write_rotation(&mut self, handle: BodyHandle, angle: Real, wake_up: bool) -> (found: bool)
        ensures
            found == body_set_handles(old(self).rigid_body_set).contains(handle),
            Self::same_sets(*old(self), *final(self)),
    {
        let raw = RigidBodyHandle::from_raw_parts(handle.index, handle.generation);
        match self.rigid_body_set.get_mut(raw) {
            Some(body) => {
                body.set_rotation(Rotation::new(angle), wake_up);
                true
            },
            None => false,
        }
    }

    /// Stores a body. Calls `RigidBodySet::insert`, which empties the
    /// body's own list of colliders, stores the body in a free slot and
    /// returns the handle of that slot: a handle that was not alive before.
    /// The colliders are not touched.
    #[verifier::external_body]
    fn insert_body(&mut self, body: RigidBody) -> (handle: BodyHandle)
        ensures
            !body_set_handles(old(self).rigid_body_set).contains(handle),
            body_set_handles(final(self).rigid_body_set) == body_set_handles(
                old(self).rigid_body_set,
            ).insert(handle),
            body_set_colliders(final(self).rigid_body_set) == body_set_colliders(
                old(self).rigid_body_set,
            ).insert(handle, Self::no_list()),
            collider_set_parents(final(self).collider_set) == collider_set_parents(
                old(self).collider_set,
            ),
            final(self).narrow_phase == old(self).narrow_phase,
    {
        let (index, generation) = self.rigid_body_set.insert(body).into_raw_parts();
        BodyHandle { index, generation }
    }

    /// Stores a collider on a live body. Calls
    /// `ColliderSet::insert_with_parent`, which panics where the parent is
    /// not in the body set, and otherwise stores the collider in a free slot
    /// with that parent, puts the slot's handle at the end of the parent's
    /// list and returns it.
    #[verifier::external_body]
    fn insert_collider(&mut self, collider: Collider, parent: BodyHandle) -> (handle:
        ColliderHandle)
        requires
            body_set_handles(old(self).rigid_body_set).contains(parent),
        ensures
            !collider_set_parents(old(self).collider_set).contains_key(handle),
            collider_set_parents(final(self).collider_set) == collider_set_parents(
                old(self).collider_set,
            ).insert(handle, Some(parent)),
            body_set_handles(final(self).rigid_body_set) == body_set_handles(
                old(self).rigid_body_set,
            ),
            body_set_colliders(final(self).rigid_body_set) == body_set_colliders(
                old(self).rigid_body_set,
            ).insert(parent, body_set_colliders(old(self).rigid_body_set)[parent].push(handle)),
            final(self).narrow_phase == old(self).narrow_phase,
    {
        let parent = RigidBodyHandle::from_raw_parts(parent.index, parent.generation);
        let (index, generation) = self.collider_set.insert_with_parent(
            collider, parent, &mut self.rigid_body_set,
        ).into_raw_parts();
        ColliderHandle { index, generation }
    }

    /// Takes a body out, and with it the colliders on its list. Calls
    /// `RigidBodySet::remove` with the flag that removes attached colliders;
    /// for a handle that is not alive that call changes nothing. The
    /// colliders that go are those that the body lists, whatever body they
    /// name themselves. A collider that goes is struck from the list of the
    /// live body that it names, so the other lists stay as they are where
    /// the colliders that the body lists name that body.
    #[verifier::external_body]
    fn take_body(&mut self, handle: BodyHandle)
        ensures
            body_set_handles(final(self).rigid_body_set) == body_set_handles(
                old(self).rigid_body_set,
            ).remove(handle),
            body_set_handles(old(self).rigid_body_set).contains(handle)
                ==> collider_set_parents(final(self).collider_set) == collider_set_parents(
                old(self).collider_set,
            ).remove_keys(body_set_colliders(old(self).rigid_body_set)[handle].to_set()),
            !body_set_handles(old(self).rigid_body_set).contains(handle)
                ==> collider_set_parents(final(self).collider_set) == collider_set_parents(
                old(self).collider_set,
            ),
            !body_set_handles(old(self).rigid_body_set).contains(handle)
                ==> body_set_colliders(final(self).rigid_body_set) == body_set_colliders(
                old(self).rigid_body_set,
            ),
            body_set_handles(old(self).rigid_body_set).contains(handle) && old(
                self,
            ).lists_its_own(handle) ==> body_set_colliders(final(self).rigid_body_set)
                == body_set_colliders(old(self).rigid_body_set).remove(handle),
            final(self).narrow_phase == old(self).narrow_phase,
    {
        self.rigid_body_set.remove(
            RigidBodyHandle::from_raw_parts(handle.index, handle.generation),
            &mut self.island_manager, &mut self.collider_set, &mut self.impulse_joint_set,
            &mut self.multibody_joint_set, true,
        );
    }

    /// Takes one collider out and leaves its body in place. Calls
    /// `ColliderSet::remove`; for a handle that is not alive that call
    /// changes nothing. Where the collider names a live body, its first
    /// entry on that body's list is struck; no other list is touched.
    #[verifier::external_body]
    fn take_collider(&mut self, handle: ColliderHandle)
        ensures
            collider_set_parents(final(self).collider_set) == collider_set_parents(
                old(self).collider_set,
            ).remove(handle),
            body_set_handles(final(self).rigid_body_set) == body_set_handles(
                old(self).rigid_body_set,
            ),
            Self::unlisted(
                body_set_colliders(old(self).rigid_body_set),
                body_set_colliders(final(self).rigid_body_set),
                old(self).live_parent(handle),
                handle,
            ),
            final(self).narrow_phase == old(self).narrow_phase,
    {
        self.collider_set.remove(
            rapier2d::geometry::ColliderHandle::from_raw_parts(handle.index, handle.generation),
            &mut self.island_manager, &mut self.rigid_body_set, true,
        );
    }

    /// The handles of the live bodies. Calls `RigidBodySet::iter`, which
    /// visits every body of the set once, with its handle.
    #[verifier::external_body]
    fn body_handles(&self) -> (handles: Vec<BodyHandle>)
        ensures
            handles@.to_set() == body_set_handles(self.rigid_body_set),
            handles@.no_duplicates(),
    {
        let mut handles = Vec::new();
        for (handle, _) in self.rigid_body_set.iter() {
            let (index, generation) = handle.into_raw_parts();
            handles.push(BodyHandle { index, generation });
        }
        handles
    }

    /// The handles of the live colliders. Calls `ColliderSet::iter`, which
    /// visits every collider of the set once, with its handle.
    #[verifier::external_body]
    fn collider_handles(&self) -> (handles: Vec<ColliderHandle>)
        ensures
            handles@.to_set() == collider_set_parents(self.collider_set).dom(),
            handles@.no_duplicates(),
    {
        let mut handles = Vec::new();
        for (handle, _) in self.collider_set.iter() {
            let (index, generation) = handle.into_raw_parts();
            handles.push(ColliderHandle { index, generation });
        }
        handles
    }

    /// The list that a live body keeps of its colliders. Calls
    /// `RigidBodySet::get` and, on the body found, `RigidBody::colliders`.
    #[verifier::external_body]
    fn listed_colliders(&self, body: BodyHandle) -> (list: Option<Vec<ColliderHandle>>)
        ensures
            list is Some == body_set_handles(self.rigid_body_set).contains(body),
            list matches Some(l) ==> l@ == body_set_colliders(self.rigid_body_set)[body],
    {
        let raw = RigidBodyHandle::from_raw_parts(body.index, body.generation);
        let found = self.rigid_body_set.get(raw)?;
        let mut list = Vec::new();
        for handle in found.colliders() {
            let (index, generation) = handle.into_raw_parts();
            list.push(ColliderHandle { index, generation });
        }
        Some(list)
    }

    /// Looks a body up. Calls `RigidBodySet::get`, which finds a body
    /// exactly for the handles that are alive.
    #[verifier::external_body]
    pub fn get_body(&self, handle: BodyHandle) -> (body: Option<&RigidBody>)
        ensures
            body.is_some() == self.bodies().contains(handle),
    {
        self.rigid_body_set.get(RigidBodyHandle::from_raw_parts(handle.index, handle.generation))
    }

    /// Looks a collider up. Calls `ColliderSet::get`, which finds a
    /// collider exactly for the handles that are alive.
    #[verifier::external_body]
    pub fn get_collider(&self, handle: ColliderHandle) -> (collider: Option<&Collider>)
        ensures
            collider.is_some() == self.colliders().contains_key(handle),
    {
        self.collider_set.get(
            rapier2d::geometry::ColliderHandle::from_raw_parts(handle.index, handle.generation),
        )
    }

    /// The body that a collider is attached to, if the collider is alive.
    /// Calls `ColliderSet::get` and, on the collider found, `Collider::parent`.
    #[verifier::external_body]
    fn collider_parent(&self, handle: ColliderHandle) -> (parent: Option<
        Option<BodyHandle>,
    >)
        ensures
            parent == (if collider_set_parents(self.collider_set).contains_key(handle) {
                Some(collider_set_parents(self.collider_set)[handle])
            } else {
                None
            }),
    {
        let handle = rapier2d::geometry::ColliderHandle::from_raw_parts(
            handle.index, handle.generation,
        );
        match self.collider_set.get(handle) {
            Some(collider) => match collider.parent() {
                Some(body) => {
                    let (index, generation) = body.into_raw_parts();
                    Some(Some(BodyHandle { index, generation }))
                },
                None => Some(None),
            },
            None => None,
        }
    }

    /// The narrow phase's record for a pair of colliders. Calls
    /// `NarrowPhase::intersection_pair`: nothing for a pair that it does not
    /// track, else whether its latest test found them intersecting.
    #[verifier::external_body]
    fn intersection_pair(&self, a: ColliderHandle, b: ColliderHandle) -> (found: Option<bool>)
        ensures
            found == (if intersection_results(self.narrow_phase).contains_key((a, b)) {
                Some(intersection_results(self.narrow_phase)[(a, b)])
            } else {
                None
            }),
    {
        self.narrow_phase.intersection_pair(
            rapier2d::geometry::ColliderHandle::from_raw_parts(a.index, a.generation),
            rapier2d::geometry::ColliderHandle::from_raw_parts(b.index, b.generation),
        )
    }

    /// An empty world under `gravity`.
    pub fn new(gravity: Vector<Real>) -> (world: Self)
        ensures
            world.bodies() == Self::no_bodies(),
            world.colliders() == Self::no_colliders(),
            world.tested() == Self::no_results(),
            world.agrees(),
    {
        Self::empty(gravity)
    }

    /// Advances the simulation by the step length: bodies move, and the
    /// narrow phase tests anew which colliders intersect. No body and no
    /// collider comes or goes, and none is attached anew.
    pub fn update(&mut self)
        requires
            old(self).agrees(),
        ensures
            final(self).agrees(),
            final(self).bodies() == old(self).bodies(),
            final(self).colliders() == old(self).colliders(),
    {
        self.step();
        proof {
            assert(self.listed() == old(self).listed());
            assert forall|c: ColliderHandle| #[trigger]
                self.colliders().contains_key(c) && self.colliders()[c]
                    is Some implies self.bodies().contains(self.colliders()[c]->0)
                && self.listed()[self.colliders()[c]->0].contains(c) by {
                assert(old(self).colliders().contains_key(c));
            }
            assert forall|b: BodyHandle| #[trigger]
                self.bodies().contains(b) implies self.listed()[b].no_duplicates() by {
                assert(old(self).bodies().contains(b));
            }
            assert forall|b: BodyHandle, c: ColliderHandle|
                self.bodies().contains(b) && #[trigger] self.listed()[b].contains(
                    c,
                ) implies self.colliders().contains_key(c) && self.colliders()[c] == Some(b) by {
                assert(old(self).listed()[b].contains(c));
            }
        }
    }

    /// Advances the simulation by the step length if the engine's records
    /// are in step, and says whether they were; a world whose records are
    /// out of step is left as it is.
    pub fn try_update(&mut self) -> (done: bool)
        ensures
            done == old(self).agrees(),
            !done ==> *final(self) == *old(self),
            final(self).agrees() == old(self).agrees(),
            final(self).bodies() == old(self).bodies(),
            final(self).colliders() == old(self).colliders(),
    {
        if self.is_consistent() {
            self.update();
            true
        } else {
            false
        }
    }

    /// Sets the length of a step, in microseconds.
    pub fn set_step_length(&mut self, micros: u32)
        ensures
            Self::unchanged(*old(self), *final(self)),
    {
        self.write_step_length(micros);
    }

    /// Gives a body a linear velocity, and says whether the body is
    /// alive. No body and no collider comes or goes.
    pub fn set_linvel(&mut self, handle: BodyHandle, linvel: Vector<Real>, wake_up: bool) -> (found:
        bool)
        ensures
            found == old(self).bodies().contains(handle),
            Self::unchanged(*old(self), *final(self)),
    {
        self.write_linvel(handle, linvel, wake_up)
    }

    /// Gives a body an angular velocity, and says whether the body is
    /// alive. No body and no collider comes or goes.
    pub fn set_angvel(&mut self, handle: BodyHandle, angvel: Real, wake_up: bool) -> (found: bool)
        ensures
            found == old(self).bodies().contains(handle),
            Self::unchanged(*old(self), *final(self)),
    {
        self.write_angvel(handle, angvel, wake_up)
    }

    /// Puts a body at a place, and says whether the body is alive. No
    /// body and no collider comes or goes.
    pub fn set_translation(
        &mut self,
        handle: BodyHandle,
        translation: Vector<Real>,
        wake_up: bool,
    ) -> (found: bool)
        ensures
            found == old(self).bodies().contains(handle),
            Self::unchanged(*old(self), *final(self)),
    {
        self.write_translation(handle, translation, wake_up)
    }

    /// Turns a body to an angle, in radians, and says whether the body is
    /// alive. No body and no collider comes or goes.
    pub fn set_rotation(&mut self, handle: BodyHandle, angle: Real, wake_up: bool) -> (found: bool)
        ensures
            found == old(self).bodies().contains(handle),
            Self::unchanged(*old(self), *final(self)),
    {
        self.write_rotation(handle, angle, wake_up)
    }

    /// How many bodies are alive.
    pub fn body_count(&self) -> (count: usize)
        ensures
            count == self.bodies().len(),
            self.bodies().finite(),
    {
        let handles = self.body_handles();
        proof {
            handles@.unique_seq_to_set();
        }
        handles.len()
    }

    /// How many colliders are alive.
    pub fn collider_count(&self) -> (count: usize)
        ensures
            count == self.colliders().dom().len(),
            self.colliders().dom().finite(),
    {
        let handles = self.collider_handles();
        proof {
            handles@.unique_seq_to_set();
        }
        handles.len()
    }

    /// Adds a body. The handle given was not alive before; the colliders
    /// are not touched, and records that were in step stay so.
    pub fn add_body(&mut self, body: RigidBody) -> (handle: BodyHandle)
        ensures
            !old(self).bodies().contains(handle),
            final(self).bodies() == old(self).bodies().insert(handle),
            final(self).colliders() == old(self).colliders(),
            final(self).tested() == old(self).tested(),
            old(self).agrees() ==> final(self).agrees(),
    {
        let handle = self.insert_body(body);
        proof {
            if old(self).agrees() {
                assert(self.listed()[handle] == Self::no_list());
                assert(Self::no_list().len() == 0);
                assert forall|b: BodyHandle| #[trigger]
                    self.bodies().contains(b) implies self.listed()[b].no_duplicates() by {
                    if b != handle {
                        assert(old(self).bodies().contains(b));
                        assert(self.listed()[b] == old(self).listed()[b]);
                    }
                }
                assert forall|b: BodyHandle, c: ColliderHandle|
                    self.bodies().contains(b) && #[trigger] self.listed()[b].contains(
                        c,
                    ) implies self.colliders().contains_key(c) && self.colliders()[c] == Some(
                    b,
                ) by {
                    if b != handle {
                        assert(self.listed()[b] == old(self).listed()[b]);
                        assert(old(self).listed()[b].contains(c));
                    }
                }
                assert forall|c: ColliderHandle| #[trigger]
                    self.colliders().contains_key(c) && self.colliders()[c]
                        is Some implies self.bodies().contains(self.colliders()[c]->0)
                    && self.listed()[self.colliders()[c]->0].contains(c) by {
                    assert(old(self).colliders().contains_key(c));
                    let b = old(self).colliders()[c]->0;
                    assert(old(self).bodies().contains(b));
                    assert(self.listed()[b] == old(self).listed()[b]);
                }
            }
        }
        handle
    }

    /// Attaches a collider to a live body. The handle given was not alive
    /// before; the bodies are not touched, and records that were in step
    /// stay so.
    pub fn add_collider(&mut self, collider: Collider, parent: BodyHandle) -> (handle:
        ColliderHandle)
        requires
            old(self).bodies().contains(parent),
        ensures
            !old(self).colliders().contains_key(handle),
            final(self).colliders() == old(self).colliders().insert(handle, Some(parent)),
            final(self).bodies() == old(self).bodies(),
            final(self).tested() == old(self).tested(),
            old(self).agrees() ==> final(self).agrees(),
    {
        let handle = self.insert_collider(collider, parent);
        proof {
            if old(self).agrees() {
                let list = old(self).listed()[parent];
                lemma_pushed(list, handle);
                assert(!list.contains(handle));
                assert forall|c: ColliderHandle| #[trigger]
                    self.colliders().contains_key(c) && self.colliders()[c]
                        is Some implies self.bodies().contains(self.colliders()[c]->0)
                    && self.listed()[self.colliders()[c]->0].contains(c) by {
                    if c != handle {
                        assert(old(self).colliders().contains_key(c));
                    }
                }
                assert forall|b: BodyHandle, c: ColliderHandle|
                    self.bodies().contains(b) && #[trigger] self.listed()[b].contains(
                        c,
                    ) implies self.colliders().contains_key(c) && self.colliders()[c] == Some(
                    b,
                ) by {
                    if b != parent {
                        assert(old(self).listed()[b].contains(c));
                    } else if c != handle {
                        assert(list.contains(c));
                    }
                }
                assert forall|b: BodyHandle| #[trigger]
                    self.bodies().contains(b) implies self.listed()[b].no_duplicates() by {
                    assert(old(self).bodies().contains(b));
                }
            }
        }
        handle
    }

    /// Removes a body together with the colliders attached to it; for a
    /// handle that is not alive nothing changes. The records stay in step.
    pub fn remove_body(&mut self, handle: BodyHandle)
        requires
            old(self).agrees(),
        ensures
            final(self).agrees(),
            final(self).bodies() == old(self).bodies().remove(handle),
            old(self).bodies().contains(handle) ==> final(self).colliders()
                == Self::colliders_without_body(old(self).colliders(), handle),
            !old(self).bodies().contains(handle) ==> final(self).colliders() == old(
                self,
            ).colliders(),
            final(self).tested() == old(self).tested(),
    {
        let ghost before = *self;
        let ghost alive = self.bodies().contains(handle);
        self.take_body(handle);
        proof {
            if alive {
                let gone = before.listed()[handle];
                assert forall|c: ColliderHandle| before.colliders().contains_key(c) implies (
                #[trigger] gone.contains(c) <==> before.colliders()[c] == Some(handle)) by {}
                assert(self.colliders() =~= Self::colliders_without_body(
                    before.colliders(),
                    handle,
                ));
                assert forall|c: ColliderHandle| #[trigger]
                    self.colliders().contains_key(c) && self.colliders()[c]
                        is Some implies self.bodies().contains(self.colliders()[c]->0)
                    && self.listed()[self.colliders()[c]->0].contains(c) by {
                    assert(before.colliders().contains_key(c));
                    let b = before.colliders()[c]->0;
                    assert(self.listed()[b] == before.listed()[b]);
                }
                assert forall|b: BodyHandle| #[trigger]
                    self.bodies().contains(b) implies self.listed()[b].no_duplicates() by {
                    assert(before.bodies().contains(b));
                    assert(self.listed()[b] == before.listed()[b]);
                }
                assert forall|b: BodyHandle, c: ColliderHandle|
                    self.bodies().contains(b) && #[trigger] self.listed()[b].contains(
                        c,
                    ) implies self.colliders().contains_key(c) && self.colliders()[c] == Some(
                    b,
                ) by {
                    assert(self.listed()[b] == before.listed()[b]);
                    assert(before.listed()[b].contains(c));
                }
            } else {
                assert(self.bodies() =~= before.bodies());
            }
        }
    }

    /// Removes one collider and leaves its body in place; for a handle
    /// that is not alive nothing changes. Records that were in step stay
    /// so.
    pub fn remove_collider(&mut self, handle: ColliderHandle)
        ensures
            final(self).colliders() == old(self).colliders().remove(handle),
            final(self).bodies() == old(self).bodies(),
            final(self).tested() == old(self).tested(),
            old(self).agrees() ==> final(self).agrees(),
    {
        let ghost before = *self;
        self.take_collider(handle);
        proof {
            if before.agrees() {
                let at = before.live_parent(handle);
                assert forall|c: ColliderHandle| #[trigger]
                    self.colliders().contains_key(c) && self.colliders()[c]
                        is Some implies self.bodies().contains(self.colliders()[c]->0)
                    && self.listed()[self.colliders()[c]->0].contains(c) by {
                    assert(before.colliders().contains_key(c));
                    let b = before.colliders()[c]->0;
                    assert(before.listed()[b].contains(c));
                    if at == Some(b) {
                        assert(self.listed()[b].contains(c) == before.listed()[b].contains(c));
                    } else if at is Some {
                        assert(self.listed()[b] == before.listed()[b]);
                    }
                }
                assert forall|b: BodyHandle| #[trigger]
                    self.bodies().contains(b) implies self.listed()[b].no_duplicates() by {
                    assert(before.bodies().contains(b));
                    if at is Some && at != Some(b) {
                        assert(self.listed()[b] == before.listed()[b]);
                    }
                }
                assert forall|b: BodyHandle, c: ColliderHandle|
                    self.bodies().contains(b) && #[trigger] self.listed()[b].contains(
                        c,
                    ) implies self.colliders().contains_key(c) && self.colliders()[c] == Some(
                    b,
                ) by {
                    assert(before.bodies().contains(b));
                    if at == Some(b) {
                        if c != handle {
                            assert(self.listed()[b].contains(c) == before.listed()[b].contains(c));
                        }
                    } else {
                        if at is Some {
                            assert(self.listed()[b] == before.listed()[b]);
                        }
                        assert(before.listed()[b].contains(c));
                    }
                }
            }
        }
    }

    /// Whether collider `c`, if it names a body, names a live one and
    /// stands on that body's list.
    pub open spec fn is_listed(&self, c: ColliderHandle) -> bool {
        self.colliders().contains_key(c) && self.colliders()[c] is Some ==> self.bodies().contains(
            self.colliders()[c]->0,
        ) && self.listed()[self.colliders()[c]->0].contains(c)
    }

    /// Whether the list of body `b` holds no collider twice and only live
    /// colliders that name `b`.
    pub open spec fn lists_well(&self, b: BodyHandle) -> bool {
        &&& self.listed()[b].no_duplicates()
        &&& forall|c: ColliderHandle| #[trigger]
            self.listed()[b].contains(c) ==> self.colliders().contains_key(c)
                && self.colliders()[c] == Some(b)
    }

    /// Says whether the collider stands where `is_listed` asks.
    fn check_listed(&self, c: ColliderHandle) -> (ok: bool)
        ensures
            ok == self.is_listed(c),
    {
        match self.collider_parent(c) {
            Some(Some(parent)) => match self.listed_colliders(parent) {
                Some(list) => holds(&list, c),
                None => false,
            },
            _ => true,
        }
    }

    /// Says whether the list of a live body is as `lists_well` asks.
    fn check_list(&self, b: BodyHandle) -> (ok: bool)
        requires
            self.bodies().contains(b),
        ensures
            ok == self.lists_well(b),
    {
        match self.listed_colliders(b) {
            Some(list) => {
                if !is_distinct(&list) {
                    return false;
                }
                let mut k: usize = 0;
                while k < list.len()
                    invariant
                        k <= list@.len(),
                        list@ == self.listed()[b],
                        forall|m: int|
                            0 <= m < k ==> self.colliders().contains_key(#[trigger] list@[m])
                                && self.colliders()[list@[m]] == Some(b),
                    decreases list@.len() - k,
                {
                    if !self.is_attached(list[k], b) {
                        proof {
                            assert(list@.contains(list@[k as int]));
                        }
                        return false;
                    }
                    k += 1;
                }
                true
            },
            None => false,
        }
    }

    /// Says whether the two records of the engine are in step.
    pub fn is_consistent(&self) -> (ok: bool)
        ensures
            ok == self.agrees(),
    {
        let colliders = self.collider_handles();
        let mut i: usize = 0;
        while i < colliders.len()
            invariant
                i <= colliders@.len(),
                colliders@.to_set() == self.colliders().dom(),
                forall|k: int| 0 <= k < i ==> self.is_listed(#[trigger] colliders@[k]),
            decreases colliders@.len() - i,
        {
            if !self.check_listed(colliders[i]) {
                proof {
                    let c = colliders@[i as int];
                    assert(self.colliders().contains_key(c));
                }
                return false;
            }
            i += 1;
        }
        let bodies = self.body_handles();
        let mut j: usize = 0;
        while j < bodies.len()
            invariant
                j <= bodies@.len(),
                bodies@.to_set() == self.bodies(),
                forall|k: int| 0 <= k < j ==> self.lists_well(#[trigger] bodies@[k]),
            decreases bodies@.len() - j,
        {
            let b = bodies[j];
            proof {
                assert(bodies@.contains(bodies@[j as int]));
                assert(bodies@.to_set().contains(b));
            }
            if !self.check_list(b) {
                proof {
                    if self.listed()[b].no_duplicates() {
                        let c = choose|c: ColliderHandle| #[trigger]
                            self.listed()[b].contains(c) && !(self.colliders().contains_key(c)
                                && self.colliders()[c] == Some(b));
                        assert(self.listed()[b].contains(c));
                    }
                }
                return false;
            }
            j += 1;
        }
        proof {
            assert forall|c: ColliderHandle| #[trigger]
                self.colliders().contains_key(c) && self.colliders()[c]
                    is Some implies self.bodies().contains(self.colliders()[c]->0)
                && self.listed()[self.colliders()[c]->0].contains(c) by {
                assert(colliders@.to_set().contains(c));
                let k = choose|k: int| 0 <= k < colliders@.len() && colliders@[k] == c;
                assert(self.is_listed(colliders@[k]));
            }
            assert forall|b: BodyHandle| #[trigger] self.bodies().contains(b) implies self.lists_well(
                b,
            ) by {
                assert(bodies@.to_set().contains(b));
                let k = choose|k: int| 0 <= k < bodies@.len() && bodies@[k] == b;
                assert(self.lists_well(bodies@[k]));
            }
        }
        true
    }

    /// Removes a body together with the colliders attached to it if the
    /// engine's records are in step, and says whether they were; a world
    /// whose records are out of step is left as it is.
    pub fn try_remove_body(&mut self, handle: BodyHandle) -> (done: bool)
        ensures
            done == old(self).agrees(),
            !done ==> *final(self) == *old(self),
            done ==> final(self).agrees(),
            done ==> final(self).bodies() == old(self).bodies().remove(handle),
            done && old(self).bodies().contains(handle) ==> final(self).colliders()
                == Self::colliders_without_body(old(self).colliders(), handle),
            done && !old(self).bodies().contains(handle) ==> final(self).colliders() == old(
                self,
            ).colliders(),
            final(self).tested() == old(self).tested(),
    {
        if self.is_consistent() {
            self.remove_body(handle);
            true
        } else {
            false
        }
    }

    /// Whether `handle` is a live body.
    pub fn contains_body(&self, handle: BodyHandle) -> (alive: bool)
        ensures
            alive == self.bodies().contains(handle),
    {
        self.get_body(handle).is_some()
    }

    /// Whether collider `collider` is alive and attached to body `body`.
    pub fn is_attached(&self, collider: ColliderHandle, body: BodyHandle) -> (yes: bool)
        ensures
            yes == (self.colliders().contains_key(collider) && self.colliders()[collider] == Some(
                body,
            )),
    {
        match self.collider_parent(collider) {
            Some(Some(parent)) => parent == body,
            _ => false,
        }
    }

    /// Whether `handle` is a live collider.
    pub fn contains_collider(&self, handle: ColliderHandle) -> (alive: bool)
        ensures
            alive == self.colliders().contains_key(handle),
    {
        self.get_collider(handle).is_some()
    }

    /// Adds a body and attaches a first collider to it.
    pub fn add_body_and_collider(&mut self, body: RigidBody, collider: Collider) -> (handles: (
        BodyHandle,
        ColliderHandle,
    ))
        ensures
            !old(self).bodies().contains(handles.0),
            !old(self).colliders().contains_key(handles.1),
            final(self).bodies() == old(self).bodies().insert(handles.0),
            final(self).colliders() == old(self).colliders().insert(handles.1, Some(handles.0)),
            final(self).tested() == old(self).tested(),
            old(self).agrees() ==> final(self).agrees(),
    {
        let body_handle = self.add_body(body);
        let collider_handle = self.add_collider(collider, body_handle);
        (body_handle, collider_handle)
    }

    /// Attaches a collider to `parent` if that body is alive; hands the
    /// collider back otherwise.
    pub fn try_add_collider(&mut self, collider: Collider, parent: BodyHandle) -> (added: Result<
        ColliderHandle,
        Collider,
    >)
        ensures
            old(self).bodies().contains(parent) <==> added is Ok,
            added matches Ok(handle) ==> {
                &&& !old(self).colliders().contains_key(handle)
                &&& final(self).colliders() == old(self).colliders().insert(handle, Some(parent))
            },
            added matches Err(returned) ==> {
                &&& returned == collider
                &&& final(self).colliders() == old(self).colliders()
            },
            final(self).bodies() == old(self).bodies(),
            final(self).tested() == old(self).tested(),
            old(self).agrees() ==> final(self).agrees(),
    {
        if self.contains_body(parent) {
            Ok(self.add_collider(collider, parent))
        } else {
            Err(collider)
        }
    }

    /// Whether the two colliders were found intersecting by the latest
    /// simulation step. At least one of them has to be a sensor for the
    /// narrow phase to track the pair this way.
    pub fn collider_intersecting(&self, a: ColliderHandle, b: ColliderHandle) -> (hit: bool)
        ensures
            hit == self.intersecting(a, b),
    {
        match self.intersection_pair(a, b) {
            Some(hit) => hit,
            None => false,
        }
    }
}

/// Says whether the list holds the handle.
fn holds(list: &Vec<ColliderHandle>, handle: ColliderHandle) -> (found: bool)
    ensures
        found == list@.contains(handle),
{
    let mut i: usize = 0;
    while i < list.len()
        invariant
            i <= list@.len(),
            forall|k: int| 0 <= k < i ==> list@[k] != handle,
        decreases list@.len() - i,
    {
        if list[i] == handle {
            return true;
        }
        i += 1;
    }
    false
}

/// Says whether no handle stands twice in the list.
fn is_distinct(list: &Vec<ColliderHandle>) -> (ok: bool)
    ensures
        ok == list@.no_duplicates(),
{
    let mut i: usize = 0;
    while i < list.len()
        invariant
            i <= list@.len(),
            forall|a: int, b: int| 0 <= a < b < i ==> list@[a] != list@[b],
        decreases list@.len() - i,
    {
        let mut j: usize = 0;
        while j < i
            invariant
                j <= i < list@.len(),
                forall|a: int| 0 <= a < j ==> list@[a] != list@[i as int],
            decreases i - j,
        {
            if list[j] == list[i] {
                return false;
            }
            j += 1;
        }
        i += 1;
    }
    true
}

/// What a list holds once a collider has been put at its end.
pub proof fn lemma_pushed(list: Seq<ColliderHandle>, handle: ColliderHandle)
    ensures
        forall|c: ColliderHandle| #[trigger]
            list.push(handle).contains(c) <==> list.contains(c) || c == handle,
        list.no_duplicates() && !list.contains(handle) ==> list.push(handle).no_duplicates(),
{
    let longer = list.push(handle);
    assert forall|c: ColliderHandle| #[trigger] longer.contains(c) implies list.contains(c) || c
        == handle by {
        let i = choose|i: int| 0 <= i < longer.len() && longer[i] == c;
        if i < list.len() {
            assert(list[i] == c);
        }
    }
    assert forall|c: ColliderHandle| list.contains(c) || c == handle implies #[trigger]
        longer.contains(c) by {
        if list.contains(c) {
            let i = choose|i: int| 0 <= i < list.len() && list[i] == c;
            assert(longer[i] == c);
        } else {
            assert(longer[list.len() as int] == c);
        }
    }
}

} // verus!

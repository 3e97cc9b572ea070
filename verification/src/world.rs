//! The world: the player, the entities of the loaded levels, the camera,
//! the physics world and the map of loaded levels, and what has to hold
//! between them.

use crate::entity::{Entity, EntityId};
use crate::geometry::Vec2;
use crate::level::{LevelId, LevelMap};
use crate::physics_world::{BodyHandle, ColliderHandle, PhysicsWorld};
use crate::player::{attached, Body, Player, RollyParts};
use rapier2d::math::{Real, Vector};
use vstd::prelude::*;

verus! {

/// Where the camera looks when the world is new.
pub const CAMERA_START_Y: i64 = 3_000_000;

/// The camera: the point it looks at and its zoom along both axes, in
/// millionths.
#[derive(Debug, Clone, Copy, PartialEq, Eq, Structural)]
pub struct Camera {
    pub target: Vec2,
    pub zoom: Vec2,
}

/// The world of a running game.
pub struct World {
    pub player: Player,
    pub entities: Vec<Entity>,
    pub camera: Camera,
    pub physics_world: PhysicsWorld,
    pub levels: LevelMap,
    /// The number that the next entity is named by.
    pub next_entity: u64,
}

/// The entity holds no handle of the player's: not its body, and no
/// collider of its.
pub open spec fn apart_from_player(entity: Entity, player: Body) -> bool {
    &&& entity.body matches Some(body) ==> body != player.body_handle()
    &&& entity.lazy matches Some(lazy) ==> lazy.body_handle != player.body_handle()
    &&& entity.collider matches Some(collider) ==> !player.owns_collider(collider)
}

/// Every handle that the entity holds is alive: its body, the body of its
/// lazy collider, and its collider, which hangs on the entity's anchor.
pub open spec fn alive_in(entity: Entity, physics_world: &PhysicsWorld) -> bool {
    &&& entity.body matches Some(body) ==> physics_world.bodies().contains(body)
    &&& entity.lazy matches Some(lazy) ==> physics_world.bodies().contains(lazy.body_handle)
    &&& entity.collider matches Some(collider) ==> (entity.anchor() matches Some(anchor)
        && attached(physics_world, collider, anchor))
}

/// Whether two entities hold the handle of one and the same body.
pub open spec fn share_a_body(a: Entity, b: Entity) -> bool {
    ||| (a.body matches Some(body) && b.refers_to(body))
    ||| (a.lazy matches Some(lazy) && b.refers_to(lazy.body_handle))
}

/// Entities that hold the handle of one body belong to one level: a body
/// goes with its level, and nothing of another level hangs on it.
pub open spec fn levels_own_bodies(entities: Seq<Entity>) -> bool {
    forall|i: int, j: int|
        0 <= i < entities.len() && 0 <= j < entities.len() && share_a_body(
            #[trigger] entities[i],
            #[trigger] entities[j],
        ) ==> entities[i].level == entities[j].level
}

/// No two entities hold the same live collider.
pub open spec fn colliders_distinct(entities: Seq<Entity>) -> bool {
    forall|i: int, j: int|
        0 <= i < j < entities.len() && (#[trigger] entities[i]).collider is Some
            ==> entities[i].collider != (#[trigger] entities[j]).collider
}

/// The entities of `entities` that do not belong to `level`, in order.
pub open spec fn without_level(entities: Seq<Entity>, level: LevelId) -> Seq<Entity>
    decreases entities.len(),
{
    if entities.len() == 0 {
        seq![]
    } else if entities.last().level == Some(level) {
        without_level(entities.drop_last(), level)
    } else {
        without_level(entities.drop_last(), level).push(entities.last())
    }
}

/// The entities of `entities` that belong to no level, in order.
pub open spec fn without_levels(entities: Seq<Entity>) -> Seq<Entity>
    decreases entities.len(),
{
    if entities.len() == 0 {
        seq![]
    } else if entities.last().level is Some {
        without_levels(entities.drop_last())
    } else {
        without_levels(entities.drop_last()).push(entities.last())
    }
}

/// Taking one level away takes nothing from the entities that belong to
/// no level.
pub proof fn lemma_without_levels_after(entities: Seq<Entity>, level: LevelId)
    ensures
        without_levels(without_level(entities, level)) == without_levels(entities),
    decreases entities.len(),
{
    if entities.len() > 0 {
        let front = entities.drop_last();
        lemma_without_levels_after(front, level);
        if entities.last().level != Some(level) {
            let kept = without_level(front, level).push(entities.last());
            assert(kept.drop_last() == without_level(front, level));
            assert(kept.last() == entities.last());
        }
    }
}

/// Where no entity belongs to a level, none is taken away.
pub proof fn lemma_without_levels_all(entities: Seq<Entity>)
    requires
        forall|i: int| 0 <= i < entities.len() ==> (#[trigger] entities[i]).level is None,
    ensures
        without_levels(entities) == entities,
    decreases entities.len(),
{
    if entities.len() > 0 {
        let front = entities.drop_last();
        assert forall|i: int| 0 <= i < front.len() implies (#[trigger] front[i]).level is None by {
            assert(front[i] == entities[i]);
        }
        lemma_without_levels_all(front);
        assert(entities[entities.len() - 1].level is None);
        assert(front.push(entities.last()) == entities);
    }
}

/// The bodies that the entities of `level` brought into the world.
pub open spec fn bodies_of_level(entities: Seq<Entity>, level: LevelId) -> Set<BodyHandle>
    decreases entities.len(),
{
    if entities.len() == 0 {
        Set::empty()
    } else {
        let before = bodies_of_level(entities.drop_last(), level);
        match entities.last().body {
            Some(body) => if entities.last().level == Some(level) {
                before.insert(body)
            } else {
                before
            },
            None => before,
        }
    }
}

/// The colliders that are left when the bodies `gone` go: all but those
/// attached to one of them.
pub open spec fn colliders_without_bodies(
    colliders: Map<ColliderHandle, Option<BodyHandle>>,
    gone: Set<BodyHandle>,
) -> Map<ColliderHandle, Option<BodyHandle>> {
    colliders.remove_keys(
        Set::new(
            |c: ColliderHandle|
                colliders.contains_key(c) && (colliders[c] matches Some(parent) && gone.contains(
                    parent,
                )),
        ),
    )
}

/// A body is among `bodies_of_level` exactly if an entity of the level
/// holds it as its body.
pub proof fn lemma_bodies_of_level(entities: Seq<Entity>, level: LevelId, body: BodyHandle)
    ensures
        bodies_of_level(entities, level).contains(body) <==> exists|i: int|
            0 <= i < entities.len() && (#[trigger] entities[i]).level == Some(level)
                && entities[i].body == Some(body),
    decreases entities.len(),
{
    if entities.len() > 0 {
        let front = entities.drop_last();
        lemma_bodies_of_level(front, level, body);
        if bodies_of_level(entities, level).contains(body) {
            if bodies_of_level(front, level).contains(body) {
                let i = choose|i: int|
                    0 <= i < front.len() && (#[trigger] front[i]).level == Some(level) && front[i].body
                        == Some(body);
                assert(entities[i].level == Some(level) && entities[i].body == Some(body));
            } else {
                let i = entities.len() - 1;
                assert(entities[i].level == Some(level) && entities[i].body == Some(body));
            }
        }
        if exists|i: int|
            0 <= i < entities.len() && (#[trigger] entities[i]).level == Some(level)
                && entities[i].body == Some(body) {
            let i = choose|i: int|
                0 <= i < entities.len() && (#[trigger] entities[i]).level == Some(level)
                    && entities[i].body == Some(body);
            if i < front.len() {
                assert(front[i].level == Some(level) && front[i].body == Some(body));
            }
        }
    }
}

/// Every entity that is left by `without_level` was there before, at no
/// earlier a place, and belongs to another level.
pub proof fn lemma_without_level_member(entities: Seq<Entity>, level: LevelId, i: int) -> (j: int)
    requires
        0 <= i < without_level(entities, level).len(),
    ensures
        i <= j < entities.len(),
        entities[j] == without_level(entities, level)[i],
        entities[j].level != Some(level),
        without_level(entities, level).len() <= entities.len(),
    decreases entities.len(),
{
    let front = entities.drop_last();
    if entities.last().level == Some(level) {
        lemma_without_level_member(front, level, i)
    } else if i < without_level(front, level).len() {
        lemma_without_level_member(front, level, i)
    } else {
        lemma_without_level_len(front, level);
        entities.len() - 1
    }
}

/// `without_level` leaves no more entities than there were.
pub proof fn lemma_without_level_len(entities: Seq<Entity>, level: LevelId)
    ensures
        without_level(entities, level).len() <= entities.len(),
    decreases entities.len(),
{
    if entities.len() > 0 {
        lemma_without_level_len(entities.drop_last(), level);
    }
}

/// Two entities that are left by `without_level` were there before, in the
/// same order.
pub proof fn lemma_without_level_pair(
    entities: Seq<Entity>,
    level: LevelId,
    i1: int,
    i2: int,
) -> (j: (int, int))
    requires
        0 <= i1 < i2 < without_level(entities, level).len(),
    ensures
        0 <= j.0 < j.1 < entities.len(),
        entities[j.0] == without_level(entities, level)[i1],
        entities[j.1] == without_level(entities, level)[i2],
    decreases entities.len(),
{
    let front = entities.drop_last();
    if entities.last().level == Some(level) {
        lemma_without_level_pair(front, level, i1, i2)
    } else if i2 < without_level(front, level).len() {
        lemma_without_level_pair(front, level, i1, i2)
    } else {
        let j1 = lemma_without_level_member(front, level, i1);
        (j1, entities.len() - 1)
    }
}

/// An entity of another level is left by `without_level`.
pub proof fn lemma_without_level_keeps(entities: Seq<Entity>, level: LevelId, j: int) -> (i: int)
    requires
        0 <= j < entities.len(),
        entities[j].level != Some(level),
    ensures
        0 <= i < without_level(entities, level).len(),
        without_level(entities, level)[i] == entities[j],
    decreases entities.len(),
{
    let front = entities.drop_last();
    if j == entities.len() - 1 {
        without_level(front, level).len() as int
    } else {
        lemma_without_level_keeps(front, level, j)
    }
}

impl World {
    /// What holds of a world between any two steps.
    ///
    /// The player's body is alive with its colliders on it. Every handle
    /// that an entity holds is alive and is none of the player's. Every
    /// entity with a level belongs to a loaded level. Entities that hold
    /// the handle of one body belong to one level, and no two entities
    /// hold the same collider. The physics engine's two records of which
    /// collider hangs on which body are in step.
    pub open spec fn wf(&self) -> bool {
        &&& self.levels.wf()
        &&& self.physics_world.agrees()
        &&& self.player.body.live_in(&self.physics_world)
        &&& forall|i: int|
            0 <= i < self.entities@.len() ==> self.admits(#[trigger] self.entities@[i])
        &&& levels_own_bodies(self.entities@)
        &&& colliders_distinct(self.entities@)
    }

    /// What holds of one entity of the world by itself.
    pub open spec fn admits(&self, entity: Entity) -> bool {
        &&& apart_from_player(entity, self.player.body)
        &&& alive_in(entity, &self.physics_world)
        &&& entity.level matches Some(level) ==> self.levels.contains(level)
    }

    /// Whether `entity` can join the world: it is in order by itself, it
    /// shares a body only with entities of its own level, and its collider
    /// is no other entity's.
    pub open spec fn can_take(&self, entity: Entity) -> bool {
        &&& self.admits(entity)
        &&& forall|i: int|
            0 <= i < self.entities@.len() && (share_a_body(#[trigger] self.entities@[i], entity)
                || share_a_body(entity, self.entities@[i])) ==> self.entities@[i].level
                == entity.level
        &&& forall|i: int|
            0 <= i < self.entities@.len() && (#[trigger] self.entities@[i]).collider is Some
                ==> self.entities@[i].collider != entity.collider
    }

    /// A world with nothing in it but the player, who is made from
    /// `parts`, under `gravity`.
    pub fn new(gravity: Vector<Real>, parts: RollyParts) -> (world: Self)
        ensures
            world.wf(),
            world.entities@.len() == 0,
            world.levels.order().len() == 0,
            world.camera.target == (Vec2 { x: 0, y: CAMERA_START_Y }),
            world.camera.zoom == (Vec2 { x: crate::fixed::ONE, y: crate::fixed::ONE }),
            world.next_entity == 0,
            world.player.is_fresh(),
            world.player.life_state == crate::life_state::LifeState::Dead(
                crate::frame::Transition::End,
            ),
            world.player.respawn == LevelId(0),
            world.physics_world.bodies() == Set::<BodyHandle>::empty().insert(
                world.player.body.body_handle(),
            ),
            world.physics_world.colliders() == Map::<
                ColliderHandle,
                Option<BodyHandle>,
            >::empty().insert(
                world.player.body.collider_handle(),
                Some(world.player.body.body_handle()),
            ),
    {
        let mut physics_world = PhysicsWorld::new(gravity);
        let player = Player::spawn(&mut physics_world, parts);
        World {
            player,
            entities: Vec::new(),
            camera: Camera {
                target: Vec2 { x: 0, y: CAMERA_START_Y },
                zoom: Vec2 { x: crate::fixed::ONE, y: crate::fixed::ONE },
            },
            physics_world,
            levels: LevelMap::new(),
            next_entity: 0,
        }
    }

    /// Takes an entity into the world and names it. The names count up
    /// and stop counting at the largest number.
    pub fn spawn(&mut self, entity: Entity) -> (id: EntityId)
        requires
            old(self).wf(),
            old(self).can_take(entity),
        ensures
            final(self).wf(),
            id == EntityId(old(self).next_entity),
            final(self).entities@ == old(self).entities@.push(Entity { id, ..entity }),
            final(self).next_entity == if old(self).next_entity == u64::MAX {
                u64::MAX
            } else {
                (old(self).next_entity + 1) as u64
            },
            final(self).player == old(self).player,
            final(self).camera == old(self).camera,
            final(self).physics_world == old(self).physics_world,
            final(self).levels == old(self).levels,
    {
        let id = EntityId(self.next_entity);
        let mut entity = entity;
        entity.id = id;
        if self.next_entity < u64::MAX {
            self.next_entity = self.next_entity + 1;
        }
        self.entities.push(entity);
        proof {
            let before = old(self).entities@;
            let after = self.entities@;
            assert forall|i: int| 0 <= i < after.len() implies self.admits(#[trigger] after[i]) by {
                if i < before.len() {
                    assert(after[i] == before[i]);
                    assert(old(self).admits(before[i]));
                }
            }
            assert forall|i: int, j: int|
                0 <= i < after.len() && 0 <= j < after.len() && share_a_body(
                    #[trigger] after[i],
                    #[trigger] after[j],
                ) implies after[i].level == after[j].level by {
                if i < before.len() && j < before.len() {
                    assert(after[i] == before[i] && after[j] == before[j]);
                } else if i < before.len() {
                    assert(after[i] == before[i]);
                } else if j < before.len() {
                    assert(after[j] == before[j]);
                }
            }
            assert forall|i: int, j: int|
                0 <= i < j < after.len() && (#[trigger] after[i]).collider is Some implies after[i].collider
                != (#[trigger] after[j]).collider by {
                assert(after[i] == before[i]);
                if j < before.len() {
                    assert(after[j] == before[j]);
                }
            }
        }
        id
    }
}

/// Says whether the entity holds the handle of body `body`.
fn entity_refers_to(entity: &Entity, body: BodyHandle) -> (refers: bool)
    ensures
        refers == entity.refers_to(body),
{
    let own = match entity.body {
        Some(own) => own == body,
        None => false,
    };
    let lazy = match &entity.lazy {
        Some(lazy) => lazy.body_handle == body,
        None => false,
    };
    own || lazy
}

/// Says whether two entities hold the handle of one and the same body.
fn entities_share_a_body(a: &Entity, b: &Entity) -> (share: bool)
    ensures
        share == share_a_body(*a, *b),
{
    let by_body = match a.body {
        Some(body) => entity_refers_to(b, body),
        None => false,
    };
    let by_lazy = match &a.lazy {
        Some(lazy) => entity_refers_to(b, lazy.body_handle),
        None => false,
    };
    by_body || by_lazy
}

/// Says whether two entities belong to the same level, or both to none.
fn same_level(a: &Entity, b: &Entity) -> (same: bool)
    ensures
        same == (a.level == b.level),
{
    match (a.level, b.level) {
        (Some(x), Some(y)) => x.0 == y.0,
        (None, None) => true,
        _ => false,
    }
}

/// Says whether two entities hold the same live collider.
fn same_collider(a: &Entity, b: &Entity) -> (same: bool)
    ensures
        same == (a.collider is Some && a.collider == b.collider),
{
    match (a.collider, b.collider) {
        (Some(x), Some(y)) => x == y,
        _ => false,
    }
}

impl World {
    /// Says whether `entity` is in order by itself.
    fn check_admits(&self, entity: &Entity) -> (ok: bool)
        ensures
            ok == self.admits(*entity),
    {
        let body_ok = match entity.body {
            Some(body) => body != self.player.body.any_body_handle()
                && self.physics_world.contains_body(body),
            None => true,
        };
        let lazy_ok = match &entity.lazy {
            Some(lazy) => lazy.body_handle != self.player.body.any_body_handle()
                && self.physics_world.contains_body(lazy.body_handle),
            None => true,
        };
        let anchor = match &entity.lazy {
            Some(lazy) => Some(lazy.body_handle),
            None => entity.body,
        };
        let collider_ok = match entity.collider {
            Some(collider) => !self.player.body.has_collider(collider) && match anchor {
                Some(anchor) => self.physics_world.is_attached(collider, anchor),
                None => false,
            },
            None => true,
        };
        let level_ok = match entity.level {
            Some(level) => self.levels.contains_key(level),
            None => true,
        };
        body_ok && lazy_ok && collider_ok && level_ok
    }

    /// Says whether `entity` can join the world.
    pub fn check_can_take(&self, entity: &Entity) -> (ok: bool)
        ensures
            ok == self.can_take(*entity),
    {
        if !self.check_admits(entity) {
            return false;
        }
        let mut i: usize = 0;
        while i < self.entities.len()
            invariant
                i <= self.entities@.len(),
                forall|k: int|
                    0 <= k < i && (share_a_body(#[trigger] self.entities@[k], *entity)
                        || share_a_body(*entity, self.entities@[k])) ==> self.entities@[k].level
                        == entity.level,
                forall|k: int|
                    0 <= k < i && (#[trigger] self.entities@[k]).collider is Some
                        ==> self.entities@[k].collider != entity.collider,
            decreases self.entities@.len() - i,
        {
            let other = &self.entities[i];
            if (entities_share_a_body(other, entity) || entities_share_a_body(entity, other))
                && !same_level(other, entity) {
                return false;
            }
            if same_collider(other, entity) {
                return false;
            }
            i += 1;
        }
        true
    }

    /// Takes an entity into the world if the world is well-formed and can
    /// take it, and hands it back otherwise.
    pub fn try_spawn(&mut self, entity: Entity) -> (taken: Result<EntityId, Entity>)
        ensures
            taken is Ok <==> old(self).wf() && old(self).can_take(entity),
            taken matches Ok(id) ==> {
                &&& final(self).wf()
                &&& id == EntityId(old(self).next_entity)
                &&& final(self).entities@ == old(self).entities@.push(Entity { id, ..entity })
                &&& final(self).player == old(self).player
                &&& final(self).camera == old(self).camera
                &&& final(self).physics_world == old(self).physics_world
                &&& final(self).levels == old(self).levels
            },
            taken matches Err(returned) ==> returned == entity && *final(self) == *old(self),
    {
        if self.is_well_formed() && self.check_can_take(&entity) {
            Ok(self.spawn(entity))
        } else {
            Err(entity)
        }
    }

    /// Says whether the world is well-formed. The answer takes time
    /// quadratic in the number of entities.
    pub fn is_well_formed(&self) -> (ok: bool)
        ensures
            ok == self.wf(),
    {
        if !self.levels.is_well_formed() || !self.physics_world.is_consistent()
            || !self.player.body.is_live_in(&self.physics_world) {
            return false;
        }
        let n = self.entities.len();
        let mut j: usize = 0;
        while j < n
            invariant
                n == self.entities@.len(),
                j <= n,
                forall|k: int| 0 <= k < j ==> self.admits(#[trigger] self.entities@[k]),
                forall|a: int, b: int|
                    0 <= a < j && 0 <= b < j && share_a_body(
                        #[trigger] self.entities@[a],
                        #[trigger] self.entities@[b],
                    ) ==> self.entities@[a].level == self.entities@[b].level,
                forall|a: int, b: int|
                    0 <= a < b < j && (#[trigger] self.entities@[a]).collider is Some
                        ==> self.entities@[a].collider != (#[trigger] self.entities@[b]).collider,
            decreases n - j,
        {
            if !self.check_admits(&self.entities[j]) {
                return false;
            }
            let mut i: usize = 0;
            while i < j
                invariant
                    n == self.entities@.len(),
                    i <= j,
                    j < n,
                    forall|a: int|
                        0 <= a < i && (share_a_body(
                            #[trigger] self.entities@[a],
                            self.entities@[j as int],
                        ) || share_a_body(self.entities@[j as int], self.entities@[a]))
                            ==> self.entities@[a].level == self.entities@[j as int].level,
                    forall|a: int|
                        0 <= a < i && (#[trigger] self.entities@[a]).collider is Some
                            ==> self.entities@[a].collider != self.entities@[j as int].collider,
                decreases j - i,
            {
                let a = &self.entities[i];
                let b = &self.entities[j];
                if (entities_share_a_body(a, b) || entities_share_a_body(b, a)) && !same_level(
                    a,
                    b,
                ) {
                    return false;
                }
                if same_collider(a, b) {
                    return false;
                }
                i += 1;
            }
            j += 1;
        }
        true
    }
}

} // verus!

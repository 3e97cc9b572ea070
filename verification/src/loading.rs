//! Loading and unloading levels: bringing the entities of a level into
//! the world, with their bodies and colliders, and taking them out of it.

use crate::entity::Entity;
use crate::floor::{floor_spawned, spawn_floor, FloorParts, Material};
use crate::geometry::Vec2;
use crate::level::{LevelId, Placement};
use crate::physics_world::{BodyHandle, PhysicsWorld};
use crate::thing::{is_named_thing, spawn_thing, ThingId, ThingInfo, ThingParts};
use crate::world::{
    bodies_of_level, colliders_without_bodies, lemma_bodies_of_level, lemma_without_level_member,
    lemma_without_level_pair, share_a_body, without_level, World,
};
use vstd::prelude::*;

verus! {

/// Whether the entity belongs to `level`.
fn is_of_level(entity: &Entity, level: LevelId) -> (of_level: bool)
    ensures
        of_level == (entity.level == Some(level)),
{
    match entity.level {
        Some(l) => l.0 == level.0,
        None => false,
    }
}

/// Removes from the physics world the bodies that the entities of `level`
/// brought, each with the colliders attached to it.
fn remove_bodies_of_level(physics_world: &mut PhysicsWorld, entities: &Vec<Entity>, level: LevelId)
    requires
        old(physics_world).agrees(),
        forall|i: int|
            0 <= i < entities@.len() ==> ((#[trigger] entities@[i]).body matches Some(body)
                ==> old(physics_world).bodies().contains(body)),
    ensures
        final(physics_world).agrees(),
        final(physics_world).bodies() == old(physics_world).bodies().difference(
            bodies_of_level(entities@, level),
        ),
        final(physics_world).colliders() == colliders_without_bodies(
            old(physics_world).colliders(),
            bodies_of_level(entities@, level),
        ),
        final(physics_world).tested() == old(physics_world).tested(),
{
    let ghost start_bodies = physics_world.bodies();
    let ghost start_colliders = physics_world.colliders();
    let mut k: usize = 0;
    proof {
        assert(entities@.take(0).len() == 0);
        assert(physics_world.bodies() =~= start_bodies.difference(
            bodies_of_level(entities@.take(0), level),
        ));
        assert(physics_world.colliders() =~= colliders_without_bodies(
            start_colliders,
            bodies_of_level(entities@.take(0), level),
        ));
    }
    while k < entities.len()
        invariant
            k <= entities@.len(),
            physics_world.agrees(),
            forall|i: int|
                0 <= i < entities@.len() ==> ((#[trigger] entities@[i]).body matches Some(body)
                    ==> start_bodies.contains(body)),
            physics_world.bodies() == start_bodies.difference(
                bodies_of_level(entities@.take(k as int), level),
            ),
            physics_world.colliders() == colliders_without_bodies(
                start_colliders,
                bodies_of_level(entities@.take(k as int), level),
            ),
            physics_world.tested() == old(physics_world).tested(),
        decreases entities@.len() - k,
    {
        let ghost gone = bodies_of_level(entities@.take(k as int), level);
        proof {
            assert(entities@.take(k + 1).drop_last() == entities@.take(k as int));
            assert(entities@.take(k + 1).last() == entities@[k as int]);
        }
        if is_of_level(&entities[k], level) {
            match entities[k].body {
                Some(body) => {
                    let ghost colliders_before = physics_world.colliders();
                    let ghost alive = physics_world.bodies().contains(body);
                    physics_world.remove_body(body);
                    proof {
                        assert(start_bodies.contains(body));
                        assert(physics_world.bodies() =~= start_bodies.difference(
                            gone.insert(body),
                        ));
                        if !alive {
                            assert(gone.contains(body));
                            assert(gone.insert(body) =~= gone);
                        } else {
                            assert(PhysicsWorld::colliders_without_body(colliders_before, body)
                                =~= colliders_without_bodies(start_colliders, gone.insert(body)));
                        }
                    }
                },
                None => {},
            }
        }
        k += 1;
    }
    proof {
        assert(entities@.take(entities@.len() as int) == entities@);
    }
}

/// Drops the entities of `level` from `entities` and keeps the others in
/// their order.
fn remove_entities_of_level(entities: &mut Vec<Entity>, level: LevelId)
    ensures
        final(entities)@ == without_level(old(entities)@, level),
{
    let ghost start = entities@;
    let ghost mut k: int = 0;
    let mut i: usize = 0;
    proof {
        assert(start.take(0).len() == 0);
        assert(start.skip(0) == start);
        assert(entities@ =~= without_level(start.take(0), level) + start.skip(0));
    }
    while i < entities.len()
        invariant
            0 <= k <= start.len(),
            i == without_level(start.take(k), level).len(),
            entities@ == without_level(start.take(k), level) + start.skip(k),
        decreases start.len() - k,
    {
        proof {
            assert(start.take(k + 1).drop_last() == start.take(k));
            assert(start.take(k + 1).last() == start[k]);
            assert(entities@[i as int] == start.skip(k)[0]);
        }
        let ghost kept = without_level(start.take(k), level);
        if is_of_level(&entities[i], level) {
            entities.remove(i);
            proof {
                assert(entities@ =~= kept + start.skip(k + 1));
            }
        } else {
            proof {
                assert(entities@ =~= kept.push(start[k]) + start.skip(k + 1));
            }
            i += 1;
        }
        proof {
            k = k + 1;
        }
    }
    proof {
        assert(start.take(start.len() as int) == start);
        assert(entities@ =~= without_level(start, level));
    }
}

/// Unloads a level: the level leaves the map of loaded levels, its
/// entities leave the world, and the bodies that they brought leave the
/// physics world with every collider attached to them. All else stays. For
/// a level that is not loaded this changes nothing.
pub fn unload_level(world: &mut World, level: LevelId)
    requires
        old(world).wf(),
    ensures
        final(world).wf(),
        !final(world).levels.contains(level),
        forall|other: LevelId|
            other != level ==> final(world).levels.contains(other) == old(world).levels.contains(
                other,
            ),
        forall|other: LevelId|
            other != level && old(world).levels.contains(other) ==> final(world).levels@[other]
                == old(world).levels@[other],
        final(world).levels.order() == old(world).levels.order().filter(
            |p: Placement| p.level != level,
        ),
        final(world).levels.order().len() == if old(world).levels.contains(level) {
            old(world).levels.order().len() - 1
        } else {
            old(world).levels.order().len() as int
        },
        final(world).entities@ == without_level(old(world).entities@, level),
        final(world).physics_world.bodies() == old(world).physics_world.bodies().difference(
            bodies_of_level(old(world).entities@, level),
        ),
        final(world).physics_world.colliders() == colliders_without_bodies(
            old(world).physics_world.colliders(),
            bodies_of_level(old(world).entities@, level),
        ),
        final(world).physics_world.tested() == old(world).physics_world.tested(),
        final(world).player == old(world).player,
        final(world).camera == old(world).camera,
        final(world).next_entity == old(world).next_entity,
{
    let ghost start = world.entities@;
    let ghost gone = bodies_of_level(start, level);
    let ghost start_bodies = world.physics_world.bodies();
    let ghost start_colliders = world.physics_world.colliders();
    proof {
        assert forall|i: int| 0 <= i < start.len() implies ((#[trigger] start[i]).body matches Some(
            body,
        ) ==> start_bodies.contains(body)) by {
            assert(world.admits(start[i]));
        }
    }
    world.levels.remove(level);
    remove_bodies_of_level(&mut world.physics_world, &world.entities, level);
    remove_entities_of_level(&mut world.entities, level);
    proof {
        let left = world.entities@;
        let player = world.player.body;
        // No body that an entity of another level holds, and not the
        // player's, is among the bodies that went.
        assert forall|j: int, body: BodyHandle|
            0 <= j < start.len() && start[j].level != Some(level) && (#[trigger] start[j]).refers_to(
                body,
            ) implies !(#[trigger] gone.contains(body)) by {
            lemma_bodies_of_level(start, level, body);
            if gone.contains(body) {
                let i = choose|i: int|
                    0 <= i < start.len() && (#[trigger] start[i]).level == Some(level)
                        && start[i].body == Some(body);
                assert(share_a_body(start[i], start[j]));
            }
        }
        assert(!gone.contains(player.body_handle())) by {
            lemma_bodies_of_level(start, level, player.body_handle());
            if gone.contains(player.body_handle()) {
                let i = choose|i: int|
                    0 <= i < start.len() && (#[trigger] start[i]).level == Some(level)
                        && start[i].body == Some(player.body_handle());
                assert(old(world).admits(start[i]));
            }
        }
        assert(world.player.body.live_in(&world.physics_world));
        assert forall|i: int| 0 <= i < left.len() implies world.admits(#[trigger] left[i]) by {
            let j = lemma_without_level_member(start, level, i);
            assert(old(world).admits(start[j]));
            let e = start[j];
            if e.body is Some {
                assert(e.refers_to(e.body->0));
            }
            if e.lazy is Some {
                assert(e.refers_to(e.lazy->0.body_handle));
            }
            if e.collider is Some {
                assert(e.refers_to(e.anchor()->0));
            }
        }
        assert forall|a: int, b: int|
            0 <= a < left.len() && 0 <= b < left.len() && share_a_body(
                #[trigger] left[a],
                #[trigger] left[b],
            ) implies left[a].level == left[b].level by {
            let ja = lemma_without_level_member(start, level, a);
            let jb = lemma_without_level_member(start, level, b);
            assert(share_a_body(start[ja], start[jb]));
        }
        assert forall|a: int, b: int|
            0 <= a < b < left.len() && (#[trigger] left[a]).collider is Some implies left[a].collider
            != (#[trigger] left[b]).collider by {
            let j = lemma_without_level_pair(start, level, a, b);
            assert(start[j.0].collider is Some);
        }
    }
}

/// One shape of a level's drawing, with what the thing or the floor that
/// it stands for is made from.
pub enum LevelItem {
    /// A rectangle or a circle, which may stand for a thing.
    Thing { info: ThingInfo, id: ThingId, thing: ThingParts },
    /// A path: the outline of a floor, whose fill colour says what the
    /// floor is made of.
    Floor { vertices: Vec<Vec2>, color: u32, floor: FloorParts },
}

impl LevelItem {
    /// Whether the item can be loaded: a floor has a colour that stands
    /// for a material, a solid floor has a collider description for
    /// every edge, and a liquid floor has its sensor.
    pub open spec fn ready(&self) -> bool {
        self matches LevelItem::Floor { vertices, color, floor } ==> (Material::of_color(
            *color,
        ) matches Some(material) && (material.rigid() ==> floor.edges@.len() == vertices@.len())
            && (!material.rigid() ==> floor.sensor is Some))
    }

    /// How many entities the item brings into the world: a shape that
    /// stands for a thing brings one, a liquid floor one, and a solid
    /// floor one and one more for every edge.
    pub open spec fn entity_count(&self) -> nat {
        match self {
            LevelItem::Thing { info, .. } => if info.name() is Some {
                1
            } else {
                0
            },
            LevelItem::Floor { vertices, color, .. } => match Material::of_color(*color) {
                Some(material) => if material.rigid() {
                    1 + vertices@.len()
                } else {
                    1
                },
                None => 0,
            },
        }
    }

    /// Says whether the item can be loaded.
    pub fn is_ready(&self) -> (ready: bool)
        ensures
            ready == self.ready(),
    {
        match self {
            LevelItem::Thing { .. } => true,
            LevelItem::Floor { vertices, color, floor } => {
                match Material::try_from_hex_color(*color) {
                    Some(material) => if material.rigid() {
                        floor.edges.len() == vertices.len()
                    } else {
                        floor.sensor.is_some()
                    },
                    None => false,
                }
            },
        }
    }
}

/// Whether every item can be loaded.
pub open spec fn all_ready(items: Seq<LevelItem>) -> bool {
    forall|i: int| 0 <= i < items.len() ==> (#[trigger] items[i]).ready()
}

/// How many entities the items bring into the world.
pub open spec fn entity_count(items: Seq<LevelItem>) -> nat
    decreases items.len(),
{
    if items.len() == 0 {
        0
    } else {
        entity_count(items.drop_last()) + items.last().entity_count()
    }
}

/// Whether the entities from place `at` on are what `item` brings into the
/// world when it is loaded at `pos` as part of `level`: for a shape that
/// stands for a thing that thing, for the outline of a floor that floor,
/// and for anything else nothing.
#[verifier::opaque]
pub open spec fn item_loaded(
    entities: Seq<Entity>,
    at: int,
    item: LevelItem,
    level: LevelId,
    pos: Vec2,
) -> bool {
    match item {
        LevelItem::Thing { info, id, thing } => match info.name() {
            Some(name) => is_named_thing(
                entities[at],
                name,
                info.pos.plus(pos),
                info.rotate,
                level,
                id,
                thing,
            ),
            None => true,
        },
        LevelItem::Floor { vertices, color, floor } => match Material::of_color(color) {
            Some(material) => floor_spawned(entities, at, vertices@, material, level, pos, floor),
            None => true,
        },
    }
}

/// What an item brought into the world stays what it is when more
/// entities follow.
pub proof fn lemma_item_stays_loaded(
    before: Seq<Entity>,
    after: Seq<Entity>,
    at: int,
    item: LevelItem,
    level: LevelId,
    pos: Vec2,
)
    requires
        0 <= at,
        at + item.entity_count() <= before.len() <= after.len(),
        forall|i: int| 0 <= i < before.len() ==> after[i] == before[i],
        item_loaded(before, at, item, level, pos),
    ensures
        item_loaded(after, at, item, level, pos),
{
    reveal(item_loaded);
    match item {
        LevelItem::Thing { info, .. } => {
            if info.name() is Some {
                assert(after[at] == before[at]);
            }
        },
        LevelItem::Floor { vertices, color, floor } => {
            match Material::of_color(color) {
                Some(material) => {
                    assert(after[at] == before[at]);
                    if material.rigid() {
                        assert forall|i: int| 0 <= i < vertices@.len() implies crate::floor::is_edge_entity(
                            #[trigger] after[at + 1 + i],
                            crate::floor::LazyCollider {
                                rect: crate::floor::edge_rect(
                                    crate::floor::moved_by(vertices@, pos),
                                    i,
                                ),
                                builder: floor.edges@[i],
                                body_handle: after[at].body->0,
                            },
                            material,
                            level,
                        ) by {
                            assert(after[at + 1 + i] == before[at + 1 + i]);
                        }
                    }
                },
                None => {},
            }
        },
    }
}

/// Says whether every item can be loaded.
pub fn check_all_ready(items: &Vec<LevelItem>) -> (ready: bool)
    ensures
        ready == all_ready(items@),
{
    let mut i: usize = 0;
    while i < items.len()
        invariant
            i <= items@.len(),
            forall|k: int| 0 <= k < i ==> (#[trigger] items@[k]).ready(),
        decreases items@.len() - i,
    {
        if !items[i].is_ready() {
            return false;
        }
        i += 1;
    }
    true
}

/// Enters a level into the map of loaded levels.
fn enter_level(world: &mut World, level: LevelId, pos: Vec2)
    requires
        old(world).wf(),
    ensures
        final(world).wf(),
        final(world).levels.contains(level),
        final(world).levels@[level] == pos,
        forall|other: LevelId|
            other != level ==> final(world).levels.contains(other) == old(world).levels.contains(
                other,
            ),
        forall|other: LevelId|
            other != level && old(world).levels.contains(other) ==> final(world).levels@[other]
                == old(world).levels@[other],
        !old(world).levels.contains(level) ==> final(world).levels.order() == old(world).levels.order().push(Placement { level, pos }),
        final(world).entities == old(world).entities,
        final(world).physics_world == old(world).physics_world,
        final(world).player == old(world).player,
        final(world).camera == old(world).camera,
        final(world).next_entity == old(world).next_entity,
{
    world.levels.insert(level, pos);
    proof {
        assert forall|i: int| 0 <= i < world.entities@.len() implies world.admits(
            #[trigger] world.entities@[i],
        ) by {
            assert(old(world).admits(old(world).entities@[i]));
        }
    }
}

/// Whether nothing has left the physics world: every body and every
/// collider of before is there after, each collider on its body, and the
/// colliders intersect as they did.
pub open spec fn physics_kept(before: &PhysicsWorld, after: &PhysicsWorld) -> bool {
    &&& before.bodies().subset_of(after.bodies())
    &&& crate::physics_world::colliders_kept(before.colliders(), after.colliders())
    &&& after.tested() == before.tested()
}

/// What is kept twice in a row is kept.
pub proof fn lemma_physics_kept_on(first: &PhysicsWorld, second: &PhysicsWorld, third: &PhysicsWorld)
    requires
        physics_kept(first, second),
        physics_kept(second, third),
    ensures
        physics_kept(first, third),
{
    assert forall|k: crate::physics_world::ColliderHandle| #[trigger]
        first.colliders().contains_key(k) implies third.colliders().contains_key(k)
        && third.colliders()[k] == first.colliders()[k] by {
        assert(second.colliders().contains_key(k));
    }
}

/// Brings one item of a level's drawing into the world.
fn load_item(world: &mut World, item: LevelItem, level: LevelId, pos: Vec2)
    requires
        old(world).wf(),
        old(world).levels.contains(level),
        item.ready(),
    ensures
        final(world).wf(),
        final(world).entities@.len() == old(world).entities@.len() + item.entity_count(),
        forall|i: int|
            0 <= i < old(world).entities@.len() ==> final(world).entities@[i] == old(world).entities@[i],
        forall|i: int|
            old(world).entities@.len() <= i < final(world).entities@.len() ==> (
            #[trigger] final(world).entities@[i]).level == Some(level),
        item_loaded(final(world).entities@, old(world).entities@.len() as int, item, level, pos),
        physics_kept(&old(world).physics_world, &final(world).physics_world),
        final(world).player == old(world).player,
        final(world).camera == old(world).camera,
        final(world).levels == old(world).levels,
{
    reveal(item_loaded);
    let ghost before = world.entities@;
    match item {
        LevelItem::Thing { info, id, thing } => {
            spawn_thing(world, info, level, id, pos, thing);
            proof {
                let now = world.entities@;
                if info.name() is Some {
                    assert(now.drop_last() == before);
                    assert(now.last() == now[before.len() as int]);
                    assert forall|i: int| 0 <= i < before.len() implies now[i] == before[i] by {
                        assert(now.drop_last()[i] == now[i]);
                    }
                }
            }
        },
        LevelItem::Floor { vertices, color, floor } => {
            let material = Material::from_hex_color(color);
            spawn_floor(world, vertices, material, level, pos, floor);
        },
    }
}

/// Loads a level at `pos`: the level enters the map of loaded levels, and
/// the things and floors of its drawing enter the world, in the order of
/// the drawing, each moved by `pos` and marked as the level's. What was
/// in the world stays as it was.
pub fn load_level_at_pos(world: &mut World, level: LevelId, pos: Vec2, items: Vec<LevelItem>)
    requires
        old(world).wf(),
        all_ready(items@),
    ensures
        final(world).wf(),
        final(world).levels.contains(level),
        final(world).levels@[level] == pos,
        forall|other: LevelId|
            other != level ==> final(world).levels.contains(other) == old(world).levels.contains(
                other,
            ),
        forall|other: LevelId|
            other != level && old(world).levels.contains(other) ==> final(world).levels@[other]
                == old(world).levels@[other],
        !old(world).levels.contains(level) ==> final(world).levels.order() == old(world).levels.order().push(Placement { level, pos }),
        final(world).entities@.len() == old(world).entities@.len() + entity_count(items@),
        forall|i: int|
            0 <= i < old(world).entities@.len() ==> final(world).entities@[i] == old(world).entities@[i],
        forall|i: int|
            old(world).entities@.len() <= i < final(world).entities@.len() ==> (
            #[trigger] final(world).entities@[i]).level == Some(level),
        forall|k: int|
            0 <= k < items@.len() ==> #[trigger] item_loaded(
                final(world).entities@,
                (old(world).entities@.len() + entity_count(items@.take(k))) as int,
                items@[k],
                level,
                pos,
            ),
        physics_kept(&old(world).physics_world, &final(world).physics_world),
        final(world).player == old(world).player,
        final(world).camera == old(world).camera,
{
    let ghost start = world.entities@;
    let ghost all = items@;
    enter_level(world, level, pos);
    let ghost levels = world.levels;
    let mut items = items;
    let ghost mut done: int = 0;
    proof {
        assert(all.take(0).len() == 0);
        assert(all.skip(0) == all);
    }
    while items.len() > 0
        invariant
            world.wf(),
            all_ready(all),
            0 <= done <= all.len(),
            items@ == all.skip(done),
            world.levels == levels,
            levels.contains(level),
            world.entities@.len() == start.len() + entity_count(all.take(done)),
            forall|i: int| 0 <= i < start.len() ==> world.entities@[i] == start[i],
            forall|i: int|
                start.len() <= i < world.entities@.len() ==> (#[trigger] world.entities@[i]).level
                    == Some(level),
            forall|k: int|
                0 <= k < done ==> #[trigger] item_loaded(
                    world.entities@,
                    (start.len() + entity_count(all.take(k))) as int,
                    all[k],
                    level,
                    pos,
                ),
            physics_kept(&old(world).physics_world, &world.physics_world),
            world.player == old(world).player,
            world.camera == old(world).camera,
        decreases items@.len(),
    {
        let ghost before = world.entities@;
        let ghost physics_before = world.physics_world;
        let item = items.remove(0);
        proof {
            assert(item == all[done]);
            assert(items@ =~= all.skip(done + 1));
            assert(all[done].ready());
            assert(all.take(done + 1).drop_last() == all.take(done));
            assert(all.take(done + 1).last() == all[done]);
        }
        load_item(world, item, level, pos);
        proof {
            lemma_physics_kept_on(
                &old(world).physics_world,
                &physics_before,
                &world.physics_world,
            );
            let now = world.entities@;
            assert forall|k: int| 0 <= k < done + 1 implies #[trigger] item_loaded(
                now,
                (start.len() + entity_count(all.take(k))) as int,
                all[k],
                level,
                pos,
            ) by {
                if k < done {
                    assert(item_loaded(
                        before,
                        (start.len() + entity_count(all.take(k))) as int,
                        all[k],
                        level,
                        pos,
                    ));
                    lemma_entity_count_grows(all, k, done);
                    lemma_item_stays_loaded(
                        before,
                        now,
                        (start.len() + entity_count(all.take(k))) as int,
                        all[k],
                        level,
                        pos,
                    );
                }
            }
            done = done + 1;
        }
    }
    proof {
        assert(all.take(all.len() as int) == all);
    }
}

/// The items before a later place bring at least what the items before an
/// earlier place bring, and the item at the earlier place besides.
pub proof fn lemma_entity_count_grows(items: Seq<LevelItem>, k: int, later: int)
    requires
        0 <= k < later <= items.len(),
    ensures
        entity_count(items.take(k)) + items[k].entity_count() <= entity_count(items.take(later)),
    decreases later - k,
{
    assert(items.take(later).drop_last() == items.take(later - 1));
    assert(items.take(later).last() == items[later - 1]);
    if k < later - 1 {
        lemma_entity_count_grows(items, k, later - 1);
    }
}

/// Loads a level at the place where the first level of a new world goes.
pub fn load_level(world: &mut World, level: LevelId, items: Vec<LevelItem>)
    requires
        old(world).wf(),
        all_ready(items@),
    ensures
        final(world).wf(),
        final(world).levels.contains(level),
        final(world).levels@[level] == (Vec2 { x: crate::level::LEVEL_X, y: crate::level::LEVEL_Y }),
        forall|other: LevelId|
            other != level ==> final(world).levels.contains(other) == old(world).levels.contains(
                other,
            ),
        forall|other: LevelId|
            other != level && old(world).levels.contains(other) ==> final(world).levels@[other]
                == old(world).levels@[other],
        final(world).entities@.len() == old(world).entities@.len() + entity_count(items@),
        forall|i: int|
            0 <= i < old(world).entities@.len() ==> final(world).entities@[i] == old(world).entities@[i],
        forall|i: int|
            old(world).entities@.len() <= i < final(world).entities@.len() ==> (
            #[trigger] final(world).entities@[i]).level == Some(level),
        forall|k: int|
            0 <= k < items@.len() ==> #[trigger] item_loaded(
                final(world).entities@,
                (old(world).entities@.len() + entity_count(items@.take(k))) as int,
                items@[k],
                level,
                Vec2 { x: crate::level::LEVEL_X, y: crate::level::LEVEL_Y },
            ),
        physics_kept(&old(world).physics_world, &final(world).physics_world),
        final(world).player == old(world).player,
        final(world).camera == old(world).camera,
{
    load_level_at_pos(
        world,
        level,
        Vec2 { x: crate::level::LEVEL_X, y: crate::level::LEVEL_Y },
        items,
    )
}

} // verus!

//! Coming back to life: the checkpoint at which the player reappears, and
//! the world that is loaded anew around it.

use crate::entity::Entity;
use crate::geometry::Vec2;
use crate::level::LevelId;
use crate::physics_world::PhysicsWorld;
use crate::player::RollyParts;
use crate::loading::{
    all_ready, entity_count, item_loaded, load_level_at_pos, unload_level, LevelItem,
};
use crate::world::{lemma_without_levels_after, lemma_without_levels_all, without_levels, World};
use vstd::prelude::*;

verus! {

/// Whether the entity is a checkpoint of `level`: it bears the checkpoint
/// mark, belongs to the level and has a body.
pub open spec fn is_checkpoint_of(entity: Entity, level: LevelId) -> bool {
    entity.respawn is Some && entity.level == Some(level) && entity.body is Some
}

/// Where the first checkpoint of `level` among `entities` stands, and how
/// it is turned, if the level has a checkpoint.
pub open spec fn first_checkpoint(entities: Seq<Entity>, level: LevelId) -> Option<(Vec2, i64)>
    decreases entities.len(),
{
    if entities.len() == 0 {
        None
    } else if is_checkpoint_of(entities[0], level) {
        Some((entities[0].pos, entities[0].rotation))
    } else {
        first_checkpoint(entities.drop_first(), level)
    }
}

/// Finds the checkpoint of a level: where it stands and how it is turned.
pub fn find_respawn(world: &World, respawn: LevelId) -> (anchor: Option<(Vec2, i64)>)
    ensures
        anchor == first_checkpoint(world.entities@, respawn),
{
    let mut i: usize = 0;
    proof {
        assert(world.entities@.skip(0) == world.entities@);
    }
    while i < world.entities.len()
        invariant
            i <= world.entities@.len(),
            first_checkpoint(world.entities@, respawn) == first_checkpoint(
                world.entities@.skip(i as int),
                respawn,
            ),
        decreases world.entities@.len() - i,
    {
        proof {
            assert(world.entities@.skip(i as int).drop_first() == world.entities@.skip(i + 1));
            assert(world.entities@.skip(i as int)[0] == world.entities@[i as int]);
        }
        let entity = &world.entities[i];
        let of_level = match entity.level {
            Some(level) => level.0 == respawn.0,
            None => false,
        };
        if entity.respawn.is_some() && of_level && entity.body.is_some() {
            return Some((entity.pos, entity.rotation));
        }
        i += 1;
    }
    proof {
        assert(world.entities@.skip(world.entities@.len() as int).len() == 0);
    }
    None
}

/// Makes the player new for its respawn: its body gives way to a new
/// Rolly made from `parts`, and it faces right with its shapes' blend at
/// rest. Gives the checkpoint of the player's level, where the player is
/// to be put, if the level has one.
pub fn respawn_player(world: &mut World, parts: RollyParts) -> (anchor: Option<(Vec2, i64)>)
    requires
        old(world).wf(),
    ensures
        final(world).wf(),
        anchor == first_checkpoint(old(world).entities@, old(world).player.respawn),
        final(world).player.is_fresh(),
        final(world).player.life_state == old(world).player.life_state,
        final(world).player.respawn == old(world).player.respawn,
        final(world).physics_world.bodies() == old(world).physics_world.bodies().remove(
            old(world).player.body.body_handle(),
        ).insert(final(world).player.body.body_handle()),
        final(world).physics_world.colliders() == PhysicsWorld::colliders_without_body(
            old(world).physics_world.colliders(),
            old(world).player.body.body_handle(),
        ).insert(
            final(world).player.body.collider_handle(),
            Some(final(world).player.body.body_handle()),
        ),
        final(world).physics_world.tested() == old(world).physics_world.tested(),
        final(world).entities == old(world).entities,
        final(world).camera == old(world).camera,
        final(world).levels == old(world).levels,
        final(world).next_entity == old(world).next_entity,
{
    let ghost before = world.physics_world.colliders();
    let ghost gone = world.player.body.body_handle();
    world.player.reset(&mut world.physics_world, parts);
    proof {
        let between = PhysicsWorld::colliders_without_body(before, gone);
        let after = world.physics_world.colliders();
        assert forall|i: int| 0 <= i < world.entities@.len() implies world.admits(
            #[trigger] world.entities@[i],
        ) by {
            let e = world.entities@[i];
            assert(old(world).admits(old(world).entities@[i]));
            if e.collider is Some {
                let c = e.collider->0;
                assert(before.contains_key(c) && before[c] == e.anchor());
                assert(between.contains_key(c) && between[c] == e.anchor());
                assert(after.contains_key(c) && after[c] == e.anchor());
            }
        }
    }
    find_respawn(world, world.player.respawn)
}

/// Unloads every level.
fn unload_all_levels(world: &mut World)
    requires
        old(world).wf(),
    ensures
        final(world).wf(),
        final(world).levels.order().len() == 0,
        final(world).entities@ == without_levels(old(world).entities@),
        forall|i: int|
            0 <= i < final(world).entities@.len() ==> (#[trigger] final(world).entities@[i]).level
                is None,
        final(world).physics_world.tested() == old(world).physics_world.tested(),
        final(world).player == old(world).player,
        final(world).camera == old(world).camera,
        final(world).next_entity == old(world).next_entity,
{
    while world.levels.len() > 0
        invariant
            world.wf(),
            without_levels(world.entities@) == without_levels(old(world).entities@),
            world.physics_world.tested() == old(world).physics_world.tested(),
            world.player == old(world).player,
            world.camera == old(world).camera,
            world.next_entity == old(world).next_entity,
        decreases world.levels.order().len(),
    {
        let first = world.levels.entry(0);
        proof {
            assert(world.levels.order()[0].level == first.level);
            assert(world.levels.contains(first.level));
            lemma_without_levels_after(world.entities@, first.level);
        }
        unload_level(world, first.level);
    }
    proof {
        assert forall|i: int| 0 <= i < world.entities@.len() implies (
        #[trigger] world.entities@[i]).level is None by {
            assert(world.admits(world.entities@[i]));
        }
        lemma_without_levels_all(world.entities@);
    }
}

/// Begins anew after a death: every level is unloaded, the level of the
/// player's checkpoint is loaded at the origin from `items`, and the
/// camera looks at that level's checkpoint. Gives the place of that
/// checkpoint; where the level has none, nothing is given and the camera
/// stays as it was, so that the caller can tell that the player has
/// nowhere to come back to.
pub fn load_respawn(world: &mut World, items: Vec<LevelItem>) -> (target: Option<Vec2>)
    requires
        old(world).wf(),
        all_ready(items@),
    ensures
        final(world).wf(),
        final(world).levels.order() == seq![
            crate::level::Placement {
                level: old(world).player.respawn,
                pos: Vec2 { x: 0, y: 0 },
            },
        ],
        forall|i: int|
            0 <= i < final(world).entities@.len() ==> (#[trigger] final(world).entities@[i]).level
                is None || final(world).entities@[i].level == Some(old(world).player.respawn),
        final(world).entities@.len() == without_levels(old(world).entities@).len() + entity_count(
            items@,
        ),
        final(world).entities@.take(without_levels(old(world).entities@).len() as int)
            == without_levels(old(world).entities@),
        forall|k: int|
            0 <= k < items@.len() ==> #[trigger] item_loaded(
                final(world).entities@,
                (without_levels(old(world).entities@).len() + entity_count(items@.take(k))) as int,
                items@[k],
                old(world).player.respawn,
                Vec2 { x: 0, y: 0 },
            ),
        target == match first_checkpoint(final(world).entities@, old(world).player.respawn) {
            Some((pos, _)) => Some(pos),
            None => None,
        },
        final(world).camera.target == match target {
            Some(pos) => pos,
            None => old(world).camera.target,
        },
        final(world).camera.zoom == old(world).camera.zoom,
        final(world).physics_world.tested() == old(world).physics_world.tested(),
        final(world).player == old(world).player,
{
    unload_all_levels(world);
    let ghost cleared = world.entities@;
    let respawn = world.player.respawn;
    proof {
        assert(!world.levels.contains(respawn));
        assert(world.levels.order() =~= Seq::<crate::level::Placement>::empty());
    }
    let ghost given = items@;
    load_level_at_pos(world, respawn, Vec2 { x: 0, y: 0 }, items);
    let ghost loaded = world.entities@;
    proof {
        assert(loaded.take(cleared.len() as int) =~= cleared);
        assert forall|k: int| 0 <= k < given.len() implies #[trigger] item_loaded(
            loaded,
            (cleared.len() + entity_count(given.take(k))) as int,
            given[k],
            respawn,
            Vec2 { x: 0, y: 0 },
        ) by {
            assert(item_loaded(
                loaded,
                (cleared.len() + entity_count(given.take(k))) as int,
                given[k],
                respawn,
                Vec2 { x: 0, y: 0 },
            ));
        }
        assert(world.levels.order() =~= seq![
            crate::level::Placement { level: respawn, pos: Vec2 { x: 0, y: 0 } },
        ]);
        assert forall|i: int| 0 <= i < world.entities@.len() implies (
        #[trigger] world.entities@[i]).level is None || world.entities@[i].level == Some(
            respawn,
        ) by {
            if i < cleared.len() {
                assert(world.entities@[i] == cleared[i]);
            }
        }
    }
    match find_respawn(world, respawn) {
        Some((pos, _)) => {
            world.camera.target = pos;
            Some(pos)
        },
        None => None,
    }
}

} // verus!

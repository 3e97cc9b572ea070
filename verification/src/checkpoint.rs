//! Checkpoints: the level that the player comes back to, which rises as
//! the player takes checkpoints and never falls while the player lives.

use crate::entity::Entity;
use crate::frame::Transition;
use crate::geometry::Vec2;
use crate::level::LevelId;
use crate::life_state::LifeState;
use crate::movement::Input;
use crate::world::World;
use vstd::prelude::*;

verus! {

/// Whether the entity is a checkpoint that a player at `player_pos` has
/// reached: a checkpoint of a level, with a body, and an area that holds
/// the player.
pub open spec fn is_checkpoint_at(entity: Entity, player_pos: Vec2) -> bool {
    &&& entity.respawn is Some
    &&& entity.body is Some
    &&& entity.area matches Some(area) && area.contains(entity.pos, player_pos)
    &&& entity.level is Some
}

/// The levels of the checkpoints among `entities` that a player at
/// `player_pos` has reached, in the order of the entities.
pub open spec fn checkpoints_met(entities: Seq<Entity>, player_pos: Vec2) -> Seq<LevelId>
    decreases entities.len(),
{
    if entities.len() == 0 {
        Seq::empty()
    } else if is_checkpoint_at(entities.last(), player_pos) {
        checkpoints_met(entities.drop_last(), player_pos).push(entities.last().level->0)
    } else {
        checkpoints_met(entities.drop_last(), player_pos)
    }
}

/// The checkpoint level after the player has met, one after the other,
/// checkpoints of the levels `met`: each one that is no lower than the
/// level so far is taken.
pub open spec fn followed(current: LevelId, met: Seq<LevelId>) -> LevelId
    decreases met.len(),
{
    if met.len() == 0 {
        current
    } else {
        let so_far = followed(current, met.drop_last());
        if met.last().0 >= so_far.0 {
            met.last()
        } else {
            so_far
        }
    }
}

/// The checkpoint level after the player, at `player_pos` with the level
/// `current`, has met the checkpoints among `entities`: the highest level
/// among `current` and the checkpoints that it has reached.
pub open spec fn checkpoint_after(entities: Seq<Entity>, current: LevelId, player_pos: Vec2) -> LevelId {
    followed(current, checkpoints_met(entities, player_pos))
}

/// However the checkpoints follow each other, the level that is tracked is
/// the highest of the level that the player began with and the levels
/// met: it is no lower than any of them, and it is one of them. Met in
/// rising order, the checkpoints leave the player with the last of them.
pub proof fn lemma_followed_is_highest(current: LevelId, met: Seq<LevelId>)
    ensures
        followed(current, met).0 >= current.0,
        forall|i: int| 0 <= i < met.len() ==> followed(current, met).0 >= (#[trigger] met[i]).0,
        followed(current, met) == current || exists|i: int|
            0 <= i < met.len() && #[trigger] met[i] == followed(current, met),
        (met.len() > 0 && met[0].0 >= current.0 && forall|i: int, j: int|
            0 <= i <= j < met.len() ==> (#[trigger] met[i]).0 <= (#[trigger] met[j]).0) ==> followed(
            current,
            met,
        ) == met.last(),
    decreases met.len(),
{
    if met.len() > 0 {
        let front = met.drop_last();
        lemma_followed_is_highest(current, front);
        assert forall|i: int| 0 <= i < met.len() implies followed(current, met).0 >= (
        #[trigger] met[i]).0 by {
            if i < front.len() {
                assert(front[i] == met[i]);
            }
        }
        if followed(current, met) != current {
            if followed(current, met) == met.last() {
                assert(met[met.len() - 1] == followed(current, met));
            } else {
                let i = choose|i: int|
                    0 <= i < front.len() && #[trigger] front[i] == followed(current, front);
                assert(met[i] == front[i]);
            }
        }
        if met[0].0 >= current.0 && forall|i: int, j: int|
            0 <= i <= j < met.len() ==> (#[trigger] met[i]).0 <= (#[trigger] met[j]).0 {
            if front.len() > 0 {
                assert(front[0] == met[0]);
                assert forall|i: int, j: int| 0 <= i <= j < front.len() implies (
                #[trigger] front[i]).0 <= (#[trigger] front[j]).0 by {
                    assert(front[i] == met[i] && front[j] == met[j]);
                }
                assert(front.last() == met[met.len() - 2]);
                assert(met[met.len() - 2].0 <= met[met.len() - 1].0);
            }
        }
    }
}

/// Whether `level` is the level of a checkpoint among `entities` that a
/// player at `player_pos` has reached.
pub open spec fn is_reached(entities: Seq<Entity>, player_pos: Vec2, level: LevelId) -> bool {
    exists|i: int|
        0 <= i < entities.len() && is_checkpoint_at(#[trigger] entities[i], player_pos)
            && entities[i].level == Some(level)
}

/// The levels met are the levels of the checkpoints reached, and every
/// checkpoint reached is among them.
pub proof fn lemma_checkpoints_met(entities: Seq<Entity>, player_pos: Vec2)
    ensures
        forall|k: int|
            0 <= k < checkpoints_met(entities, player_pos).len() ==> is_reached(
                entities,
                player_pos,
                #[trigger] checkpoints_met(entities, player_pos)[k],
            ),
        forall|i: int|
            0 <= i < entities.len() && is_checkpoint_at(#[trigger] entities[i], player_pos)
                ==> checkpoints_met(entities, player_pos).contains(entities[i].level->0),
    decreases entities.len(),
{
    let met = checkpoints_met(entities, player_pos);
    if entities.len() > 0 {
        let front = entities.drop_last();
        let before = checkpoints_met(front, player_pos);
        lemma_checkpoints_met(front, player_pos);
        let reached = is_checkpoint_at(entities.last(), player_pos);
        assert forall|k: int| 0 <= k < met.len() implies is_reached(
            entities,
            player_pos,
            #[trigger] met[k],
        ) by {
            if k < before.len() {
                assert(met[k] == before[k]);
                assert(is_reached(front, player_pos, before[k]));
                let i = choose|i: int|
                    0 <= i < front.len() && is_checkpoint_at(#[trigger] front[i], player_pos)
                        && front[i].level == Some(before[k]);
                assert(entities[i] == front[i]);
            } else {
                assert(entities[entities.len() - 1] == entities.last());
            }
        }
        assert forall|i: int|
            0 <= i < entities.len() && is_checkpoint_at(
                #[trigger] entities[i],
                player_pos,
            ) implies met.contains(entities[i].level->0) by {
            if i < front.len() {
                assert(front[i] == entities[i]);
                let k = choose|k: int|
                    0 <= k < before.len() && before[k] == entities[i].level->0;
                assert(met[k] == before[k]);
            } else {
                assert(met[met.len() - 1] == entities[i].level->0);
            }
        }
    }
}

/// The checkpoint level never falls, and it is the highest there is to
/// have: it is no lower than the level before and than the level of any
/// checkpoint reached, in whatever order the checkpoints stand, and it is
/// the level before or the level of a checkpoint reached.
pub proof fn lemma_checkpoint_never_falls(entities: Seq<Entity>, current: LevelId, player_pos: Vec2)
    ensures
        checkpoint_after(entities, current, player_pos).0 >= current.0,
        forall|i: int|
            0 <= i < entities.len() && is_checkpoint_at(#[trigger] entities[i], player_pos)
                ==> checkpoint_after(entities, current, player_pos).0 >= (entities[i].level->0).0,
        checkpoint_after(entities, current, player_pos) == current || is_reached(
            entities,
            player_pos,
            checkpoint_after(entities, current, player_pos),
        ),
{
    let met = checkpoints_met(entities, player_pos);
    let after = checkpoint_after(entities, current, player_pos);
    lemma_followed_is_highest(current, met);
    lemma_checkpoints_met(entities, player_pos);
    assert forall|i: int|
        0 <= i < entities.len() && is_checkpoint_at(
            #[trigger] entities[i],
            player_pos,
        ) implies after.0 >= (entities[i].level->0).0 by {
        let k = choose|k: int| 0 <= k < met.len() && met[k] == entities[i].level->0;
        assert(after.0 >= met[k].0);
    }
    if after != current {
        let k = choose|k: int| 0 <= k < met.len() && #[trigger] met[k] == after;
        assert(is_reached(entities, player_pos, met[k]));
    }
}

/// The level of the entity if it is a checkpoint that a player at
/// `player_pos` has reached.
fn checkpoint_at(entity: &Entity, player_pos: Vec2) -> (level: Option<LevelId>)
    ensures
        level is Some == is_checkpoint_at(*entity, player_pos),
        level matches Some(l) ==> entity.level == Some(l),
{
    if entity.respawn.is_none() || entity.body.is_none() {
        return None;
    }
    let inside = match &entity.area {
        Some(area) => area.contains(entity.pos, player_pos),
        None => false,
    };
    if !inside {
        return None;
    }
    entity.level
}

/// Tracks the player's checkpoint. A player that is alive and settled, at
/// `player_pos`, takes every checkpoint whose area holds it and whose
/// level is no lower than the level tracked so far, so that the highest
/// level reached is tracked afterwards, in whatever order the checkpoints
/// stand. The key to give up makes such a player begin to die.
pub fn player_respawn(world: &mut World, player_pos: Vec2, input: Input)
    ensures
        final(world).player.respawn == if old(world).player.alive() {
            checkpoint_after(old(world).entities@, old(world).player.respawn, player_pos)
        } else {
            old(world).player.respawn
        },
        final(world).player.respawn.0 >= old(world).player.respawn.0,
        old(world).player.alive() ==> forall|i: int|
            0 <= i < old(world).entities@.len() && is_checkpoint_at(
                #[trigger] old(world).entities@[i],
                player_pos,
            ) ==> final(world).player.respawn.0 >= (old(world).entities@[i].level->0).0,
        final(world).player.respawn == old(world).player.respawn || is_reached(
            old(world).entities@,
            player_pos,
            final(world).player.respawn,
        ),
        final(world).player.life_state == if old(world).player.alive() && input.reset {
            LifeState::Dead(Transition::Start)
        } else {
            old(world).player.life_state
        },
        final(world).player.direction == old(world).player.direction,
        final(world).player.body == old(world).player.body,
        final(world).player.rolly_polly_transition == old(world).player.rolly_polly_transition,
        final(world).player.eye_x == old(world).player.eye_x,
        final(world).entities == old(world).entities,
        final(world).camera == old(world).camera,
        final(world).physics_world == old(world).physics_world,
        final(world).levels == old(world).levels,
        final(world).next_entity == old(world).next_entity,
{
    if !world.player.alive() {
        return;
    }
    let current = world.player.respawn;
    let mut latest = current;
    let mut i: usize = 0;
    while i < world.entities.len()
        invariant
            i <= world.entities@.len(),
            latest == checkpoint_after(world.entities@.take(i as int), current, player_pos),
        decreases world.entities@.len() - i,
    {
        proof {
            let upto = world.entities@.take(i + 1);
            assert(upto.drop_last() == world.entities@.take(i as int));
            assert(upto.last() == world.entities@[i as int]);
            let met = checkpoints_met(world.entities@.take(i as int), player_pos);
            if is_checkpoint_at(upto.last(), player_pos) {
                assert(met.push(upto.last().level->0).drop_last() == met);
            }
        }
        match checkpoint_at(&world.entities[i], player_pos) {
            Some(level) => {
                if level.0 >= latest.0 {
                    latest = level;
                }
            },
            None => {},
        }
        i += 1;
    }
    proof {
        assert(world.entities@.take(world.entities@.len() as int) == world.entities@);
        lemma_checkpoint_never_falls(world.entities@, current, player_pos);
    }
    world.player.respawn = latest;
    if input.reset {
        world.player.life_state = LifeState::Dead(Transition::Start);
    }
}

} // verus!

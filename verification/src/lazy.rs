//! Lazy colliders: colliders of the level that are alive only while the
//! player is near, so that few colliders are alive at a time.

use crate::entity::Entity;
use crate::floor::build_collider;
use crate::geometry::{Rect, Vec2};
use crate::physics_world::ColliderHandle;
use crate::world::{alive_in, share_a_body, World};
use vstd::prelude::*;

verus! {

/// The side of the square around the player within which lazy colliders
/// are alive.
pub const LAZY_PLAYER_RECT: i64 = 100_000;

/// The square around the player within which lazy colliders are alive.
pub open spec fn lazy_reach(player_pos: Vec2) -> Rect {
    Rect::around(player_pos, (LAZY_PLAYER_RECT / 2) as i64)
}

/// Whether an entity's lazy collider is as the player's nearness asks: it
/// is alive exactly if its rectangle overlaps `reach`. An entity without
/// a lazy collider is always so.
pub open spec fn lazy_settled(entity: Entity, reach: Rect) -> bool {
    entity.lazy matches Some(lazy) ==> (entity.collider is Some <==> reach.overlaps(lazy.rect))
}

/// Whether every entity's lazy collider is as the player's nearness asks.
pub open spec fn all_lazy_settled(entities: Seq<Entity>, reach: Rect) -> bool {
    forall|i: int| 0 <= i < entities.len() ==> lazy_settled(#[trigger] entities[i], reach)
}

/// Whether the entity's lazy collider is due to come alive: it is not
/// alive, and its rectangle overlaps `reach`.
pub open spec fn lazy_wakes(entity: Entity, reach: Rect) -> bool {
    entity.lazy matches Some(lazy) && entity.collider is None && reach.overlaps(lazy.rect)
}

/// Whether the entity's lazy collider is due to go: it is alive, and its
/// rectangle does not overlap `reach`.
pub open spec fn lazy_sleeps(entity: Entity, reach: Rect) -> bool {
    entity.lazy matches Some(lazy) && entity.collider is Some && !reach.overlaps(lazy.rect)
}

/// The world is as before but for the colliders: the entities hold what
/// they held and differ at most in their live colliders, and no body has
/// come or gone.
pub open spec fn same_but_colliders(before: &World, after: &World) -> bool {
    &&& after.entities@.len() == before.entities@.len()
    &&& forall|i: int|
        0 <= i < before.entities@.len() ==> (#[trigger] after.entities@[i])
            == before.entities@[i].with_collider(after.entities@[i].collider)
    &&& after.physics_world.bodies() == before.physics_world.bodies()
    &&& after.physics_world.tested() == before.physics_world.tested()
    &&& after.player == before.player
    &&& after.camera == before.camera
    &&& after.levels == before.levels
    &&& after.next_entity == before.next_entity
}

/// A world that differs from a well-formed one in the live collider of
/// entity `i` alone is well-formed if that collider is in order.
proof fn lemma_collider_changed(before: &World, after: &World, i: int)
    requires
        before.wf(),
        same_but_colliders(before, after),
        0 <= i < before.entities@.len(),
        forall|j: int|
            0 <= j < before.entities@.len() && j != i ==> after.entities@[j] == before.entities@[j],
        forall|j: int|
            0 <= j < before.entities@.len() && j != i ==> alive_in(
                #[trigger] before.entities@[j],
                &after.physics_world,
            ),
        after.admits(after.entities@[i]),
        after.player.body.live_in(&after.physics_world),
        after.physics_world.agrees(),
        forall|j: int|
            0 <= j < before.entities@.len() && j != i && (#[trigger] before.entities@[j]).collider
                is Some ==> before.entities@[j].collider != after.entities@[i].collider,
    ensures
        after.wf(),
{
    let was = before.entities@;
    let now = after.entities@;
    assert forall|j: int| 0 <= j < now.len() implies after.admits(#[trigger] now[j]) by {
        if j != i {
            assert(before.admits(was[j]));
        }
    }
    assert forall|a: int, b: int|
        0 <= a < now.len() && 0 <= b < now.len() && share_a_body(
            #[trigger] now[a],
            #[trigger] now[b],
        ) implies now[a].level == now[b].level by {
        assert(share_a_body(was[a], was[b]));
    }
    assert forall|a: int, b: int|
        0 <= a < b < now.len() && (#[trigger] now[a]).collider is Some implies now[a].collider != (
        #[trigger] now[b]).collider by {
        if a != i && b != i {
            assert(was[a].collider is Some);
        } else if a == i {
            if now[b].collider is Some {
                assert(was[b].collider is Some);
            }
        } else {
            assert(was[a].collider is Some);
        }
    }
}

/// Wakes the lazy collider of entity `i` if it is due to wake.
fn wake_lazy_collider(world: &mut World, i: usize, reach: Rect)
    requires
        old(world).wf(),
        i < old(world).entities@.len(),
    ensures
        final(world).wf(),
        same_but_colliders(old(world), final(world)),
        forall|j: int|
            0 <= j < old(world).entities@.len() && j != i ==> final(world).entities@[j] == old(world).entities@[j],
        !lazy_wakes(old(world).entities@[i as int], reach) ==> *final(world) == *old(world),
        lazy_wakes(old(world).entities@[i as int], reach) ==> {
            let after = final(world).entities@[i as int];
            &&& after.collider is Some
            &&& !old(world).physics_world.colliders().contains_key(after.collider->0)
            &&& final(world).physics_world.colliders() == old(world).physics_world.colliders().insert(
                after.collider->0,
                Some(old(world).entities@[i as int].lazy->0.body_handle),
            )
        },
{
    let ghost start = world.entities@;
    let wakes = match &world.entities[i].lazy {
        Some(lazy) => world.entities[i].collider.is_none() && reach.overlaps(lazy.rect),
        None => false,
    };
    if wakes {
        proof {
            assert(world.admits(start[i as int]));
        }
        let (collider, body) = match &world.entities[i].lazy {
            Some(lazy) => (build_collider(&lazy.builder), lazy.body_handle),
            None => {
                return;
            },
        };
        let handle = world.physics_world.add_collider(collider, body);
        world.entities[i].collider = Some(handle);
        proof {
            assert forall|j: int| 0 <= j < start.len() && j != i implies alive_in(
                #[trigger] start[j],
                &world.physics_world,
            ) by {
                assert(old(world).admits(start[j]));
            }
            assert forall|j: int|
                0 <= j < start.len() && j != i && (#[trigger] start[j]).collider is Some implies start[j].collider
                != Some(handle) by {
                assert(old(world).admits(start[j]));
            }
            lemma_collider_changed(old(world), world, i as int);
        }
    }
}

/// Puts the lazy collider of entity `i` to sleep if it is due to sleep.
fn sleep_lazy_collider(world: &mut World, i: usize, reach: Rect)
    requires
        old(world).wf(),
        i < old(world).entities@.len(),
    ensures
        final(world).wf(),
        same_but_colliders(old(world), final(world)),
        forall|j: int|
            0 <= j < old(world).entities@.len() && j != i ==> final(world).entities@[j] == old(world).entities@[j],
        !lazy_sleeps(old(world).entities@[i as int], reach) ==> *final(world) == *old(world),
        lazy_sleeps(old(world).entities@[i as int], reach) ==> {
            &&& final(world).entities@[i as int].collider is None
            &&& final(world).physics_world.colliders() == old(world).physics_world.colliders().remove(old(world).entities@[i as int].collider->0)
        },
{
    let ghost start = world.entities@;
    let sleeps = match &world.entities[i].lazy {
        Some(lazy) => world.entities[i].collider.is_some() && !reach.overlaps(lazy.rect),
        None => false,
    };
    if sleeps {
        proof {
            assert(world.admits(start[i as int]));
        }
        match world.entities[i].collider {
            Some(handle) => {
                world.physics_world.remove_collider(handle);
                world.entities[i].collider = None;
                proof {
                    assert forall|j: int| 0 <= j < start.len() && j != i implies alive_in(
                        #[trigger] start[j],
                        &world.physics_world,
                    ) by {
                        assert(old(world).admits(start[j]));
                        if start[j].collider is Some {
                            if j < i {
                                assert(start[j].collider != start[i as int].collider);
                            } else {
                                assert(start[i as int].collider != start[j].collider);
                            }
                        }
                    }
                    lemma_collider_changed(old(world), world, i as int);
                }
            },
            None => {},
        }
    }
}

/// Wakes every lazy collider that is due to wake.
fn wake_lazy_colliders(world: &mut World, reach: Rect)
    requires
        old(world).wf(),
    ensures
        final(world).wf(),
        same_but_colliders(old(world), final(world)),
        forall|i: int|
            0 <= i < old(world).entities@.len() ==> {
                let before = (#[trigger] old(world).entities@[i]);
                let after = final(world).entities@[i];
                &&& !lazy_wakes(before, reach) ==> after == before
                &&& lazy_wakes(before, reach) ==> after.collider is Some && !old(world).physics_world.colliders().contains_key(after.collider->0)
            },
        forall|c: ColliderHandle| #[trigger]
            old(world).physics_world.colliders().contains_key(c) ==> final(world).physics_world.colliders().contains_key(c) && final(world).physics_world.colliders()[c]
                == old(world).physics_world.colliders()[c],
        forall|c: ColliderHandle|
            !old(world).physics_world.colliders().contains_key(c) && #[trigger] final(world).physics_world.colliders().contains_key(c) ==> exists|i: int|
                0 <= i < old(world).entities@.len() && (#[trigger] final(world).entities@[i]).collider
                    == Some(c) && lazy_wakes(old(world).entities@[i], reach),
        (forall|i: int|
            0 <= i < old(world).entities@.len() ==> !lazy_wakes(
                #[trigger] old(world).entities@[i],
                reach,
            )) ==> *final(world) == *old(world),
{
    let ghost start = world.entities@;
    let ghost start_colliders = world.physics_world.colliders();
    let mut i: usize = 0;
    while i < world.entities.len()
        invariant
            start == old(world).entities@,
            start_colliders == old(world).physics_world.colliders(),
            world.wf(),
            same_but_colliders(old(world), world),
            i <= start.len(),
            forall|j: int| i <= j < start.len() ==> world.entities@[j] == start[j],
            forall|j: int|
                0 <= j < i ==> {
                    let before = (#[trigger] start[j]);
                    let after = world.entities@[j];
                    &&& !lazy_wakes(before, reach) ==> after == before
                    &&& lazy_wakes(before, reach) ==> after.collider is Some
                        && !start_colliders.contains_key(after.collider->0)
                },
            forall|c: ColliderHandle| #[trigger]
                start_colliders.contains_key(c) ==> world.physics_world.colliders().contains_key(c)
                    && world.physics_world.colliders()[c] == start_colliders[c],
            forall|c: ColliderHandle|
                !start_colliders.contains_key(c)
                    && #[trigger] world.physics_world.colliders().contains_key(c) ==> exists|k: int|
                    0 <= k < start.len() && (#[trigger] world.entities@[k]).collider == Some(c)
                        && lazy_wakes(start[k], reach),
            (forall|j: int| 0 <= j < i ==> !lazy_wakes(#[trigger] start[j], reach)) ==> *world
                == *old(world),
        decreases start.len() - i,
    {
        let ghost entities_before = world.entities@;
        let ghost colliders_before = world.physics_world.colliders();
        wake_lazy_collider(world, i, reach);
        proof {
            let now = world.entities@;
            let colliders_now = world.physics_world.colliders();
            assert(entities_before[i as int] == start[i as int]);
            assert forall|j: int| 0 <= j < start.len() implies (#[trigger] now[j])
                == start[j].with_collider(now[j].collider) by {
                assert(entities_before[j] == start[j].with_collider(entities_before[j].collider));
            }
            assert forall|j: int| 0 <= j < i + 1 implies {
                let before = (#[trigger] start[j]);
                let after = now[j];
                &&& !lazy_wakes(before, reach) ==> after == before
                &&& lazy_wakes(before, reach) ==> after.collider is Some
                    && !start_colliders.contains_key(after.collider->0)
            } by {
                if j < i {
                    assert(now[j] == entities_before[j]);
                }
            }
            assert forall|c: ColliderHandle|
                !start_colliders.contains_key(c) && #[trigger] colliders_now.contains_key(
                    c,
                ) implies exists|k: int|
                0 <= k < start.len() && (#[trigger] now[k]).collider == Some(c) && lazy_wakes(
                    start[k],
                    reach,
                ) by {
                if !colliders_before.contains_key(c) {
                    assert(now[i as int].collider == Some(c) && lazy_wakes(start[i as int], reach));
                } else {
                    let k = choose|k: int|
                        0 <= k < start.len() && (#[trigger] entities_before[k]).collider == Some(c)
                            && lazy_wakes(start[k], reach);
                    if k != i {
                        assert(now[k] == entities_before[k]);
                    }
                    assert(now[k].collider == Some(c) && lazy_wakes(start[k], reach));
                }
            }
        }
        i += 1;
    }
}

/// Puts every lazy collider to sleep that is due to sleep.
fn sleep_lazy_colliders(world: &mut World, reach: Rect)
    requires
        old(world).wf(),
    ensures
        final(world).wf(),
        same_but_colliders(old(world), final(world)),
        forall|i: int|
            0 <= i < old(world).entities@.len() ==> {
                let before = (#[trigger] old(world).entities@[i]);
                let after = final(world).entities@[i];
                &&& !lazy_sleeps(before, reach) ==> after == before
                &&& lazy_sleeps(before, reach) ==> after.collider is None && !final(world).physics_world.colliders().contains_key(before.collider->0)
            },
        forall|c: ColliderHandle| #[trigger]
            final(world).physics_world.colliders().contains_key(c) ==> old(world).physics_world.colliders().contains_key(c) && final(world).physics_world.colliders()[c]
                == old(world).physics_world.colliders()[c],
        forall|c: ColliderHandle|
            !final(world).physics_world.colliders().contains_key(c) && #[trigger] old(world).physics_world.colliders().contains_key(c) ==> exists|i: int|
                0 <= i < old(world).entities@.len() && (#[trigger] old(world).entities@[i]).collider
                    == Some(c) && lazy_sleeps(old(world).entities@[i], reach),
        (forall|i: int|
            0 <= i < old(world).entities@.len() ==> !lazy_sleeps(
                #[trigger] old(world).entities@[i],
                reach,
            )) ==> *final(world) == *old(world),
{
    let ghost start = world.entities@;
    let ghost start_colliders = world.physics_world.colliders();
    let mut i: usize = 0;
    while i < world.entities.len()
        invariant
            start == old(world).entities@,
            start_colliders == old(world).physics_world.colliders(),
            world.wf(),
            same_but_colliders(old(world), world),
            i <= start.len(),
            forall|j: int| i <= j < start.len() ==> world.entities@[j] == start[j],
            forall|j: int|
                0 <= j < i ==> {
                    let before = (#[trigger] start[j]);
                    let after = world.entities@[j];
                    &&& !lazy_sleeps(before, reach) ==> after == before
                    &&& lazy_sleeps(before, reach) ==> after.collider is None
                        && !world.physics_world.colliders().contains_key(before.collider->0)
                },
            forall|c: ColliderHandle| #[trigger]
                world.physics_world.colliders().contains_key(c) ==> start_colliders.contains_key(c)
                    && world.physics_world.colliders()[c] == start_colliders[c],
            forall|c: ColliderHandle|
                !world.physics_world.colliders().contains_key(c)
                    && #[trigger] start_colliders.contains_key(c) ==> exists|k: int|
                    0 <= k < start.len() && (#[trigger] start[k]).collider == Some(c) && lazy_sleeps(
                        start[k],
                        reach,
                    ),
            (forall|j: int| 0 <= j < i ==> !lazy_sleeps(#[trigger] start[j], reach)) ==> *world
                == *old(world),
        decreases start.len() - i,
    {
        let ghost entities_before = world.entities@;
        let ghost colliders_before = world.physics_world.colliders();
        sleep_lazy_collider(world, i, reach);
        proof {
            let now = world.entities@;
            let colliders_now = world.physics_world.colliders();
            assert(entities_before[i as int] == start[i as int]);
            assert forall|j: int| 0 <= j < start.len() implies (#[trigger] now[j])
                == start[j].with_collider(now[j].collider) by {
                assert(entities_before[j] == start[j].with_collider(entities_before[j].collider));
            }
            assert forall|j: int| 0 <= j < i + 1 implies {
                let before = (#[trigger] start[j]);
                let after = now[j];
                &&& !lazy_sleeps(before, reach) ==> after == before
                &&& lazy_sleeps(before, reach) ==> after.collider is None
                    && !colliders_now.contains_key(before.collider->0)
            } by {
                if j < i {
                    assert(now[j] == entities_before[j]);
                }
            }
            assert forall|c: ColliderHandle|
                !colliders_now.contains_key(c) && #[trigger] start_colliders.contains_key(
                    c,
                ) implies exists|k: int|
                0 <= k < start.len() && (#[trigger] start[k]).collider == Some(c) && lazy_sleeps(
                    start[k],
                    reach,
                ) by {
                if colliders_before.contains_key(c) {
                    assert(start[i as int].collider == Some(c) && lazy_sleeps(
                        start[i as int],
                        reach,
                    ));
                }
            }
        }
        i += 1;
    }
}

/// Brings every lazy collider into line with where the player is. A lazy
/// collider whose rectangle overlaps the square around the player comes
/// alive, attached to its body; one that no longer overlaps it leaves the
/// physics world. A second pass for the same place changes nothing.
pub fn update_lazy_collider(world: &mut World, player_pos: Vec2)
    requires
        old(world).wf(),
    ensures
        final(world).wf(),
        same_but_colliders(old(world), final(world)),
        all_lazy_settled(final(world).entities@, lazy_reach(player_pos)),
        forall|i: int|
            0 <= i < old(world).entities@.len() ==> {
                let before = (#[trigger] old(world).entities@[i]);
                let after = final(world).entities@[i];
                &&& lazy_settled(before, lazy_reach(player_pos)) ==> after == before
                &&& before.collider is None && after.collider is Some ==> !old(world).physics_world.colliders().contains_key(after.collider->0)
                &&& before.collider is Some && after.collider is None ==> !final(world).physics_world.colliders().contains_key(before.collider->0)
            },
        forall|c: ColliderHandle|
            old(world).physics_world.colliders().contains_key(c) && #[trigger] final(world).physics_world.colliders().contains_key(c) ==> final(world).physics_world.colliders()[c]
                == old(world).physics_world.colliders()[c],
        forall|c: ColliderHandle|
            !final(world).physics_world.colliders().contains_key(c) && #[trigger] old(world).physics_world.colliders().contains_key(c) ==> exists|i: int|
                0 <= i < old(world).entities@.len() && (#[trigger] old(world).entities@[i]).collider
                    == Some(c) && final(world).entities@[i].collider is None,
        forall|c: ColliderHandle|
            !old(world).physics_world.colliders().contains_key(c) && #[trigger] final(world).physics_world.colliders().contains_key(c) ==> exists|i: int|
                0 <= i < old(world).entities@.len() && (#[trigger] final(world).entities@[i]).collider
                    == Some(c) && old(world).entities@[i].collider is None,
        all_lazy_settled(old(world).entities@, lazy_reach(player_pos)) ==> *final(world) == *old(world),
{
    let reach = Rect::around(player_pos, LAZY_PLAYER_RECT / 2);
    let ghost start = world.entities@;
    let ghost start_colliders = world.physics_world.colliders();
    wake_lazy_colliders(world, reach);
    let ghost woken = world.entities@;
    let ghost woken_colliders = world.physics_world.colliders();
    let ghost middle = *world;
    sleep_lazy_colliders(world, reach);
    proof {
        let now = world.entities@;
        let colliders_now = world.physics_world.colliders();
        assert forall|i: int| 0 <= i < start.len() implies {
            let before = (#[trigger] start[i]);
            let after = now[i];
            &&& after == before.with_collider(after.collider)
            &&& lazy_settled(after, reach)
            &&& lazy_settled(before, reach) ==> after == before
            &&& before.collider is None && after.collider is Some ==> !start_colliders.contains_key(
                after.collider->0,
            )
            &&& before.collider is Some && after.collider is None ==> !colliders_now.contains_key(
                before.collider->0,
            )
        } by {
            let w = woken[i];
            assert(w == start[i].with_collider(w.collider));
            assert(now[i] == w.with_collider(now[i].collider));
            if lazy_wakes(start[i], reach) {
                assert(!lazy_sleeps(w, reach));
            } else {
                assert(w == start[i]);
            }
        }
        assert forall|i: int| 0 <= i < now.len() implies lazy_settled(#[trigger] now[i], reach) by {
            assert(now[i] == start[i].with_collider(now[i].collider));
        }
        assert forall|c: ColliderHandle|
            !colliders_now.contains_key(c) && #[trigger] start_colliders.contains_key(
                c,
            ) implies exists|i: int|
            0 <= i < start.len() && (#[trigger] start[i]).collider == Some(c) && now[i].collider
                is None by {
            assert(woken_colliders.contains_key(c));
            let k = choose|k: int|
                0 <= k < woken.len() && (#[trigger] woken[k]).collider == Some(c) && lazy_sleeps(
                    woken[k],
                    reach,
                );
            assert(woken[k] == start[k].with_collider(woken[k].collider));
            if lazy_wakes(start[k], reach) {
                assert(!lazy_sleeps(woken[k], reach));
            }
            assert(start[k].collider == Some(c) && now[k].collider is None);
        }
        assert forall|c: ColliderHandle|
            !start_colliders.contains_key(c) && #[trigger] colliders_now.contains_key(
                c,
            ) implies exists|i: int|
            0 <= i < start.len() && (#[trigger] now[i]).collider == Some(c) && start[i].collider
                is None by {
            assert(woken_colliders.contains_key(c));
            let k = choose|k: int|
                0 <= k < start.len() && (#[trigger] woken[k]).collider == Some(c) && lazy_wakes(
                    start[k],
                    reach,
                );
            assert(woken[k] == start[k].with_collider(woken[k].collider));
            assert(!lazy_sleeps(woken[k], reach));
            assert(now[k].collider == Some(c) && start[k].collider is None);
        }
        if all_lazy_settled(start, reach) {
            assert forall|i: int| 0 <= i < start.len() implies !lazy_wakes(
                #[trigger] start[i],
                reach,
            ) by {}
            assert(middle == *old(world));
            assert forall|i: int| 0 <= i < woken.len() implies !lazy_sleeps(
                #[trigger] woken[i],
                reach,
            ) by {
                assert(lazy_settled(start[i], reach));
            }
        }
    }
}

} // verus!

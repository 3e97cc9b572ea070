//! Level streaming: which levels to load and which to unload as the
//! camera moves.

use crate::geometry::{Rect, Vec2};
use crate::level::{
    distinct_levels, has_level, LevelCatalog, LevelId, LevelInfo, LevelMap, Placement,
};
use crate::world::World;
use vstd::prelude::*;

verus! {

/// The neighbour of a loaded level that is due for loading on one side,
/// with the place where it goes: the next level where the level's end
/// anchor is in view, the previous level where its start anchor is. The
/// neighbour is placed so that its opposite anchor meets that anchor.
pub open spec fn neighbor_to_load(
    catalog: Map<usize, LevelInfo>,
    view: Rect,
    placement: Placement,
    forward: bool,
) -> Option<Placement> {
    let info = catalog[placement.level.0];
    let anchor = if forward {
        info.markers.end
    } else {
        info.markers.start
    };
    let neighbor = if forward {
        placement.level.spec_next(catalog)
    } else {
        placement.level.spec_prev(catalog)
    };
    if !view.contains(placement.pos.plus(anchor)) {
        None
    } else {
        match neighbor {
            None => None,
            Some(level) => {
                let opposite = if forward {
                    catalog[level.0].markers.start
                } else {
                    catalog[level.0].markers.end
                };
                Some(Placement { level, pos: placement.pos.plus(anchor.minus(opposite)) })
            },
        }
    }
}

/// A sequence of the placement, if there is one.
pub open spec fn seq_of(found: Option<Placement>) -> Seq<Placement> {
    match found {
        Some(p) => seq![p],
        None => seq![],
    }
}

/// The neighbours due for loading around the levels of `order`: for each
/// level in turn its next and then its previous neighbour.
pub open spec fn load_candidates(
    catalog: Map<usize, LevelInfo>,
    view: Rect,
    order: Seq<Placement>,
) -> Seq<Placement>
    decreases order.len(),
{
    if order.len() == 0 {
        seq![]
    } else {
        load_candidates(catalog, view, order.drop_last()) + seq_of(
            neighbor_to_load(catalog, view, order.last(), true),
        ) + seq_of(neighbor_to_load(catalog, view, order.last(), false))
    }
}

/// The candidates that are in fact loaded: those not loaded yet, each level
/// once, at the place that its first candidate gives.
pub open spec fn loads_of(candidates: Seq<Placement>, loaded: Seq<Placement>) -> Seq<Placement>
    decreases candidates.len(),
{
    if candidates.len() == 0 {
        seq![]
    } else {
        let before = loads_of(candidates.drop_last(), loaded);
        let last = candidates.last();
        if has_level(loaded, last.level) || has_level(before, last.level) {
            before
        } else {
            before.push(last)
        }
    }
}

/// The loaded levels whose rectangle does not overlap the view.
pub open spec fn out_of_view(
    catalog: Map<usize, LevelInfo>,
    view: Rect,
    order: Seq<Placement>,
) -> Seq<LevelId>
    decreases order.len(),
{
    if order.len() == 0 {
        seq![]
    } else {
        let before = out_of_view(catalog, view, order.drop_last());
        let last = order.last();
        if view.overlaps(catalog[last.level.0].bounds(last.pos)) {
            before
        } else {
            before.push(last.level)
        }
    }
}

/// The levels of `levels` that are no load candidate.
pub open spec fn unloads_of(levels: Seq<LevelId>, candidates: Seq<Placement>) -> Seq<LevelId>
    decreases levels.len(),
{
    if levels.len() == 0 {
        seq![]
    } else {
        let before = unloads_of(levels.drop_last(), candidates);
        if has_level(candidates, levels.last()) {
            before
        } else {
            before.push(levels.last())
        }
    }
}

/// Whether the catalog knows every level of `order`.
pub open spec fn all_known(catalog: Map<usize, LevelInfo>, order: Seq<Placement>) -> bool {
    forall|i: int| 0 <= i < order.len() ==> catalog.contains_key((#[trigger] order[i]).level.0)
}

/// What one pass of streaming asks for: the levels to load, with their
/// places, and the levels to unload.
pub struct LevelUpdate {
    pub loads: Vec<Placement>,
    pub unloads: Vec<LevelId>,
}

/// The neighbours of one loaded level that are due for loading: first the
/// next level, then the previous one.
pub fn find_adjacent_levels_to_load(
    catalog: &LevelCatalog,
    view: Rect,
    level: LevelId,
    pos: Vec2,
) -> (found: [Option<Placement>; 2])
    requires
        catalog@.contains_key(level.0),
    ensures
        found[0] == neighbor_to_load(catalog@, view, Placement { level, pos }, true),
        found[1] == neighbor_to_load(catalog@, view, Placement { level, pos }, false),
{
    let info = match catalog.get(level) {
        Some(info) => info,
        None => { return [None, None]; },
    };
    let next = if !view.contains(pos.plus(info.markers.end)) {
        None
    } else {
        match level.next(catalog) {
            None => None,
            Some(edge) => match catalog.get(edge) {
                None => None,
                Some(other) => Some(
                    Placement {
                        level: edge,
                        pos: pos.plus(info.markers.end.minus(other.markers.start)),
                    },
                ),
            },
        }
    };
    let prev = if !view.contains(pos.plus(info.markers.start)) {
        None
    } else {
        match level.prev(catalog) {
            None => None,
            Some(edge) => match catalog.get(edge) {
                None => None,
                Some(other) => Some(
                    Placement {
                        level: edge,
                        pos: pos.plus(info.markers.start.minus(other.markers.end)),
                    },
                ),
            },
        }
    };
    [next, prev]
}

/// The loaded levels that have left the view.
pub fn find_levels_to_unload(catalog: &LevelCatalog, levels: &LevelMap, view: Rect) -> (gone: Vec<
    LevelId,
>)
    requires
        all_known(catalog@, levels.order()),
    ensures
        gone@ == out_of_view(catalog@, view, levels.order()),
{
    let mut gone: Vec<LevelId> = Vec::new();
    let mut i: usize = 0;
    while i < levels.len()
        invariant
            i <= levels.order().len(),
            all_known(catalog@, levels.order()),
            gone@ == out_of_view(catalog@, view, levels.order().take(i as int)),
        decreases levels.order().len() - i,
    {
        proof {
            assert(levels.order().take(i + 1).drop_last() == levels.order().take(i as int));
        }
        let placement = levels.entry(i);
        match catalog.get(placement.level) {
            Some(info) => {
                if !view.overlaps(info.bounds(placement.pos)) {
                    gone.push(placement.level);
                }
            },
            None => {},
        }
        i += 1;
    }
    proof {
        assert(levels.order().take(levels.order().len() as int) == levels.order());
    }
    gone
}

/// Whether `level` is among `placements`.
pub fn placements_have(placements: &Vec<Placement>, level: LevelId) -> (found: bool)
    ensures
        found == has_level(placements@, level),
{
    let mut i: usize = 0;
    while i < placements.len()
        invariant
            i <= placements.len(),
            forall|k: int| 0 <= k < i ==> (#[trigger] placements@[k]).level != level,
        decreases placements.len() - i,
    {
        if placements[i].level.0 == level.0 {
            return true;
        }
        i += 1;
    }
    false
}

/// Every load candidate around levels that the catalog knows is itself a
/// level of the catalog.
pub proof fn lemma_candidates_known(
    catalog: Map<usize, LevelInfo>,
    view: Rect,
    order: Seq<Placement>,
)
    ensures
        all_known(catalog, load_candidates(catalog, view, order)),
    decreases order.len(),
{
    if order.len() > 0 {
        lemma_candidates_known(catalog, view, order.drop_last());
    }
}

/// What is loaded was not loaded before, is loaded once, and was a
/// candidate.
pub proof fn lemma_loads(candidates: Seq<Placement>, loaded: Seq<Placement>)
    ensures
        distinct_levels(loads_of(candidates, loaded)),
        forall|i: int|
            0 <= i < loads_of(candidates, loaded).len() ==> !has_level(
                loaded,
                (#[trigger] loads_of(candidates, loaded)[i]).level,
            ),
        forall|i: int|
            0 <= i < loads_of(candidates, loaded).len() ==> has_level(
                candidates,
                (#[trigger] loads_of(candidates, loaded)[i]).level,
            ),
        forall|level: LevelId|
            has_level(candidates, level) && !has_level(loaded, level) ==> has_level(
                loads_of(candidates, loaded),
                level,
            ),
    decreases candidates.len(),
{
    if candidates.len() > 0 {
        let front = candidates.drop_last();
        let last = candidates.last();
        lemma_loads(front, loaded);
        let before = loads_of(front, loaded);
        let all = loads_of(candidates, loaded);
        assert forall|i: int| 0 <= i < all.len() implies has_level(
            candidates,
            (#[trigger] all[i]).level,
        ) by {
            if i < before.len() {
                assert(all[i] == before[i]);
                let k = choose|k: int|
                    0 <= k < front.len() && (#[trigger] front[k]).level == before[i].level;
                assert(candidates[k].level == all[i].level);
            } else {
                assert(candidates[candidates.len() - 1].level == all[i].level);
            }
        }
        assert forall|level: LevelId|
            has_level(candidates, level) && !has_level(loaded, level) implies has_level(
            all,
            level,
        ) by {
            let k = choose|k: int|
                0 <= k < candidates.len() && (#[trigger] candidates[k]).level == level;
            if k < front.len() {
                assert(front[k].level == level);
                let j = choose|j: int| 0 <= j < before.len() && (#[trigger] before[j]).level == level;
                assert(all[j].level == level);
            } else if has_level(before, level) {
                let j = choose|j: int| 0 <= j < before.len() && (#[trigger] before[j]).level == level;
                assert(all[j].level == level);
            } else {
                assert(all[all.len() - 1].level == level);
            }
        }
    }
}

/// What is unloaded is one of `levels` and no load candidate.
pub proof fn lemma_unloads(levels: Seq<LevelId>, candidates: Seq<Placement>)
    ensures
        forall|i: int|
            0 <= i < unloads_of(levels, candidates).len() ==> {
                &&& levels.contains(#[trigger] unloads_of(levels, candidates)[i])
                &&& !has_level(candidates, unloads_of(levels, candidates)[i])
            },
    decreases levels.len(),
{
    if levels.len() > 0 {
        let front = levels.drop_last();
        lemma_unloads(front, candidates);
        let before = unloads_of(front, candidates);
        let all = unloads_of(levels, candidates);
        assert forall|i: int| 0 <= i < all.len() implies {
            &&& levels.contains(#[trigger] all[i])
            &&& !has_level(candidates, all[i])
        } by {
            if i < before.len() {
                assert(all[i] == before[i]);
                let k = choose|k: int| 0 <= k < front.len() && front[k] == before[i];
                assert(levels[k] == all[i]);
            } else {
                assert(levels[levels.len() - 1] == all[i]);
            }
        }
    }
}

/// Every load candidate is the next or the previous level of a loaded
/// level whose anchor on that side is in view, placed so that its own
/// anchor meets that anchor.
pub proof fn lemma_candidates_are_neighbours(
    catalog: Map<usize, LevelInfo>,
    view: Rect,
    order: Seq<Placement>,
    i: int,
) -> (from: (int, bool))
    requires
        0 <= i < load_candidates(catalog, view, order).len(),
    ensures
        0 <= from.0 < order.len(),
        neighbor_to_load(catalog, view, order[from.0], from.1) == Some(
            load_candidates(catalog, view, order)[i],
        ),
    decreases order.len(),
{
    let front = order.drop_last();
    let before = load_candidates(catalog, view, front);
    let next = seq_of(neighbor_to_load(catalog, view, order.last(), true));
    let prev = seq_of(neighbor_to_load(catalog, view, order.last(), false));
    if i < before.len() {
        let from = lemma_candidates_are_neighbours(catalog, view, front, i);
        assert(front[from.0] == order[from.0]);
        from
    } else if i < before.len() + next.len() {
        (order.len() - 1, true)
    } else {
        (order.len() - 1, false)
    }
}

/// A level that has left the view is a loaded level whose rectangle does
/// not overlap the view.
pub proof fn lemma_gone_is_out_of_view(
    catalog: Map<usize, LevelInfo>,
    view: Rect,
    order: Seq<Placement>,
    i: int,
) -> (j: int)
    requires
        0 <= i < out_of_view(catalog, view, order).len(),
    ensures
        0 <= j < order.len(),
        order[j].level == out_of_view(catalog, view, order)[i],
        !view.overlaps(catalog[order[j].level.0].bounds(order[j].pos)),
    decreases order.len(),
{
    let front = order.drop_last();
    if i < out_of_view(catalog, view, front).len() {
        let j = lemma_gone_is_out_of_view(catalog, view, front, i);
        assert(front[j] == order[j]);
        j
    } else {
        order.len() - 1
    }
}

/// What has left the view was loaded.
pub proof fn lemma_out_of_view(catalog: Map<usize, LevelInfo>, view: Rect, order: Seq<Placement>)
    ensures
        forall|i: int|
            0 <= i < out_of_view(catalog, view, order).len() ==> has_level(
                order,
                #[trigger] out_of_view(catalog, view, order)[i],
            ),
    decreases order.len(),
{
    if order.len() > 0 {
        let front = order.drop_last();
        lemma_out_of_view(catalog, view, front);
        let before = out_of_view(catalog, view, front);
        let all = out_of_view(catalog, view, order);
        assert forall|i: int| 0 <= i < all.len() implies has_level(order, #[trigger] all[i]) by {
            if i < before.len() {
                assert(all[i] == before[i]);
                let k = choose|k: int| 0 <= k < front.len() && (#[trigger] front[k]).level == before[i];
                assert(order[k].level == all[i]);
            } else {
                assert(order[order.len() - 1].level == all[i]);
            }
        }
    }
}

/// One pass of streaming over the loaded levels, for the camera's view.
///
/// Every loaded level offers its two neighbours for loading; a level that
/// has left the view is unloaded unless some loaded level offers it. The
/// pass only plans: it is for the caller to load and unload.
pub fn update_loaded_levels(catalog: &LevelCatalog, levels: &LevelMap, view: Rect) -> (plan:
    LevelUpdate)
    requires
        all_known(catalog@, levels.order()),
    ensures
        plan.loads@ == loads_of(
            load_candidates(catalog@, view, levels.order()),
            levels.order(),
        ),
        plan.unloads@ == unloads_of(
            out_of_view(catalog@, view, levels.order()),
            load_candidates(catalog@, view, levels.order()),
        ),
        distinct_levels(plan.loads@),
        all_known(catalog@, plan.loads@),
        forall|i: int|
            0 <= i < plan.loads@.len() ==> !levels.contains((#[trigger] plan.loads@[i]).level),
        forall|i: int|
            0 <= i < plan.unloads@.len() ==> levels.contains(#[trigger] plan.unloads@[i])
                && !has_level(plan.loads@, plan.unloads@[i]),
{
    let ghost order = levels.order();
    let mut candidates: Vec<Placement> = Vec::new();
    let mut i: usize = 0;
    while i < levels.len()
        invariant
            i <= order.len(),
            order == levels.order(),
            all_known(catalog@, order),
            candidates@ == load_candidates(catalog@, view, order.take(i as int)),
        decreases order.len() - i,
    {
        proof {
            assert(order.take(i + 1).drop_last() == order.take(i as int));
        }
        let placement = levels.entry(i);
        let found = find_adjacent_levels_to_load(catalog, view, placement.level, placement.pos);
        let ghost before = candidates@;
        match found[0] {
            Some(p) => {
                candidates.push(p);
            },
            None => {},
        }
        assert(candidates@ == before + seq_of(found[0]));
        let ghost middle = candidates@;
        match found[1] {
            Some(p) => {
                candidates.push(p);
            },
            None => {},
        }
        assert(candidates@ == middle + seq_of(found[1]));
        i += 1;
    }
    proof {
        assert(order.take(order.len() as int) == order);
    }
    let mut loads: Vec<Placement> = Vec::new();
    let mut j: usize = 0;
    while j < candidates.len()
        invariant
            j <= candidates.len(),
            order == levels.order(),
            loads@ == loads_of(candidates@.take(j as int), order),
        decreases candidates.len() - j,
    {
        proof {
            assert(candidates@.take(j + 1).drop_last() == candidates@.take(j as int));
        }
        let candidate = candidates[j];
        if !levels.contains_key(candidate.level) && !placements_have(&loads, candidate.level) {
            loads.push(candidate);
        }
        j += 1;
    }
    proof {
        assert(candidates@.take(candidates.len() as int) == candidates@);
    }
    let gone = find_levels_to_unload(catalog, levels, view);
    let mut unloads: Vec<LevelId> = Vec::new();
    let mut k: usize = 0;
    while k < gone.len()
        invariant
            k <= gone.len(),
            unloads@ == unloads_of(gone@.take(k as int), candidates@),
        decreases gone.len() - k,
    {
        proof {
            assert(gone@.take(k + 1).drop_last() == gone@.take(k as int));
        }
        let level = gone[k];
        if !placements_have(&candidates, level) {
            unloads.push(level);
        }
        k += 1;
    }
    proof {
        assert(gone@.take(gone.len() as int) == gone@);
        lemma_loads(candidates@, order);
        lemma_candidates_known(catalog@, view, order);
        lemma_unloads(gone@, candidates@);
        lemma_out_of_view(catalog@, view, order);
        assert forall|i: int| 0 <= i < loads@.len() implies catalog@.contains_key(
            (#[trigger] loads@[i]).level.0,
        ) by {
            let c = choose|c: int|
                0 <= c < candidates@.len() && (#[trigger] candidates@[c]).level == loads@[i].level;
        }
        assert forall|i: int| 0 <= i < unloads@.len() implies levels.contains(
            #[trigger] unloads@[i],
        ) && !has_level(loads@, unloads@[i]) by {
            let g = choose|g: int| 0 <= g < gone@.len() && gone@[g] == unloads@[i];
            if has_level(loads@, unloads@[i]) {
                let l = choose|l: int|
                    0 <= l < loads@.len() && (#[trigger] loads@[l]).level == unloads@[i];
            }
        }
    }
    LevelUpdate { loads, unloads }
}

/// One pass of streaming, which is made only while the player is alive and
/// settled: for any other player nothing is loaded or unloaded.
pub fn update_loaded_levels_alive(catalog: &LevelCatalog, world: &World, view: Rect) -> (plan:
    LevelUpdate)
    requires
        all_known(catalog@, world.levels.order()),
    ensures
        !world.player.alive() ==> plan.loads@.len() == 0 && plan.unloads@.len() == 0,
        world.player.alive() ==> plan.loads@ == loads_of(
            load_candidates(catalog@, view, world.levels.order()),
            world.levels.order(),
        ) && plan.unloads@ == unloads_of(
            out_of_view(catalog@, view, world.levels.order()),
            load_candidates(catalog@, view, world.levels.order()),
        ),
        distinct_levels(plan.loads@),
        all_known(catalog@, plan.loads@),
        forall|i: int|
            0 <= i < plan.loads@.len() ==> !world.levels.contains((#[trigger] plan.loads@[i]).level),
        forall|i: int|
            0 <= i < plan.unloads@.len() ==> world.levels.contains(#[trigger] plan.unloads@[i])
                && !has_level(plan.loads@, plan.unloads@[i]),
{
    if !world.player.alive() {
        return LevelUpdate { loads: Vec::new(), unloads: Vec::new() };
    }
    update_loaded_levels(catalog, &world.levels, view)
}

} // verus!

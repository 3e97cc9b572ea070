//! Levels: their identifiers, their anchors, where each loaded level lies
//! in the world, and which levels to load and unload as the camera moves.

use crate::fixed::{pixels_of, round_to_pixels};
use crate::geometry::{Rect, Vec2};
use crate::svg::{SvgItem, SvgShape};
use std::collections::HashMap;
use vstd::prelude::*;

verus! {

broadcast use vstd::std_specs::hash::group_hash_axioms;

/// Where the first level is placed in a fresh world.
pub const LEVEL_X: i64 = 0;

/// Where the first level is placed in a fresh world.
pub const LEVEL_Y: i64 = -3_000_000;

/// The radius, in pixels, of the circles that mark a level's anchors.
pub const MARKER_RADIUS_PIXELS: usize = 50;

/// The fill colour of the circle that marks a level's start anchor.
pub const START_MARKER_COLOR: u32 = 0x00FF00;

/// The fill colour of the circle that marks a level's end anchor.
pub const END_MARKER_COLOR: u32 = 0xFF0000;

/// The number of a level. Levels follow each other by number.
#[derive(Debug, Clone, Copy, PartialEq, Eq, Hash, PartialOrd, Ord, Structural)]
pub struct LevelId(pub usize);

/// The anchors of a level, in its own coordinates: where the level before
/// it and the level after it are stitched on.
#[derive(Debug, Clone, Copy, PartialEq, Eq, Structural)]
pub struct Markers {
    pub start: Vec2,
    pub end: Vec2,
}

impl Default for Markers {
    fn default() -> (markers: Self)
        ensures
            markers == Markers::origin(),
    {
        Markers { start: Vec2 { x: 0, y: 0 }, end: Vec2 { x: 0, y: 0 } }
    }
}

impl Markers {
    /// Both anchors at the origin.
    pub open spec fn origin() -> Markers {
        Markers { start: Vec2 { x: 0, y: 0 }, end: Vec2 { x: 0, y: 0 } }
    }

    /// The markers after one more shape of the drawing has been read: a
    /// circle of the marker radius in a marker colour moves that anchor to
    /// its centre, any other shape changes nothing.
    pub open spec fn with_item(self, item: SvgItem) -> Markers {
        match item.shape {
            SvgShape::Circle(circle) => if pixels_of(circle.r) != MARKER_RADIUS_PIXELS {
                self
            } else if item.color == START_MARKER_COLOR {
                Markers { start: circle.pos, ..self }
            } else if item.color == END_MARKER_COLOR {
                Markers { end: circle.pos, ..self }
            } else {
                self
            },
            _ => self,
        }
    }

    /// The markers that a drawing gives: each anchor at the centre of the
    /// last circle that marks it, or at the origin without one.
    pub open spec fn of_items(items: Seq<SvgItem>) -> Markers
        decreases items.len(),
    {
        if items.len() == 0 {
            Markers::origin()
        } else {
            Markers::of_items(items.drop_last()).with_item(items.last())
        }
    }
}

/// What streaming needs to know of a level: its size and its anchors.
#[derive(Debug, Clone, Copy, PartialEq, Eq, Structural)]
pub struct LevelInfo {
    pub dims: Vec2,
    pub markers: Markers,
}

impl LevelInfo {
    /// Reads a level's drawing, of size `size`, for its anchors.
    pub fn parse(size: Vec2, items: &Vec<SvgItem>) -> (info: Self)
        ensures
            info.dims == size,
            info.markers == Markers::of_items(items@),
    {
        let mut markers = Markers::default();
        let mut i: usize = 0;
        while i < items.len()
            invariant
                i <= items.len(),
                markers == Markers::of_items(items@.take(i as int)),
            decreases items.len() - i,
        {
            proof {
                assert(items@.take(i + 1).drop_last() == items@.take(i as int));
            }
            let item = &items[i];
            match &item.shape {
                SvgShape::Circle(circle) => {
                    if round_to_pixels(circle.r) == MARKER_RADIUS_PIXELS {
                        if item.color == START_MARKER_COLOR {
                            markers.start = circle.pos;
                        } else if item.color == END_MARKER_COLOR {
                            markers.end = circle.pos;
                        }
                    }
                },
                _ => {},
            }
            i += 1;
        }
        proof {
            assert(items@.take(items.len() as int) == items@);
        }
        LevelInfo { dims: size, markers }
    }

    /// The rectangle that the level covers when placed at `pos`.
    pub open spec fn spec_bounds(self, pos: Vec2) -> Rect {
        Rect { x: pos.x, y: pos.y, w: self.dims.x, h: self.dims.y }
    }

    #[verifier::when_used_as_spec(spec_bounds)]
    pub fn bounds(self, pos: Vec2) -> (rect: Rect)
        ensures
            rect == self.spec_bounds(pos),
    {
        Rect { x: pos.x, y: pos.y, w: self.dims.x, h: self.dims.y }
    }
}

/// The levels that exist, by number.
pub struct LevelCatalog {
    pub levels: HashMap<usize, LevelInfo>,
}

impl LevelCatalog {
    /// The levels by number.
    pub open spec fn view(&self) -> Map<usize, LevelInfo> {
        self.levels@
    }

    /// A catalog without levels.
    pub fn new() -> (catalog: Self)
        ensures
            catalog@ == Map::<usize, LevelInfo>::empty(),
    {
        LevelCatalog { levels: HashMap::new() }
    }

    /// Enters a level under its number, in place of any level that had it.
    pub fn insert(&mut self, level: usize, info: LevelInfo)
        ensures
            final(self)@ == old(self)@.insert(level, info),
    {
        self.levels.insert(level, info);
    }

    /// The level's description, if the level exists.
    pub fn get(&self, level: LevelId) -> (info: Option<LevelInfo>)
        ensures
            info == (if self@.contains_key(level.0) {
                Some(self@[level.0])
            } else {
                None
            }),
    {
        match self.levels.get(&level.0) {
            Some(info) => Some(*info),
            None => None,
        }
    }
}

impl LevelId {
    /// The level after this one, if the catalog has it.
    pub open spec fn spec_next(self, catalog: Map<usize, LevelInfo>) -> Option<LevelId> {
        if self.0 < usize::MAX && catalog.contains_key((self.0 + 1) as usize) {
            Some(LevelId((self.0 + 1) as usize))
        } else {
            None
        }
    }

    /// The level before this one, if the catalog has it.
    pub open spec fn spec_prev(self, catalog: Map<usize, LevelInfo>) -> Option<LevelId> {
        if self.0 > 0 && catalog.contains_key((self.0 - 1) as usize) {
            Some(LevelId((self.0 - 1) as usize))
        } else {
            None
        }
    }

    /// Whether the catalog has this level.
    pub fn valid(&self, catalog: &LevelCatalog) -> (exists: bool)
        ensures
            exists == catalog@.contains_key(self.0),
    {
        catalog.levels.contains_key(&self.0)
    }

    /// The level after this one, if the catalog has it.
    pub fn next(&self, catalog: &LevelCatalog) -> (next: Option<LevelId>)
        ensures
            next == self.spec_next(catalog@),
    {
        if self.0 == usize::MAX {
            return None;
        }
        let next = LevelId(self.0 + 1);
        if next.valid(catalog) {
            Some(next)
        } else {
            None
        }
    }

    /// The level before this one, if the catalog has it.
    pub fn prev(&self, catalog: &LevelCatalog) -> (prev: Option<LevelId>)
        ensures
            prev == self.spec_prev(catalog@),
    {
        if self.0 == 0 {
            return None;
        }
        let prev = LevelId(self.0 - 1);
        if prev.valid(catalog) {
            Some(prev)
        } else {
            None
        }
    }

    /// The level in which a new game starts.
    pub fn first() -> (level: LevelId)
        ensures
            level == LevelId(0),
    {
        LevelId(0)
    }
}

/// A loaded level and the world position of its origin.
#[derive(Debug, Clone, Copy, PartialEq, Eq, Structural)]
pub struct Placement {
    pub level: LevelId,
    pub pos: Vec2,
}

/// The loaded levels, each with its place in the world, in the order in
/// which they were loaded. No level is in it twice.
pub struct LevelMap {
    entries: Vec<Placement>,
}

/// Whether no level occurs twice among `entries`.
pub open spec fn distinct_levels(entries: Seq<Placement>) -> bool {
    forall|i: int, j: int|
        0 <= i < j < entries.len() ==> (#[trigger] entries[i]).level != (#[trigger] entries[j]).level
}

/// Whether `level` is among `entries`.
pub open spec fn has_level(entries: Seq<Placement>, level: LevelId) -> bool {
    exists|i: int| 0 <= i < entries.len() && (#[trigger] entries[i]).level == level
}

impl LevelMap {
    /// No level is loaded twice.
    pub open spec fn wf(&self) -> bool {
        distinct_levels(self.order())
    }

    /// The placements in loading order.
    pub closed spec fn order(&self) -> Seq<Placement> {
        self.entries@
    }

    /// Whether `level` is loaded.
    pub open spec fn contains(&self, level: LevelId) -> bool {
        has_level(self.order(), level)
    }

    /// The loaded levels with their positions.
    pub open spec fn view(&self) -> Map<LevelId, Vec2> {
        Map::new(
            |level: LevelId| has_level(self.order(), level),
            |level: LevelId|
                self.order()[choose|i: int|
                    0 <= i < self.order().len() && (#[trigger] self.order()[i]).level == level].pos,
        )
    }

    /// Nothing loaded.
    pub fn new() -> (map: Self)
        ensures
            map.order() == Seq::<Placement>::empty(),
            map.wf(),
    {
        LevelMap { entries: Vec::new() }
    }

    /// The number of loaded levels.
    pub fn len(&self) -> (n: usize)
        ensures
            n == self.order().len(),
    {
        self.entries.len()
    }

    /// The placement at position `i` of the loading order.
    pub fn entry(&self, i: usize) -> (placement: Placement)
        requires
            i < self.order().len(),
        ensures
            placement == self.order()[i as int],
    {
        self.entries[i]
    }

    /// Where `level` stands in the loading order.
    fn position(&self, level: LevelId) -> (found: Option<usize>)
        ensures
            found matches Some(i) ==> i < self.order().len() && self.order()[i as int].level
                == level,
            found is None ==> !has_level(self.order(), level),
    {
        let mut i: usize = 0;
        while i < self.entries.len()
            invariant
                i <= self.entries.len(),
                forall|k: int| 0 <= k < i ==> (#[trigger] self.entries@[k]).level != level,
            decreases self.entries.len() - i,
        {
            if self.entries[i].level.0 == level.0 {
                return Some(i);
            }
            i += 1;
        }
        None
    }

    /// Says whether no level is loaded twice.
    pub fn is_well_formed(&self) -> (ok: bool)
        ensures
            ok == self.wf(),
    {
        let mut j: usize = 0;
        while j < self.entries.len()
            invariant
                j <= self.entries@.len(),
                forall|a: int, b: int|
                    0 <= a < b < j ==> (#[trigger] self.entries@[a]).level != (
                    #[trigger] self.entries@[b]).level,
            decreases self.entries@.len() - j,
        {
            let mut i: usize = 0;
            while i < j
                invariant
                    i <= j,
                    j < self.entries@.len(),
                    forall|a: int| 0 <= a < i ==> (#[trigger] self.entries@[a]).level
                        != self.entries@[j as int].level,
                decreases j - i,
            {
                if self.entries[i].level.0 == self.entries[j].level.0 {
                    return false;
                }
                i += 1;
            }
            j += 1;
        }
        true
    }

    /// Whether `level` is loaded.
    pub fn contains_key(&self, level: LevelId) -> (loaded: bool)
        ensures
            loaded == self.contains(level),
    {
        self.position(level).is_some()
    }

    /// The position of a loaded level.
    pub fn get(&self, level: LevelId) -> (pos: Option<Vec2>)
        requires
            self.wf(),
        ensures
            pos == (if self.contains(level) {
                Some(self@[level])
            } else {
                None
            }),
    {
        match self.position(level) {
            Some(i) => Some(self.entries[i].pos),
            None => None,
        }
    }

    /// Records `level` at `pos`. A level that is loaded already keeps its
    /// place in the order and takes the new position.
    pub fn insert(&mut self, level: LevelId, pos: Vec2)
        requires
            old(self).wf(),
        ensures
            final(self).wf(),
            final(self).contains(level),
            final(self)@[level] == pos,
            forall|other: LevelId|
                other != level ==> final(self).contains(other) == old(self).contains(other),
            forall|other: LevelId|
                other != level && old(self).contains(other) ==> final(self)@[other] == old(self)@[other],
            !old(self).contains(level) ==> final(self).order() == old(self).order().push(
                Placement { level, pos },
            ),
    {
        let ghost before = self.entries@;
        match self.position(level) {
            Some(i) => {
                self.entries[i] = Placement { level, pos };
                proof {
                    let after = self.entries@;
                    assert(after[i as int].level == level);
                    assert forall|other: LevelId| other != level implies has_level(after, other)
                        == has_level(before, other) by {
                        if has_level(before, other) {
                            let k = choose|k: int|
                                0 <= k < before.len() && (#[trigger] before[k]).level == other;
                            assert(after[k].level == other);
                        }
                        if has_level(after, other) {
                            let k = choose|k: int|
                                0 <= k < after.len() && (#[trigger] after[k]).level == other;
                            assert(before[k].level == other);
                        }
                    }
                    assert forall|other: LevelId|
                        other != level && has_level(before, other) implies (
                    #[trigger] self@[other]) == old(self)@[other] by {
                        let kb = choose|k: int|
                            0 <= k < before.len() && (#[trigger] before[k]).level == other;
                        let ka = choose|k: int|
                            0 <= k < after.len() && (#[trigger] after[k]).level == other;
                        assert(before[ka].level == other);
                    }
                }
            },
            None => {
                self.entries.push(Placement { level, pos });
                proof {
                    let after = self.entries@;
                    assert(after[before.len() as int].level == level);
                    assert forall|other: LevelId| other != level implies has_level(after, other)
                        == has_level(before, other) by {
                        if has_level(before, other) {
                            let k = choose|k: int|
                                0 <= k < before.len() && (#[trigger] before[k]).level == other;
                            assert(after[k].level == other);
                        }
                        if has_level(after, other) {
                            let k = choose|k: int|
                                0 <= k < after.len() && (#[trigger] after[k]).level == other;
                            assert(before[k].level == other);
                        }
                    }
                    assert forall|other: LevelId|
                        other != level && has_level(before, other) implies (
                    #[trigger] self@[other]) == old(self)@[other] by {
                        let kb = choose|k: int|
                            0 <= k < before.len() && (#[trigger] before[k]).level == other;
                        let ka = choose|k: int|
                            0 <= k < after.len() && (#[trigger] after[k]).level == other;
                        assert(after[kb].level == other);
                    }
                }
            },
        }
    }

    /// Forgets `level`, and says where it was. The other levels keep their
    /// order.
    pub fn remove(&mut self, level: LevelId) -> (pos: Option<Vec2>)
        requires
            old(self).wf(),
        ensures
            final(self).wf(),
            pos == (if old(self).contains(level) {
                Some(old(self)@[level])
            } else {
                None
            }),
            !final(self).contains(level),
            forall|other: LevelId|
                other != level ==> final(self).contains(other) == old(self).contains(other),
            forall|other: LevelId|
                other != level && old(self).contains(other) ==> final(self)@[other] == old(self)@[other],
            final(self).order() == old(self).order().filter(|p: Placement| p.level != level),
            final(self).order().len() == if old(self).contains(level) {
                old(self).order().len() - 1
            } else {
                old(self).order().len() as int
            },
    {
        let ghost before = self.entries@;
        match self.position(level) {
            Some(i) => {
                let removed = self.entries.remove(i);
                proof {
                    let after = self.entries@;
                    assert(after == before.remove(i as int));
                    assert forall|k: int| 0 <= k < after.len() implies (#[trigger] after[k]).level
                        != level by {
                        if k < i {
                            assert(after[k] == before[k]);
                        } else {
                            assert(after[k] == before[k + 1]);
                        }
                    }
                    assert forall|other: LevelId| other != level implies has_level(after, other)
                        == has_level(before, other) by {
                        if has_level(before, other) {
                            let k = choose|k: int|
                                0 <= k < before.len() && (#[trigger] before[k]).level == other;
                            if k < i {
                                assert(after[k].level == other);
                            } else {
                                assert(after[k - 1].level == other);
                            }
                        }
                        if has_level(after, other) {
                            let k = choose|k: int|
                                0 <= k < after.len() && (#[trigger] after[k]).level == other;
                            if k < i {
                                assert(before[k].level == other);
                            } else {
                                assert(before[k + 1].level == other);
                            }
                        }
                    }
                    assert forall|other: LevelId|
                        other != level && has_level(before, other) implies (
                    #[trigger] self@[other]) == old(self)@[other] by {
                        let kb = choose|k: int|
                            0 <= k < before.len() && (#[trigger] before[k]).level == other;
                        let ka = choose|k: int|
                            0 <= k < after.len() && (#[trigger] after[k]).level == other;
                        if ka < i {
                            assert(before[ka].level == other);
                        } else {
                            assert(before[ka + 1].level == other);
                        }
                    }
                    lemma_filter_removes_one(before, i as int, level);
                }
                Some(removed.pos)
            },
            None => {
                proof {
                    lemma_filter_keeps_all(before, level);
                }
                None
            },
        }
    }
}

/// Filtering out a level that does not occur keeps every placement.
proof fn lemma_filter_keeps_all(entries: Seq<Placement>, level: LevelId)
    requires
        !has_level(entries, level),
    ensures
        entries.filter(|p: Placement| p.level != level) == entries,
    decreases entries.len(),
{
    reveal(Seq::filter);
    let keep = |p: Placement| p.level != level;
    if entries.len() > 0 {
        let front = entries.drop_last();
        assert(!has_level(front, level)) by {
            if has_level(front, level) {
                let k = choose|k: int| 0 <= k < front.len() && (#[trigger] front[k]).level == level;
                assert(entries[k].level == level);
            }
        }
        lemma_filter_keeps_all(front, level);
        assert(entries.last().level != level) by {
            assert(entries[entries.len() - 1].level == entries.last().level);
        }
        assert(front.push(entries.last()) == entries);
    }
}

/// Filtering out a level that occurs once, at `i`, removes that placement.
proof fn lemma_filter_removes_one(entries: Seq<Placement>, i: int, level: LevelId)
    requires
        distinct_levels(entries),
        0 <= i < entries.len(),
        entries[i].level == level,
    ensures
        entries.filter(|p: Placement| p.level != level) == entries.remove(i),
    decreases entries.len(),
{
    reveal(Seq::filter);
    let keep = |p: Placement| p.level != level;
    let front = entries.drop_last();
    if i == entries.len() - 1 {
        assert(!has_level(front, level)) by {
            if has_level(front, level) {
                let k = choose|k: int| 0 <= k < front.len() && (#[trigger] front[k]).level == level;
                assert(entries[k].level == level);
            }
        }
        lemma_filter_keeps_all(front, level);
        assert(entries.remove(i) == front);
    } else {
        assert(distinct_levels(front)) by {
            assert forall|a: int, b: int| 0 <= a < b < front.len() implies (#[trigger] front[a]).level
                != (#[trigger] front[b]).level by {
                assert(front[a] == entries[a]);
                assert(front[b] == entries[b]);
            }
        }
        assert(front[i].level == level);
        lemma_filter_removes_one(front, i, level);
        assert(entries.last().level != level) by {
            assert(entries[entries.len() - 1] == entries.last());
        }
        assert(front.remove(i).push(entries.last()) == entries.remove(i));
    }
}

} // verus!

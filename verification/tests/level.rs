use rolly_polly::fixed::ONE;
use rolly_polly::geometry::{Rect, Vec2};
use rolly_polly::level::{LevelCatalog, LevelId, LevelInfo, LevelMap, Markers, Placement};
use rolly_polly::streaming::{find_adjacent_levels_to_load, find_levels_to_unload, placements_have, update_loaded_levels};
use rolly_polly::svg::{CircleShape, PathShape, RectShape, SvgItem, SvgShape};

fn m(x: i64, y: i64) -> Vec2 {
    Vec2::new(x * ONE, y * ONE)
}

fn info(dims: Vec2, start: Vec2, end: Vec2) -> LevelInfo {
    LevelInfo { dims, markers: Markers { start, end } }
}

fn catalog_of(levels: &[(usize, LevelInfo)]) -> LevelCatalog {
    let mut catalog = LevelCatalog::new();
    for (id, info) in levels.iter() {
        catalog.insert(*id, *info);
    }
    catalog
}

fn circle(x: i64, y: i64, r: i64, color: u32, index: usize) -> SvgItem {
    SvgItem {
        shape: SvgShape::Circle(CircleShape { pos: Vec2::new(x, y), r, rotate: 0 }),
        color,
        index,
    }
}

#[test]
fn the_first_level_is_level_zero() {
    assert_eq!(LevelId::first(), LevelId(0));
}

#[test]
fn next_and_prev_follow_the_catalog() {
    let plain = info(m(1, 1), m(0, 0), m(0, 0));
    let catalog = catalog_of(&[(0, plain), (1, plain), (3, plain)]);
    assert!(LevelId(0).valid(&catalog));
    assert!(!LevelId(2).valid(&catalog));
    assert_eq!(LevelId(0).next(&catalog), Some(LevelId(1)));
    assert_eq!(LevelId(1).next(&catalog), None);
    assert_eq!(LevelId(3).next(&catalog), None);
    assert_eq!(LevelId(0).prev(&catalog), None);
    assert_eq!(LevelId(1).prev(&catalog), Some(LevelId(0)));
    assert_eq!(LevelId(3).prev(&catalog), None);
    assert_eq!(LevelId(4).prev(&catalog), Some(LevelId(3)));
    assert_eq!(LevelId(usize::MAX).next(&catalog), None);
}

#[test]
fn catalog_lookup() {
    let a = info(m(1, 2), m(3, 4), m(5, 6));
    let catalog = catalog_of(&[(7, a)]);
    assert_eq!(catalog.get(LevelId(7)), Some(a));
    assert_eq!(catalog.get(LevelId(8)), None);
}

#[test]
fn markers_default_to_the_origin() {
    let markers = Markers::default();
    assert_eq!(markers.start, Vec2::new(0, 0));
    assert_eq!(markers.end, Vec2::new(0, 0));
}

#[test]
fn parse_finds_the_anchor_circles() {
    // 50 pixels are 83 333 micrometres
    let items = vec![
        circle(100, 200, 83_333, 0x00FF00, 0),
        circle(900, 800, 83_333, 0xFF0000, 1),
    ];
    let parsed = LevelInfo::parse(m(20, 10), &items);
    assert_eq!(parsed.dims, m(20, 10));
    assert_eq!(parsed.markers.start, Vec2::new(100, 200));
    assert_eq!(parsed.markers.end, Vec2::new(900, 800));
}

#[test]
fn parse_ignores_other_shapes() {
    let items = vec![
        circle(1, 1, 80_000, 0x00FF00, 0),
        circle(2, 2, 83_333, 0x0000FF, 1),
        SvgItem {
            shape: SvgShape::Rect(RectShape { pos: Vec2::new(3, 3), dims: m(1, 1), rotate: 0 }),
            color: 0x00FF00,
            index: 2,
        },
        SvgItem {
            shape: SvgShape::Path(PathShape { vertices: vec![m(0, 0), m(1, 0), m(1, 1)] }),
            color: 0xFF0000,
            index: 3,
        },
    ];
    let parsed = LevelInfo::parse(m(5, 5), &items);
    assert_eq!(parsed.markers.start, Vec2::new(0, 0));
    assert_eq!(parsed.markers.end, Vec2::new(0, 0));
}

#[test]
fn parse_lets_the_last_anchor_win() {
    let items = vec![
        circle(1, 1, 83_333, 0x00FF00, 0),
        circle(2, 2, 83_333, 0x00FF00, 1),
        circle(3, 3, 83_000, 0xFF0000, 2),
        circle(4, 4, 82_400, 0xFF0000, 3),
    ];
    let parsed = LevelInfo::parse(m(5, 5), &items);
    assert_eq!(parsed.markers.start, Vec2::new(2, 2));
    assert_eq!(parsed.markers.end, Vec2::new(3, 3));
}

#[test]
fn level_bounds() {
    let level = info(m(20, 10), m(0, 0), m(0, 0));
    assert_eq!(level.bounds(m(3, -4)), Rect::new(3 * ONE, -4 * ONE, 20 * ONE, 10 * ONE));
}

#[test]
fn level_map_keeps_one_place_per_level() {
    let mut map = LevelMap::new();
    assert_eq!(map.len(), 0);
    assert!(map.is_well_formed());
    map.insert(LevelId(2), m(1, 1));
    map.insert(LevelId(5), m(2, 2));
    assert_eq!(map.len(), 2);
    assert!(map.contains_key(LevelId(2)));
    assert!(!map.contains_key(LevelId(3)));
    assert_eq!(map.get(LevelId(5)), Some(m(2, 2)));
    assert_eq!(map.get(LevelId(3)), None);
    map.insert(LevelId(2), m(9, 9));
    assert_eq!(map.len(), 2);
    assert_eq!(map.get(LevelId(2)), Some(m(9, 9)));
    assert_eq!(map.entry(0), Placement { level: LevelId(2), pos: m(9, 9) });
    assert_eq!(map.entry(1), Placement { level: LevelId(5), pos: m(2, 2) });
    assert!(map.is_well_formed());
}

#[test]
fn level_map_remove() {
    let mut map = LevelMap::new();
    map.insert(LevelId(1), m(1, 0));
    map.insert(LevelId(2), m(2, 0));
    map.insert(LevelId(3), m(3, 0));
    assert_eq!(map.remove(LevelId(2)), Some(m(2, 0)));
    assert_eq!(map.remove(LevelId(2)), None);
    assert_eq!(map.len(), 2);
    assert_eq!(map.entry(0).level, LevelId(1));
    assert_eq!(map.entry(1).level, LevelId(3));
    assert!(!map.contains_key(LevelId(2)));
}

fn two_levels() -> LevelCatalog {
    catalog_of(&[
        (0, info(m(10, 4), m(0, 0), m(10, 0))),
        (1, info(m(10, 4), m(0, 0), m(10, 0))),
    ])
}

#[test]
fn neighbour_is_stitched_anchor_to_anchor() {
    let catalog = two_levels();
    let view = Rect::new(5 * ONE, -5 * ONE, 10 * ONE, 10 * ONE);
    let found = find_adjacent_levels_to_load(&catalog, view, LevelId(0), m(0, 0));
    assert_eq!(found[0], Some(Placement { level: LevelId(1), pos: m(10, 0) }));
    assert_eq!(found[1], None);
}

#[test]
fn neighbour_waits_until_its_anchor_is_in_view() {
    let catalog = two_levels();
    let view = Rect::new(0, -5 * ONE, 10 * ONE, 10 * ONE);
    // the end anchor at x = 10 lies on the right edge, which is outside
    let found = find_adjacent_levels_to_load(&catalog, view, LevelId(0), m(0, 0));
    assert_eq!(found, [None, None]);
    let wider = Rect::new(0, -5 * ONE, 10 * ONE + 1, 10 * ONE);
    let found = find_adjacent_levels_to_load(&catalog, wider, LevelId(0), m(0, 0));
    assert_eq!(found[0], Some(Placement { level: LevelId(1), pos: m(10, 0) }));
}

#[test]
fn previous_neighbour_is_stitched_backward() {
    let catalog = catalog_of(&[
        (4, info(m(8, 4), m(1, 2), m(7, 3))),
        (5, info(m(6, 4), m(2, 1), m(5, 1))),
    ]);
    let view = Rect::new(100 * ONE, 100 * ONE, 10 * ONE, 10 * ONE);
    // level 5 at (100, 100): its start anchor lies at (102, 101)
    let found = find_adjacent_levels_to_load(&catalog, view, LevelId(5), m(100, 100));
    assert_eq!(found[0], None);
    // offset + start of 5 - end of 4 = (100 + 2 - 7, 100 + 1 - 3)
    assert_eq!(found[1], Some(Placement { level: LevelId(4), pos: m(95, 98) }));
}

#[test]
fn stitching_then_an_unchanged_view_asks_for_nothing_more() {
    let catalog = two_levels();
    let view = Rect::new(5 * ONE, -5 * ONE, 10 * ONE, 10 * ONE);
    let mut levels = LevelMap::new();
    levels.insert(LevelId(0), m(0, 0));
    let plan = update_loaded_levels(&catalog, &levels, view);
    assert_eq!(plan.loads, vec![Placement { level: LevelId(1), pos: m(10, 0) }]);
    assert_eq!(plan.unloads, vec![]);
    for load in plan.loads.iter() {
        levels.insert(load.level, load.pos);
    }
    assert_eq!(levels.get(LevelId(1)), Some(m(10, 0)));
    let again = update_loaded_levels(&catalog, &levels, view);
    assert_eq!(again.loads, vec![]);
    assert_eq!(again.unloads, vec![]);
}

#[test]
fn a_level_out_of_view_is_unloaded() {
    let catalog = catalog_of(&[
        (0, info(m(10, 4), m(0, 0), m(10, 0))),
        (1, info(m(10, 4), m(0, 0), m(10, 0))),
        (2, info(m(10, 4), m(0, 0), m(10, 0))),
    ]);
    let mut levels = LevelMap::new();
    levels.insert(LevelId(0), m(0, 0));
    levels.insert(LevelId(1), m(10, 0));
    // the view shows the far end of level 1 only, and not its start anchor
    let view = Rect::new(15 * ONE, -ONE, 6 * ONE, 2 * ONE);
    assert_eq!(find_levels_to_unload(&catalog, &levels, view), vec![LevelId(0)]);
    let plan = update_loaded_levels(&catalog, &levels, view);
    assert_eq!(plan.loads, vec![Placement { level: LevelId(2), pos: m(20, 0) }]);
    assert_eq!(plan.unloads, vec![LevelId(0)]);
}

#[test]
fn a_load_candidate_is_not_unloaded() {
    // Level 0 is tiny and out of view, but level 1 offers it as its
    // previous neighbour.
    let catalog = catalog_of(&[
        (0, info(m(1, 1), m(0, 0), m(1, 0))),
        (1, info(m(10, 4), m(0, 0), m(10, 0))),
    ]);
    let mut levels = LevelMap::new();
    levels.insert(LevelId(0), m(-50, -50));
    levels.insert(LevelId(1), m(0, 0));
    let view = Rect::new(-ONE, -ONE, 3 * ONE, 3 * ONE);
    assert_eq!(find_levels_to_unload(&catalog, &levels, view), vec![LevelId(0)]);
    let plan = update_loaded_levels(&catalog, &levels, view);
    assert_eq!(plan.loads, vec![]);
    assert_eq!(plan.unloads, vec![]);
}

#[test]
fn a_level_offered_twice_is_loaded_once() {
    // Levels 0 and 2 both offer level 1; the first offer places it.
    let catalog = catalog_of(&[
        (0, info(m(10, 4), m(0, 0), m(10, 0))),
        (1, info(m(10, 4), m(0, 0), m(10, 0))),
        (2, info(m(10, 4), m(0, 0), m(10, 0))),
    ]);
    let mut levels = LevelMap::new();
    levels.insert(LevelId(0), m(0, 0));
    levels.insert(LevelId(2), m(21, 0));
    let view = Rect::new(5 * ONE, -5 * ONE, 20 * ONE, 10 * ONE);
    let plan = update_loaded_levels(&catalog, &levels, view);
    assert_eq!(plan.loads, vec![Placement { level: LevelId(1), pos: m(10, 0) }]);
    assert_eq!(plan.unloads, vec![]);
}

#[test]
fn placements_have_finds_levels() {
    let placements = vec![
        Placement { level: LevelId(3), pos: m(0, 0) },
        Placement { level: LevelId(1), pos: m(0, 0) },
    ];
    assert!(placements_have(&placements, LevelId(1)));
    assert!(!placements_have(&placements, LevelId(2)));
}

use rolly_polly::fixed::ONE;
use rolly_polly::geometry::Vec2;
use rolly_polly::polygon::{
    all_within_limit, check_corners_in_ring, find_vertex, index_distance, triangulate_polygon,
    trimesh_indices_from_polygon, trimesh_indices_from_polygon_minimal, vertices_to_clockwise,
    WORLD_LIMIT,
};

fn v(x: i64, y: i64) -> Vec2 {
    Vec2::new(x * ONE, y * ONE)
}

fn hexagon() -> Vec<Vec2> {
    vec![v(0, 0), v(2, -1), v(4, 0), v(4, 2), v(2, 3), v(0, 2)]
}

#[test]
fn a_ring_against_the_clock_is_reversed() {
    // with y pointing up, this square runs against the clock:
    // the edge sum is (1-0)(0+0) + (1-1)(1+0) + (0-1)(1+1) + (0-0)(0+1) = -2
    let ring = vec![v(0, 0), v(1, 0), v(1, 1), v(0, 1)];
    assert_eq!(vertices_to_clockwise(ring), vec![v(0, 1), v(1, 1), v(1, 0), v(0, 0)]);
}

#[test]
fn a_ring_with_the_clock_is_kept() {
    let ring = vec![v(0, 0), v(0, 1), v(1, 1), v(1, 0)];
    assert_eq!(vertices_to_clockwise(ring.clone()), ring);
}

#[test]
fn rings_without_area_are_kept() {
    assert_eq!(vertices_to_clockwise(vec![]), vec![]);
    assert_eq!(vertices_to_clockwise(vec![v(3, 4)]), vec![v(3, 4)]);
    let line = vec![v(0, 0), v(5, 5)];
    assert_eq!(vertices_to_clockwise(line.clone()), line);
}

#[test]
fn orientation_at_the_limit() {
    let far: i64 = 0x4000_0000_0000;
    let ring = vec![
        Vec2::new(-far, -far),
        Vec2::new(far, -far),
        Vec2::new(far, far),
        Vec2::new(-far, far),
    ];
    let turned = vertices_to_clockwise(ring.clone());
    assert_eq!(turned[0], ring[3]);
    assert_eq!(turned[3], ring[0]);
    assert_eq!(vertices_to_clockwise(turned.clone()), turned);
}

#[test]
fn the_last_of_equal_vertices_is_found() {
    let ring = vec![v(0, 0), v(1, 0), v(0, 0), v(2, 2)];
    assert_eq!(find_vertex(&ring, v(0, 0)), Some(2));
    assert_eq!(find_vertex(&ring, v(1, 0)), Some(1));
    assert_eq!(find_vertex(&ring, v(2, 2)), Some(3));
    assert_eq!(find_vertex(&ring, v(9, 9)), None);
    assert_eq!(find_vertex(&vec![], v(0, 0)), None);
}

#[test]
fn triangles_become_indices() {
    let ring = hexagon();
    let triangles = vec![
        [ring[0], ring[1], ring[2]],
        [ring[5], ring[0], ring[2]],
        [ring[2], ring[3], ring[5]],
        [ring[3], ring[4], ring[5]],
    ];
    assert_eq!(
        trimesh_indices_from_polygon(&ring, &triangles),
        vec![[0, 1, 2], [5, 0, 2], [2, 3, 5], [3, 4, 5]]
    );
}

#[test]
fn a_triangle_with_a_foreign_corner_is_left_out() {
    let ring = hexagon();
    let triangles = vec![
        [ring[0], ring[1], v(50, 50)],
        [ring[3], ring[4], ring[5]],
        [v(50, 50), ring[4], ring[5]],
    ];
    assert_eq!(trimesh_indices_from_polygon(&ring, &triangles), vec![[3, 4, 5]]);
    assert!(!check_corners_in_ring(&ring, &triangles));
    assert!(check_corners_in_ring(&ring, &vec![[ring[0], ring[1], ring[2]]]));
}

#[test]
fn index_distance_goes_round_the_shorter_way() {
    assert_eq!(index_distance(0, 1, 6), 1);
    assert_eq!(index_distance(1, 0, 6), 1);
    assert_eq!(index_distance(0, 5, 6), 1);
    assert_eq!(index_distance(5, 0, 6), 1);
    assert_eq!(index_distance(0, 3, 6), 3);
    assert_eq!(index_distance(0, 4, 6), 2);
    assert_eq!(index_distance(2, 2, 6), 0);
    assert_eq!(index_distance(0, 2, 5), 2);
    assert_eq!(index_distance(0, 3, 5), 2);
}

#[test]
fn only_outline_triangles_are_kept() {
    let ring = hexagon();
    let triangles = vec![
        [ring[0], ring[1], ring[2]],
        [ring[0], ring[2], ring[4]],
        [ring[2], ring[3], ring[4]],
        [ring[4], ring[5], ring[0]],
    ];
    assert_eq!(
        trimesh_indices_from_polygon_minimal(&ring, &triangles),
        vec![[0, 1, 2], [2, 3, 4], [4, 5, 0]]
    );
}

#[test]
fn a_triangle_is_its_own_triangulation() {
    let ring = vec![v(0, 0), v(1, 0), v(0, 1)];
    let swept = vec![[v(9, 9), v(8, 8), v(7, 7)]];
    assert_eq!(triangulate_polygon(&ring, swept), vec![[v(0, 0), v(1, 0), v(0, 1)]]);
}

#[test]
fn a_larger_ring_takes_the_sweep() {
    let ring = vec![v(0, 0), v(1, 0), v(1, 1), v(0, 1)];
    let swept = vec![[ring[0], ring[1], ring[2]], [ring[0], ring[2], ring[3]]];
    assert_eq!(triangulate_polygon(&ring, swept.clone()), swept);
}

#[test]
fn the_world_limit() {
    assert_eq!(WORLD_LIMIT, 1 << 46);
    assert!(all_within_limit(&vec![]));
    assert!(all_within_limit(&vec![Vec2::new(WORLD_LIMIT, -WORLD_LIMIT), v(1, 1)]));
    assert!(!all_within_limit(&vec![v(1, 1), Vec2::new(WORLD_LIMIT + 1, 0)]));
    assert!(!all_within_limit(&vec![Vec2::new(0, -WORLD_LIMIT - 1)]));
}

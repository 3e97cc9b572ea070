//! Polygons: the outline of a floor as a ring of vertices, its
//! orientation, the rectangles along its edges and the index form of its
//! triangulation.

use crate::fixed::{clamp64, clamp_wide};
use crate::geometry::{Rect, Vec2};
use vstd::prelude::*;

verus! {

/// The largest magnitude of a coordinate for which the orientation of a
/// polygon is computed: 2^46 millionths of a metre.
pub const WORLD_LIMIT: i64 = 0x4000_0000_0000;

/// The smallest rectangle that holds both points.
pub open spec fn spec_two_points_rect(v1: Vec2, v2: Vec2) -> Rect {
    let left = if v1.x <= v2.x {
        v1.x
    } else {
        v2.x
    };
    let top = if v1.y <= v2.y {
        v1.y
    } else {
        v2.y
    };
    let right = if v1.x <= v2.x {
        v2.x
    } else {
        v1.x
    };
    let bottom = if v1.y <= v2.y {
        v2.y
    } else {
        v1.y
    };
    Rect { x: left, y: top, w: clamp64(right - left), h: clamp64(bottom - top) }
}

#[verifier::when_used_as_spec(spec_two_points_rect)]
pub fn two_points_rect(v1: Vec2, v2: Vec2) -> (rect: Rect)
    ensures
        rect == spec_two_points_rect(v1, v2),
{
    let left = if v1.x <= v2.x {
        v1.x
    } else {
        v2.x
    };
    let top = if v1.y <= v2.y {
        v1.y
    } else {
        v2.y
    };
    let right = if v1.x <= v2.x {
        v2.x
    } else {
        v1.x
    };
    let bottom = if v1.y <= v2.y {
        v2.y
    } else {
        v1.y
    };
    Rect {
        x: left,
        y: top,
        w: clamp_wide(right as i128 - left as i128),
        h: clamp_wide(bottom as i128 - top as i128),
    }
}

/// The rectangle grown by `padding` on every side.
pub open spec fn spec_add_rect_padding(rect: Rect, padding: i64) -> Rect {
    Rect {
        x: clamp64(rect.x - padding),
        y: clamp64(rect.y - padding),
        w: clamp64(rect.w + 2 * padding),
        h: clamp64(rect.h + 2 * padding),
    }
}

#[verifier::when_used_as_spec(spec_add_rect_padding)]
pub fn add_rect_padding(rect: Rect, padding: i64) -> (padded: Rect)
    ensures
        padded == spec_add_rect_padding(rect, padding),
{
    Rect {
        x: clamp_wide(rect.x as i128 - padding as i128),
        y: clamp_wide(rect.y as i128 - padding as i128),
        w: clamp_wide(rect.w as i128 + 2 * (padding as i128)),
        h: clamp_wide(rect.h as i128 + 2 * (padding as i128)),
    }
}

/// Whether both coordinates lie within the world limit.
pub open spec fn within_limit(v: Vec2) -> bool {
    -WORLD_LIMIT <= v.x <= WORLD_LIMIT && -WORLD_LIMIT <= v.y <= WORLD_LIMIT
}

/// Says whether every vertex of the ring lies within the world limit.
pub fn all_within_limit(vertices: &Vec<Vec2>) -> (all: bool)
    ensures
        all == forall|i: int| 0 <= i < vertices@.len() ==> within_limit(#[trigger] vertices@[i]),
{
    let mut i: usize = 0;
    while i < vertices.len()
        invariant
            i <= vertices@.len(),
            forall|k: int| 0 <= k < i ==> within_limit(#[trigger] vertices@[k]),
        decreases vertices@.len() - i,
    {
        let v = vertices[i];
        if v.x < -WORLD_LIMIT || v.x > WORLD_LIMIT || v.y < -WORLD_LIMIT || v.y > WORLD_LIMIT {
            return false;
        }
        i += 1;
    }
    true
}

/// What the edge from vertex `i` to the next vertex of the ring adds to
/// the turning sum.
pub open spec fn edge_term(vertices: Seq<Vec2>, i: int) -> int {
    let v1 = vertices[i];
    let v2 = vertices[(i + 1) % (vertices.len() as int)];
    (v2.x - v1.x) * (v2.y + v1.y)
}

/// The sum of the edge terms of the first `count` edges.
pub open spec fn turning_sum(vertices: Seq<Vec2>, count: nat) -> int
    decreases count,
{
    if count == 0 {
        0
    } else {
        turning_sum(vertices, (count - 1) as nat) + edge_term(vertices, count - 1)
    }
}

/// Whether the ring runs against the clock as seen with the y axis
/// pointing up: the sum over its edges of `(x2 - x1) * (y2 + y1)` is
/// negative.
pub open spec fn runs_counter_clockwise(vertices: Seq<Vec2>) -> bool {
    turning_sum(vertices, vertices.len()) < 0
}

/// The ring in clockwise order, as seen with the y axis pointing up: a
/// ring that runs the other way is reversed, any other is left as it is.
pub fn vertices_to_clockwise(vertices: Vec<Vec2>) -> (ring: Vec<Vec2>)
    requires
        vertices@.len() <= u32::MAX,
        forall|i: int| 0 <= i < vertices@.len() ==> within_limit(#[trigger] vertices@[i]),
    ensures
        ring@ == if runs_counter_clockwise(vertices@) {
            vertices@.reverse()
        } else {
            vertices@
        },
{
    let n = vertices.len();
    let mut sum: i128 = 0;
    let mut i: usize = 0;
    while i < n
        invariant
            n == vertices@.len(),
            n <= u32::MAX,
            i <= n,
            forall|k: int| 0 <= k < vertices@.len() ==> within_limit(#[trigger] vertices@[k]),
            sum == turning_sum(vertices@, i as nat),
            -(i as int) * 0x4000_0000_0000_0000_0000_0000 <= sum <= (i as int)
                * 0x4000_0000_0000_0000_0000_0000,
        decreases n - i,
    {
        let next = if i + 1 == n {
            0
        } else {
            i + 1
        };
        assert(next == (i + 1) % (n as int)) by {
            if i + 1 == n {
                assert((i + 1) % (n as int) == 0) by (nonlinear_arith)
                    requires
                        i + 1 == n,
                        n > 0,
                ;
            } else {
                assert((i + 1) % (n as int) == i + 1) by (nonlinear_arith)
                    requires
                        0 <= i + 1 < n,
                ;
            }
        }
        let v1 = vertices[i];
        let v2 = vertices[next];
        let dx: i128 = v2.x as i128 - v1.x as i128;
        let sy: i128 = v2.y as i128 + v1.y as i128;
        assert(-0x4000_0000_0000_0000_0000_0000 <= dx * sy <= 0x4000_0000_0000_0000_0000_0000)
            by (nonlinear_arith)
            requires
                -0x8000_0000_0000 <= dx <= 0x8000_0000_0000,
                -0x8000_0000_0000 <= sy <= 0x8000_0000_0000,
        ;
        let term: i128 = dx * sy;
        sum = sum + term;
        i += 1;
    }
    if sum < 0 {
        let mut ring: Vec<Vec2> = Vec::new();
        let mut k: usize = n;
        while k > 0
            invariant
                n == vertices@.len(),
                k <= n,
                ring@.len() == n - k,
                forall|j: int| 0 <= j < ring@.len() ==> ring@[j] == vertices@[n - 1 - j],
            decreases k,
        {
            k -= 1;
            ring.push(vertices[k]);
        }
        assert(ring@ =~= vertices@.reverse());
        ring
    } else {
        vertices
    }
}

/// The place of the last vertex of the ring that equals `v`.
pub open spec fn last_index_of(vertices: Seq<Vec2>, v: Vec2) -> Option<int>
    decreases vertices.len(),
{
    if vertices.len() == 0 {
        None
    } else if vertices.last() == v {
        Some(vertices.len() - 1)
    } else {
        last_index_of(vertices.drop_last(), v)
    }
}

/// The last place is a place of the ring, and `v` stands there.
pub proof fn lemma_last_index_of(vertices: Seq<Vec2>, v: Vec2)
    ensures
        last_index_of(vertices, v) matches Some(i) ==> 0 <= i < vertices.len() && vertices[i] == v,
        last_index_of(vertices, v) is None ==> !vertices.contains(v),
    decreases vertices.len(),
{
    if vertices.len() > 0 {
        lemma_last_index_of(vertices.drop_last(), v);
        if last_index_of(vertices, v) is None {
            assert forall|i: int| 0 <= i < vertices.len() implies vertices[i] != v by {
                if i < vertices.len() - 1 {
                    assert(vertices.drop_last()[i] == vertices[i]);
                }
            }
        }
    }
}

/// Finds the place of the last vertex of the ring that equals `v`.
pub fn find_vertex(vertices: &Vec<Vec2>, v: Vec2) -> (found: Option<u32>)
    requires
        vertices@.len() <= u32::MAX,
    ensures
        found matches Some(i) ==> last_index_of(vertices@, v) == Some(i as int),
        found is None ==> last_index_of(vertices@, v) is None,
{
    let mut k: usize = vertices.len();
    proof {
        assert(vertices@.take(k as int) == vertices@);
    }
    while k > 0
        invariant
            k <= vertices@.len(),
            vertices@.len() <= u32::MAX,
            last_index_of(vertices@, v) == last_index_of(vertices@.take(k as int), v),
        decreases k,
    {
        proof {
            assert(vertices@.take(k as int).drop_last() == vertices@.take(k - 1));
            assert(vertices@.take(k as int).last() == vertices@[k - 1]);
        }
        k -= 1;
        if vertices[k].x == v.x && vertices[k].y == v.y {
            return Some(k as u32);
        }
    }
    proof {
        assert(vertices@.take(0).len() == 0);
    }
    None
}

/// The corners of a triangle as places in the ring, if all three are
/// vertices of the ring.
pub open spec fn corner_indices(vertices: Seq<Vec2>, triangle: [Vec2; 3]) -> Option<[u32; 3]> {
    match (
        last_index_of(vertices, triangle[0]),
        last_index_of(vertices, triangle[1]),
        last_index_of(vertices, triangle[2]),
    ) {
        (Some(a), Some(b), Some(c)) => Some([a as u32, b as u32, c as u32]),
        _ => None,
    }
}

/// The triangles in index form: each triangle whose corners are all
/// vertices of the ring, in order, by the places of its corners.
pub open spec fn indexed_triangles(vertices: Seq<Vec2>, triangles: Seq<[Vec2; 3]>) -> Seq<[u32; 3]>
    decreases triangles.len(),
{
    if triangles.len() == 0 {
        seq![]
    } else {
        let before = indexed_triangles(vertices, triangles.drop_last());
        match corner_indices(vertices, triangles.last()) {
            Some(indices) => before.push(indices),
            None => before,
        }
    }
}

/// Finds the corners of a triangle in the ring.
fn find_corners(vertices: &Vec<Vec2>, triangle: &[Vec2; 3]) -> (found: Option<[u32; 3]>)
    requires
        vertices@.len() <= u32::MAX,
    ensures
        found is Some == corner_indices(vertices@, *triangle) is Some,
        found matches Some(indices) ==> indices@ == corner_indices(vertices@, *triangle)->0@,
{
    let a = find_vertex(vertices, triangle[0]);
    let b = find_vertex(vertices, triangle[1]);
    let c = find_vertex(vertices, triangle[2]);
    match (a, b, c) {
        (Some(a), Some(b), Some(c)) => {
            let indices = [a, b, c];
            proof {
                lemma_last_index_of(vertices@, triangle[0]);
                lemma_last_index_of(vertices@, triangle[1]);
                lemma_last_index_of(vertices@, triangle[2]);
                assert(indices@ =~= corner_indices(vertices@, *triangle)->0@);
            }
            Some(indices)
        },
        _ => None,
    }
}

/// Turns a triangulation of the ring into index form. `triangles` is the
/// triangulation by corner points; a triangle with a corner that is no
/// vertex of the ring is left out.
pub fn trimesh_indices_from_polygon(vertices: &Vec<Vec2>, triangles: &Vec<[Vec2; 3]>) -> (indices:
    Vec<[u32; 3]>)
    requires
        vertices@.len() <= u32::MAX,
    ensures
        indices@.len() == indexed_triangles(vertices@, triangles@).len(),
        forall|i: int|
            0 <= i < indices@.len() ==> (#[trigger] indices@[i])@ == indexed_triangles(
                vertices@,
                triangles@,
            )[i]@,
{
    let mut indices: Vec<[u32; 3]> = Vec::new();
    let mut t: usize = 0;
    while t < triangles.len()
        invariant
            t <= triangles@.len(),
            vertices@.len() <= u32::MAX,
            indices@.len() == indexed_triangles(vertices@, triangles@.take(t as int)).len(),
            forall|i: int|
                0 <= i < indices@.len() ==> (#[trigger] indices@[i])@ == indexed_triangles(
                    vertices@,
                    triangles@.take(t as int),
                )[i]@,
        decreases triangles@.len() - t,
    {
        proof {
            assert(triangles@.take(t + 1).drop_last() == triangles@.take(t as int));
            assert(triangles@.take(t + 1).last() == triangles@[t as int]);
        }
        match find_corners(vertices, &triangles[t]) {
            Some(found) => {
                indices.push(found);
            },
            None => {},
        }
        t += 1;
    }
    proof {
        assert(triangles@.take(triangles@.len() as int) == triangles@);
    }
    indices
}

/// How far apart two places of a ring of `len` vertices are, going round
/// the shorter way.
pub open spec fn spec_index_distance(i: u32, j: u32, len: u32) -> int {
    let apart = if i >= j {
        i - j
    } else {
        j - i
    };
    if apart > len / 2 {
        len - apart
    } else {
        apart
    }
}

pub fn index_distance(i: u32, j: u32, len: u32) -> (distance: u32)
    requires
        i < len,
        j < len,
    ensures
        distance == spec_index_distance(i, j, len),
{
    let apart = if i >= j {
        i - j
    } else {
        j - i
    };
    if apart > len / 2 {
        len - apart
    } else {
        apart
    }
}

/// Whether a triangle in index form lies along the outline: two of its
/// corners are neighbours in the ring.
pub open spec fn on_outline(indices: [u32; 3], len: u32) -> bool {
    ||| spec_index_distance(indices[0], indices[1], len) == 1
    ||| spec_index_distance(indices[1], indices[2], len) == 1
    ||| spec_index_distance(indices[2], indices[0], len) == 1
}

/// The triangles in index form that lie along the outline.
pub open spec fn outline_triangles(vertices: Seq<Vec2>, triangles: Seq<[Vec2; 3]>) -> Seq<[u32; 3]>
    decreases triangles.len(),
{
    if triangles.len() == 0 {
        seq![]
    } else {
        let before = outline_triangles(vertices, triangles.drop_last());
        match corner_indices(vertices, triangles.last()) {
            Some(indices) => if on_outline(indices, vertices.len() as u32) {
                before.push(indices)
            } else {
                before
            },
            None => before,
        }
    }
}

/// Whether every corner of every triangle is a vertex of the ring.
pub open spec fn corners_in_ring(vertices: Seq<Vec2>, triangles: Seq<[Vec2; 3]>) -> bool {
    forall|t: int|
        0 <= t < triangles.len() ==> corner_indices(vertices, #[trigger] triangles[t]) is Some
}

/// Says whether every corner of every triangle is a vertex of the ring.
pub fn check_corners_in_ring(vertices: &Vec<Vec2>, triangles: &Vec<[Vec2; 3]>) -> (all: bool)
    requires
        vertices@.len() <= u32::MAX,
    ensures
        all == corners_in_ring(vertices@, triangles@),
{
    let mut t: usize = 0;
    while t < triangles.len()
        invariant
            t <= triangles@.len(),
            vertices@.len() <= u32::MAX,
            forall|k: int|
                0 <= k < t ==> corner_indices(vertices@, #[trigger] triangles@[k]) is Some,
        decreases triangles@.len() - t,
    {
        if find_corners(vertices, &triangles[t]).is_none() {
            return false;
        }
        t += 1;
    }
    true
}

/// Turns a triangulation of the ring into index form and keeps only the
/// triangles along the outline, those with two corners that are
/// neighbours in the ring.
pub fn trimesh_indices_from_polygon_minimal(
    vertices: &Vec<Vec2>,
    triangles: &Vec<[Vec2; 3]>,
) -> (indices: Vec<[u32; 3]>)
    requires
        vertices@.len() <= u32::MAX,
        corners_in_ring(vertices@, triangles@),
    ensures
        indices@.len() == outline_triangles(vertices@, triangles@).len(),
        forall|i: int|
            0 <= i < indices@.len() ==> (#[trigger] indices@[i])@ == outline_triangles(
                vertices@,
                triangles@,
            )[i]@,
{
    let len = vertices.len() as u32;
    let mut indices: Vec<[u32; 3]> = Vec::new();
    let mut t: usize = 0;
    while t < triangles.len()
        invariant
            t <= triangles@.len(),
            vertices@.len() <= u32::MAX,
            len == vertices@.len(),
            indices@.len() == outline_triangles(vertices@, triangles@.take(t as int)).len(),
            forall|i: int|
                0 <= i < indices@.len() ==> (#[trigger] indices@[i])@ == outline_triangles(
                    vertices@,
                    triangles@.take(t as int),
                )[i]@,
        decreases triangles@.len() - t,
    {
        proof {
            assert(triangles@.take(t + 1).drop_last() == triangles@.take(t as int));
            assert(triangles@.take(t + 1).last() == triangles@[t as int]);
            lemma_last_index_of(vertices@, triangles@[t as int][0]);
            lemma_last_index_of(vertices@, triangles@[t as int][1]);
            lemma_last_index_of(vertices@, triangles@[t as int][2]);
        }
        match find_corners(vertices, &triangles[t]) {
            Some(found) => {
                let ghost expected = corner_indices(vertices@, triangles@[t as int])->0;
                assert(found@[0] == expected@[0] && found@[1] == expected@[1] && found@[2]
                    == expected@[2]);
                if index_distance(found[0], found[1], len) == 1 || index_distance(
                    found[1],
                    found[2],
                    len,
                ) == 1 || index_distance(found[2], found[0], len) == 1 {
                    indices.push(found);
                }
            },
            None => {},
        }
        t += 1;
    }
    proof {
        assert(triangles@.take(triangles@.len() as int) == triangles@);
    }
    indices
}

/// The triangulation of a ring of at least three vertices: a triangle is
/// its own triangulation, and a larger ring has the triangulation `swept`
/// that a sweep over it gave.
pub fn triangulate_polygon(vertices: &Vec<Vec2>, swept: Vec<[Vec2; 3]>) -> (triangles: Vec<
    [Vec2; 3],
>)
    requires
        vertices@.len() >= 3,
    ensures
        vertices@.len() == 3 ==> triangles@.len() == 1 && triangles@[0]@ == vertices@,
        vertices@.len() > 3 ==> triangles == swept,
{
    if vertices.len() == 3 {
        let triangle = [vertices[0], vertices[1], vertices[2]];
        let mut triangles: Vec<[Vec2; 3]> = Vec::new();
        triangles.push(triangle);
        assert(triangles@[0]@ =~= vertices@);
        triangles
    } else {
        swept
    }
}

} // verus!

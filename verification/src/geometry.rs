//! Points and axis-aligned rectangles in world space.

use crate::fixed::{clamp64, sat_add, sat_sub};
use vstd::prelude::*;

verus! {

/// A point or displacement, in millionths of a metre.
#[derive(Clone, Copy, Debug, PartialEq, Eq, Structural)]
pub struct Vec2 {
    pub x: i64,
    pub y: i64,
}

impl Vec2 {
    pub fn new(x: i64, y: i64) -> (r: Self)
        ensures
            r == (Vec2 { x, y }),
    {
        Vec2 { x, y }
    }

    /// The origin.
    pub fn zero() -> (r: Self)
        ensures
            r == (Vec2 { x: 0, y: 0 }),
    {
        Vec2 { x: 0, y: 0 }
    }

    /// The sum by components, each saturating.
    pub open spec fn spec_plus(self, other: Vec2) -> Vec2 {
        Vec2 { x: clamp64(self.x + other.x), y: clamp64(self.y + other.y) }
    }

    /// The difference by components, each saturating.
    pub open spec fn spec_minus(self, other: Vec2) -> Vec2 {
        Vec2 { x: clamp64(self.x - other.x), y: clamp64(self.y - other.y) }
    }

    #[verifier::when_used_as_spec(spec_plus)]
    pub fn plus(self, other: Vec2) -> (r: Vec2)
        ensures
            r == self.spec_plus(other),
    {
        Vec2 { x: sat_add(self.x, other.x), y: sat_add(self.y, other.y) }
    }

    #[verifier::when_used_as_spec(spec_minus)]
    pub fn minus(self, other: Vec2) -> (r: Vec2)
        ensures
            r == self.spec_minus(other),
    {
        Vec2 { x: sat_sub(self.x, other.x), y: sat_sub(self.y, other.y) }
    }
}

/// A rectangle given by its top-left corner and its size. The y axis points
/// down, so `top` is the smaller y.
#[derive(Clone, Copy, Debug, PartialEq, Eq, Structural)]
pub struct Rect {
    pub x: i64,
    pub y: i64,
    pub w: i64,
    pub h: i64,
}

impl Rect {
    pub fn new(x: i64, y: i64, w: i64, h: i64) -> (r: Self)
        ensures
            r == (Rect { x, y, w, h }),
    {
        Rect { x, y, w, h }
    }

    pub open spec fn left(self) -> int {
        self.x as int
    }

    pub open spec fn right(self) -> int {
        self.x + self.w
    }

    pub open spec fn top(self) -> int {
        self.y as int
    }

    pub open spec fn bottom(self) -> int {
        self.y + self.h
    }

    /// Whether the point lies in the rectangle: the left and top edges
    /// belong to it, the right and bottom edges do not.
    pub open spec fn spec_contains(self, point: Vec2) -> bool {
        &&& point.x >= self.left()
        &&& point.x < self.right()
        &&& point.y < self.bottom()
        &&& point.y >= self.top()
    }

    /// Whether two rectangles share a point, edges included.
    pub open spec fn spec_overlaps(self, other: Rect) -> bool {
        &&& self.left() <= other.right()
        &&& self.right() >= other.left()
        &&& self.top() <= other.bottom()
        &&& self.bottom() >= other.top()
    }

    #[verifier::when_used_as_spec(spec_contains)]
    pub fn contains(self, point: Vec2) -> (r: bool)
        ensures
            r == self.spec_contains(point),
    {
        let right: i128 = self.x as i128 + self.w as i128;
        let bottom: i128 = self.y as i128 + self.h as i128;
        point.x >= self.x && (point.x as i128) < right && (point.y as i128) < bottom && point.y
            >= self.y
    }

    #[verifier::when_used_as_spec(spec_overlaps)]
    pub fn overlaps(self, other: Rect) -> (r: bool)
        ensures
            r == self.spec_overlaps(other),
    {
        let right: i128 = self.x as i128 + self.w as i128;
        let bottom: i128 = self.y as i128 + self.h as i128;
        let other_right: i128 = other.x as i128 + other.w as i128;
        let other_bottom: i128 = other.y as i128 + other.h as i128;
        self.x as i128 <= other_right && right >= other.x as i128 && self.y as i128
            <= other_bottom && bottom >= other.y as i128
    }

    /// The rectangle of half-extent `half` around `center`.
    pub open spec fn spec_around(center: Vec2, half: i64) -> Rect {
        Rect {
            x: clamp64(center.x - half),
            y: clamp64(center.y - half),
            w: clamp64(2 * half),
            h: clamp64(2 * half),
        }
    }

    #[verifier::when_used_as_spec(spec_around)]
    pub fn around(center: Vec2, half: i64) -> (r: Rect)
        ensures
            r == Rect::spec_around(center, half),
    {
        let size = sat_add(half, half);
        Rect { x: sat_sub(center.x, half), y: sat_sub(center.y, half), w: size, h: size }
    }
}

/// Overlap is symmetric.
pub proof fn lemma_overlaps_symmetric(a: Rect, b: Rect)
    ensures
        a.overlaps(b) == b.overlaps(a),
{
}

} // verus!

//! The lights of things, read from their drawings.

use crate::fixed::{sat_sub, trunc_div, ONE};
use crate::geometry::Vec2;
use crate::svg::{SvgItem, SvgShape};
use crate::thing::{Light, Lights};
use vstd::prelude::*;

verus! {

/// Whether every shape of the drawing is a circle.
pub open spec fn all_circles(items: Seq<SvgItem>) -> bool {
    forall|i: int| 0 <= i < items.len() ==> (#[trigger] items[i]).shape is Circle
}

/// The light that a circle stands for: at its centre, of its radius.
pub fn shape_to_light(shape: &SvgShape) -> (light: Light)
    requires
        shape is Circle,
    ensures
        shape matches SvgShape::Circle(circle) && light == (Light {
            pos: circle.pos,
            radius: circle.r,
        }),
{
    match shape {
        SvgShape::Circle(circle) => Light { pos: circle.pos, radius: circle.r },
        _ => unreached(),
    }
}

/// A point of a drawing of size `size`, seen from the drawing's middle.
pub open spec fn from_middle(pos: Vec2, size: Vec2) -> Vec2 {
    Vec2 {
        x: crate::fixed::clamp64(pos.x - trunc_div(size.x as int, 2)),
        y: crate::fixed::clamp64(pos.y - trunc_div(size.y as int, 2)),
    }
}

/// Half of `v`, rounded toward zero.
fn half(v: i64) -> (h: i64)
    ensures
        h == trunc_div(v as int, 2),
{
    if v >= 0 {
        v / 2
    } else if v == i64::MIN {
        -0x4000_0000_0000_0000
    } else {
        -((-v) / 2)
    }
}

/// Says whether every shape of the drawing is a circle.
pub fn check_all_circles(items: &Vec<SvgItem>) -> (all: bool)
    ensures
        all == all_circles(items@),
{
    let mut i: usize = 0;
    while i < items.len()
        invariant
            i <= items@.len(),
            forall|k: int| 0 <= k < i ==> (#[trigger] items@[k]).shape is Circle,
        decreases items@.len() - i,
    {
        match &items[i].shape {
            SvgShape::Circle(_) => {},
            _ => {
                return false;
            },
        }
        i += 1;
    }
    true
}

/// Reads the lights of a drawing of circles, of size `size`: one light
/// for every circle, seen from the drawing's middle, at full strength.
pub fn load_light(size: Vec2, items: &Vec<SvgItem>) -> (lights: Lights)
    requires
        all_circles(items@),
    ensures
        lights.lights@.len() == items@.len(),
        forall|i: int|
            0 <= i < items@.len() ==> ((#[trigger] items@[i]).shape matches SvgShape::Circle(
                circle,
            ) && lights.lights@[i] == (
                Light { pos: from_middle(circle.pos, size), radius: circle.r },
                ONE,
            )),
{
    let mut lights: Vec<(Light, i64)> = Vec::new();
    let mut i: usize = 0;
    while i < items.len()
        invariant
            i <= items@.len(),
            all_circles(items@),
            lights@.len() == i,
            forall|k: int|
                0 <= k < i ==> ((#[trigger] items@[k]).shape matches SvgShape::Circle(circle)
                    && lights@[k] == (
                    Light { pos: from_middle(circle.pos, size), radius: circle.r },
                    ONE,
                )),
        decreases items@.len() - i,
    {
        let light = shape_to_light(&items[i].shape);
        let moved = Light {
            pos: Vec2 {
                x: sat_sub(light.pos.x, half(size.x)),
                y: sat_sub(light.pos.y, half(size.y)),
            },
            radius: light.radius,
        };
        lights.push((moved, ONE));
        i += 1;
    }
    Lights { lights }
}

} // verus!

//! Fixed-point arithmetic on millionths, saturating at the range of `i64`.

use vstd::prelude::*;

verus! {

/// One whole unit, in millionths.
pub const ONE: i64 = 1_000_000;

/// Pixels per metre of the level artwork.
pub const PIXELS_PER_METER: i64 = 600;

/// The value of `v` brought into the range of `i64`.
pub open spec fn clamp64(v: int) -> i64 {
    if v < i64::MIN as int {
        i64::MIN
    } else if v > i64::MAX as int {
        i64::MAX
    } else {
        v as i64
    }
}

/// The quotient of `n` by a positive `d`, rounded toward zero.
pub open spec fn trunc_div(n: int, d: int) -> int {
    if n >= 0 {
        n / d
    } else {
        -((-n) / d)
    }
}

/// The quotient of `n` by a divisor `d` other than zero, of either sign,
/// rounded toward zero.
pub open spec fn signed_div(n: int, d: int) -> int {
    if d > 0 {
        trunc_div(n, d)
    } else {
        -trunc_div(n, -d)
    }
}

/// The magnitude of `v`.
pub open spec fn magnitude(v: int) -> int {
    if v >= 0 {
        v
    } else {
        -v
    }
}

/// Brings a wide value into the range of `i64`.
pub fn clamp_wide(v: i128) -> (r: i64)
    ensures
        r == clamp64(v as int),
{
    if v < i64::MIN as i128 {
        i64::MIN
    } else if v > i64::MAX as i128 {
        i64::MAX
    } else {
        v as i64
    }
}

/// The sum, saturating at the bounds of `i64`.
pub fn sat_add(a: i64, b: i64) -> (r: i64)
    ensures
        r == clamp64(a + b),
{
    clamp_wide(a as i128 + b as i128)
}

/// The difference, saturating at the bounds of `i64`.
pub fn sat_sub(a: i64, b: i64) -> (r: i64)
    ensures
        r == clamp64(a - b),
{
    clamp_wide(a as i128 - b as i128)
}

/// A product of two `i64` values fits in an `i128` with room to spare.
pub proof fn lemma_product_bound(a: int, b: int)
    requires
        -0x8000_0000_0000_0000 <= a <= 0x8000_0000_0000_0000,
        -0x8000_0000_0000_0000 <= b <= 0x8000_0000_0000_0000,
    ensures
        -0x4000_0000_0000_0000_0000_0000_0000_0000 <= a * b
            <= 0x4000_0000_0000_0000_0000_0000_0000_0000,
{
    assert(-0x4000_0000_0000_0000_0000_0000_0000_0000 <= a * b
        <= 0x4000_0000_0000_0000_0000_0000_0000_0000) by (nonlinear_arith)
        requires
            -0x8000_0000_0000_0000 <= a <= 0x8000_0000_0000_0000,
            -0x8000_0000_0000_0000 <= b <= 0x8000_0000_0000_0000,
    ;
}

/// The quotient of a wide value by a positive divisor, rounded toward zero.
pub fn div_wide(n: i128, d: i64) -> (r: i128)
    requires
        d > 0,
        -0x4000_0000_0000_0000_0000_0000_0000_0000 <= n
            <= 0x4000_0000_0000_0000_0000_0000_0000_0000,
    ensures
        r == trunc_div(n as int, d as int),
        magnitude(r as int) <= magnitude(n as int),
{
    let dw: i128 = d as i128;
    if n >= 0 {
        let q: i128 = n / dw;
        assert(0 <= n as int / dw as int <= n as int) by (nonlinear_arith)
            requires
                n >= 0,
                dw > 0,
        ;
        q
    } else {
        let m: i128 = -n;
        let q: i128 = m / dw;
        assert(0 <= m as int / dw as int <= m as int) by (nonlinear_arith)
            requires
                m >= 0,
                dw > 0,
        ;
        -q
    }
}

/// `a * b / d`, rounded toward zero and saturating: the product is taken
/// exactly before the division.
pub fn mul_div(a: i64, b: i64, d: i64) -> (r: i64)
    requires
        d > 0,
    ensures
        r == clamp64(trunc_div(a * b, d as int)),
{
    proof {
        lemma_product_bound(a as int, b as int);
    }
    let p: i128 = (a as i128) * (b as i128);
    clamp_wide(div_wide(p, d))
}

/// Scaling by a share of at most the whole never grows a value: the
/// result is no larger in magnitude than the value was.
pub proof fn lemma_share_shrinks(v: i64, num: int, den: int)
    requires
        0 <= num <= den,
        den > 0,
    ensures
        magnitude(trunc_div(v * num, den)) <= magnitude(v as int),
        clamp64(trunc_div(v * num, den)) == trunc_div(v * num, den),
{
    let m = magnitude(v * num);
    let mv = magnitude(v as int);
    assert(m == mv * num) by (nonlinear_arith)
        requires
            m == magnitude(v * num),
            mv == magnitude(v as int),
            0 <= num,
    ;
    assert(m / den <= mv) by (nonlinear_arith)
        requires
            m == mv * num,
            0 <= num <= den,
            den > 0,
            mv >= 0,
    ;
    assert(0 <= m / den) by (nonlinear_arith)
        requires
            m >= 0,
            den > 0,
    ;
    if v < 0 && num > 0 {
        assert(v * num < 0) by (nonlinear_arith)
            requires
                v < 0,
                num > 0,
        ;
    } else if v >= 0 {
        assert(v * num >= 0) by (nonlinear_arith)
            requires
                v >= 0,
                num >= 0,
        ;
    } else {
        assert(v * num == 0) by (nonlinear_arith)
            requires
                num == 0,
        ;
    }
}

/// A length in millionths of a metre as a whole number of pixels, rounded to
/// the nearest pixel, halves upward; a negative length gives zero.
pub open spec fn pixels_of(length: i64) -> int {
    if length <= 0 {
        0
    } else {
        (length * PIXELS_PER_METER + ONE / 2) / (ONE as int)
    }
}

/// Computes [`pixels_of`], saturating at `usize::MAX`.
pub fn round_to_pixels(length: i64) -> (r: usize)
    ensures
        pixels_of(length) <= usize::MAX ==> r == pixels_of(length),
        pixels_of(length) > usize::MAX ==> r == usize::MAX,
{
    if length <= 0 {
        0
    } else {
        let scaled: i128 = (length as i128) * 600 + 500_000;
        let px: i128 = scaled / 1_000_000;
        if px > usize::MAX as i128 {
            usize::MAX
        } else {
            px as usize
        }
    }
}

/// A length in pixels as a length in metres.
pub open spec fn spec_pixel_to_meter(pixel: i64) -> i64 {
    trunc_div(pixel as int, PIXELS_PER_METER as int) as i64
}

#[verifier::when_used_as_spec(spec_pixel_to_meter)]
pub fn pixel_to_meter(pixel: i64) -> (meter: i64)
    ensures
        meter == spec_pixel_to_meter(pixel),
{
    div_wide(pixel as i128, PIXELS_PER_METER) as i64
}

/// A length in metres as a length in pixels.
pub open spec fn spec_meter_to_pixel(meter: i64) -> i64 {
    clamp64(meter * PIXELS_PER_METER)
}

#[verifier::when_used_as_spec(spec_meter_to_pixel)]
pub fn meter_to_pixel(meter: i64) -> (pixel: i64)
    ensures
        pixel == spec_meter_to_pixel(meter),
{
    clamp_wide((meter as i128) * 600)
}

/// The value the share `t` of the way from `a` to `b`, with `t` in
/// millionths: `a` weighed by what is left of the whole, and `b` by `t`.
pub open spec fn spec_lerp(a: i64, b: i64, t: i64) -> i64 {
    clamp64(
        clamp64(trunc_div(a * clamp64(ONE - t), ONE as int)) + clamp64(trunc_div(b * t, ONE as int)),
    )
}

#[verifier::when_used_as_spec(spec_lerp)]
pub fn lerp(a: i64, b: i64, t: i64) -> (between: i64)
    ensures
        between == spec_lerp(a, b, t),
{
    sat_add(mul_div(a, sat_sub(ONE, t), ONE), mul_div(b, t, ONE))
}

} // verus!

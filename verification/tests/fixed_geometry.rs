use rolly_polly::fixed::{
    clamp_wide, div_wide, lerp, meter_to_pixel, mul_div, pixel_to_meter, round_to_pixels, sat_add,
    sat_sub, ONE,
};
use rolly_polly::geometry::{Rect, Vec2};
use rolly_polly::polygon::{add_rect_padding, two_points_rect};

#[test]
fn saturating_sum_and_difference() {
    assert_eq!(sat_add(2, 3), 5);
    assert_eq!(sat_add(i64::MAX, 1), i64::MAX);
    assert_eq!(sat_add(i64::MIN, -1), i64::MIN);
    assert_eq!(sat_sub(2, 3), -1);
    assert_eq!(sat_sub(i64::MIN, 1), i64::MIN);
    assert_eq!(sat_sub(i64::MAX, -1), i64::MAX);
    assert_eq!(sat_sub(0, i64::MIN), i64::MAX);
}

#[test]
fn clamp_wide_clamps() {
    assert_eq!(clamp_wide(7), 7);
    assert_eq!(clamp_wide(i64::MAX as i128 + 1), i64::MAX);
    assert_eq!(clamp_wide(i64::MIN as i128 - 1), i64::MIN);
}

#[test]
fn division_rounds_toward_zero() {
    assert_eq!(div_wide(7, 2), 3);
    assert_eq!(div_wide(-7, 2), -3);
    assert_eq!(div_wide(-1, 1000), 0);
    assert_eq!(div_wide(0, 5), 0);
}

#[test]
fn mul_div_takes_the_product_exactly() {
    assert_eq!(mul_div(3, 4, 6), 2);
    assert_eq!(mul_div(-3, 4, 6), -2);
    assert_eq!(mul_div(i64::MAX, 1_000_000, 1_000_000), i64::MAX);
    assert_eq!(mul_div(i64::MAX, 2, 1), i64::MAX);
    assert_eq!(mul_div(i64::MIN, 2, 1), i64::MIN);
    assert_eq!(mul_div(i64::MIN, i64::MIN, i64::MAX), i64::MAX);
    assert_eq!(mul_div(1_500_000, 500_000, ONE), 750_000);
}

#[test]
fn pixels_are_rounded_to_the_nearest() {
    // 600 pixels per metre: 50 pixels are 83 333.3 micrometres
    assert_eq!(round_to_pixels(83_333), 50);
    assert_eq!(round_to_pixels(83_334), 50);
    assert_eq!(round_to_pixels(82_500), 50);
    assert_eq!(round_to_pixels(82_499), 49);
    assert_eq!(round_to_pixels(84_166), 50);
    assert_eq!(round_to_pixels(84_167), 51);
    assert_eq!(round_to_pixels(0), 0);
    assert_eq!(round_to_pixels(-5_000), 0);
    assert_eq!(round_to_pixels(ONE), 600);
    assert_eq!(round_to_pixels(333_333), 200);
}

#[test]
fn pixel_and_metre_conversions() {
    assert_eq!(meter_to_pixel(ONE), 600 * ONE);
    assert_eq!(pixel_to_meter(600 * ONE), ONE);
    assert_eq!(pixel_to_meter(45 * ONE), 75_000);
    assert_eq!(pixel_to_meter(-45 * ONE), -75_000);
    assert_eq!(meter_to_pixel(i64::MAX), i64::MAX);
}

#[test]
fn lerp_weighs_both_ends() {
    assert_eq!(lerp(0, 10 * ONE, 0), 0);
    assert_eq!(lerp(0, 10 * ONE, ONE), 10 * ONE);
    assert_eq!(lerp(2 * ONE, 4 * ONE, 500_000), 3 * ONE);
    assert_eq!(lerp(-ONE, ONE, 250_000), -500_000);
}

#[test]
fn vector_sum_and_difference() {
    let a = Vec2::new(1, 2);
    let b = Vec2::new(10, -20);
    assert_eq!(a.plus(b), Vec2::new(11, -18));
    assert_eq!(a.minus(b), Vec2::new(-9, 22));
    assert_eq!(Vec2::zero(), Vec2::new(0, 0));
    assert_eq!(Vec2::new(i64::MAX, i64::MIN).plus(Vec2::new(1, -1)), Vec2::new(i64::MAX, i64::MIN));
}

#[test]
fn rect_contains_its_left_and_top_edges_only() {
    let r = Rect::new(10, 20, 30, 40);
    assert!(r.contains(Vec2::new(10, 20)));
    assert!(r.contains(Vec2::new(39, 59)));
    assert!(!r.contains(Vec2::new(40, 20)));
    assert!(!r.contains(Vec2::new(10, 60)));
    assert!(!r.contains(Vec2::new(9, 20)));
    assert!(!r.contains(Vec2::new(10, 19)));
}

#[test]
fn rects_that_touch_overlap() {
    let r = Rect::new(0, 0, 10, 10);
    assert!(r.overlaps(Rect::new(10, 10, 5, 5)));
    assert!(r.overlaps(Rect::new(-5, -5, 5, 5)));
    assert!(r.overlaps(Rect::new(2, 2, 1, 1)));
    assert!(!r.overlaps(Rect::new(11, 0, 5, 5)));
    assert!(!r.overlaps(Rect::new(0, 11, 5, 5)));
    assert!(!r.overlaps(Rect::new(-6, 0, 5, 5)));
    assert!(Rect::new(2, 2, 1, 1).overlaps(r));
}

#[test]
fn rect_at_the_edge_of_the_numbers() {
    let r = Rect::new(i64::MAX - 1, i64::MAX - 1, i64::MAX, i64::MAX);
    assert!(r.contains(Vec2::new(i64::MAX, i64::MAX)));
    assert!(r.overlaps(Rect::new(0, 0, i64::MAX, i64::MAX)));
}

#[test]
fn rect_around_a_point() {
    assert_eq!(Rect::around(Vec2::new(100, 200), 50), Rect::new(50, 150, 100, 100));
}

#[test]
fn rect_of_two_points() {
    assert_eq!(two_points_rect(Vec2::new(5, 9), Vec2::new(1, 20)), Rect::new(1, 9, 4, 11));
    assert_eq!(two_points_rect(Vec2::new(1, 20), Vec2::new(5, 9)), Rect::new(1, 9, 4, 11));
    assert_eq!(two_points_rect(Vec2::new(3, 3), Vec2::new(3, 3)), Rect::new(3, 3, 0, 0));
}

#[test]
fn padding_grows_a_rect_on_every_side() {
    assert_eq!(add_rect_padding(Rect::new(10, 10, 4, 6), 3), Rect::new(7, 7, 10, 12));
    assert_eq!(add_rect_padding(Rect::new(10, 10, 4, 6), 0), Rect::new(10, 10, 4, 6));
}

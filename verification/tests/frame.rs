use rolly_polly::fixed::ONE;
use rolly_polly::frame::{ContinuousFrame, Transition, Tween};

fn between(time: i64, duration: u32, forward: bool) -> Transition {
    Transition::Between { time, duration, forward }
}

#[test]
fn continuous_frame_wraps_at_one() {
    assert_eq!(ContinuousFrame::new(0).get(), 0);
    assert_eq!(ContinuousFrame::new(250_000).get(), 250_000);
    assert_eq!(ContinuousFrame::new(ONE).get(), 0);
    assert_eq!(ContinuousFrame::new(ONE + 1).get(), 1);
    assert_eq!(ContinuousFrame::new(3 * ONE + 700_000).get(), 700_000);
}

#[test]
fn continuous_frame_wraps_below_zero() {
    assert_eq!(ContinuousFrame::new(-1).get(), ONE - 1);
    assert_eq!(ContinuousFrame::new(-250_000).get(), 750_000);
    assert_eq!(ContinuousFrame::new(-ONE).get(), 0);
    assert_eq!(ContinuousFrame::new(-ONE - 1).get(), ONE - 1);
    assert_eq!(ContinuousFrame::new(i64::MIN).get(), i64::MIN.rem_euclid(ONE));
    assert_eq!(ContinuousFrame::new(i64::MAX).get(), i64::MAX.rem_euclid(ONE));
}

#[test]
fn continuous_frame_arithmetic() {
    let f = ContinuousFrame::new(900_000);
    assert_eq!(f.plus(200_000).get(), 100_000);
    assert_eq!(f.minus(950_000).get(), 950_000);
    assert_eq!(f.times(2 * ONE).get(), 800_000);
    assert_eq!(f.times(500_000).get(), 450_000);
    assert_eq!(f.over(2 * ONE).get(), 450_000);
    assert_eq!(f.over(500_000).get(), 800_000);
    // a negative divisor turns the position round: -0.45 wraps to 0.55
    assert_eq!(f.over(-2 * ONE).get(), 550_000);
    assert_eq!(f.over(-500_000).get(), 200_000);
    assert_eq!(f.over(i64::MIN).get(), 0);
    assert_eq!(f.over(-1).get(), 0);
}

#[test]
fn ends_do_not_tick() {
    let mut start = Transition::Start;
    start.tick(16_667);
    assert_eq!(start, Transition::Start);
    let mut end = Transition::End;
    end.tick(u32::MAX);
    assert_eq!(end, Transition::End);
}

#[test]
fn tick_moves_a_backward_run_down() {
    let mut t = between(ONE, 300_000, false);
    t.tick(30_000);
    assert_eq!(t, between(900_000, 300_000, false));
    t.tick(15_000);
    assert_eq!(t, between(850_000, 300_000, false));
}

#[test]
fn tick_moves_a_forward_run_up() {
    let mut t = between(0, 300_000, true);
    t.tick(30_000);
    assert_eq!(t, between(100_000, 300_000, true));
}

#[test]
fn tick_step_is_rounded_down() {
    let mut t = between(ONE, 300_000, false);
    t.tick(16_667);
    assert_eq!(t, between(ONE - 55_556, 300_000, false));
}

#[test]
fn time_below_zero_snaps_to_end() {
    let mut t = between(100_000, 300_000, false);
    t.tick(30_001);
    assert_eq!(t, Transition::End);
}

#[test]
fn time_above_one_snaps_to_start() {
    let mut t = between(900_000, 300_000, true);
    t.tick(30_001);
    assert_eq!(t, Transition::Start);
}

#[test]
fn time_exactly_at_an_end_stays_between() {
    let mut down = between(100_000, 300_000, false);
    down.tick(30_000);
    assert_eq!(down, between(0, 300_000, false));
    let mut up = between(900_000, 300_000, true);
    up.tick(30_000);
    assert_eq!(up, between(ONE, 300_000, true));
}

#[test]
fn tick_never_leaves_the_whole() {
    let deltas = [0u32, 1, 16_667, 299_999, 300_000, 300_001, 1_000_000, u32::MAX];
    let times = [0i64, 1, 500_000, ONE - 1, ONE];
    for &delta in deltas.iter() {
        for &time in times.iter() {
            for &forward in [true, false].iter() {
                for &duration in [0u32, 1, 300_000, u32::MAX].iter() {
                    let mut t = between(time, duration, forward);
                    t.tick(delta);
                    match t {
                        Transition::Between { time, .. } => assert!(0 <= time && time <= ONE),
                        _ => {}
                    }
                    assert!(0 <= t.get() && t.get() <= ONE);
                }
            }
        }
    }
}

#[test]
fn ill_formed_time_is_snapped_by_the_next_tick() {
    let mut below = between(-5, 300_000, true);
    below.tick(0);
    assert_eq!(below, Transition::End);
    let mut above = between(ONE + 5, 300_000, false);
    above.tick(0);
    assert_eq!(above, Transition::Start);
}

#[test]
fn a_run_of_no_duration_ends_at_once() {
    let mut down = between(ONE, 0, false);
    down.tick(1);
    assert_eq!(down, Transition::End);
    let mut up = between(0, 0, true);
    up.tick(1);
    assert_eq!(up, Transition::Start);
    let mut waits = between(400_000, 0, false);
    waits.tick(0);
    assert_eq!(waits, between(400_000, 0, false));
}

#[test]
fn run_starts_from_the_far_end_only() {
    let mut t = Transition::Start;
    t.run(300_000, true);
    assert_eq!(t, Transition::Start);
    t.run(300_000, false);
    assert_eq!(t, between(ONE, 300_000, false));
    let mut t = Transition::End;
    t.run(300_000, false);
    assert_eq!(t, Transition::End);
    t.run(300_000, true);
    assert_eq!(t, between(0, 300_000, true));
}

#[test]
fn run_turns_a_run_round_where_it_is() {
    let mut t = between(400_000, 300_000, false);
    t.run(500_000, true);
    assert_eq!(t, between(400_000, 500_000, true));
    t.run(300_000, false);
    assert_eq!(t, between(400_000, 300_000, false));
}

#[test]
fn get_reads_the_progress() {
    assert_eq!(Transition::Start.get(), ONE);
    assert_eq!(Transition::End.get(), 0);
    assert_eq!(between(123_456, 1, false).get(), 123_456);
}

#[test]
fn a_backward_run_ends_after_its_duration() {
    let mut t = Transition::Start;
    t.run(300_000, false);
    let mut elapsed = 0u32;
    while elapsed <= 300_000 {
        assert!(t != Transition::End);
        t.tick(10_000);
        elapsed += 10_000;
    }
    assert_eq!(t, Transition::End);
    t.tick(10_000);
    assert_eq!(t, Transition::End);
}

#[test]
fn tween_starts_at_rest() {
    let t = Tween::new(ONE, 50_000);
    assert_eq!(t.get(), ONE);
    assert_eq!(t.target, ONE);
    assert_eq!(t.half_life, 50_000);
}

#[test]
fn tween_moves_by_a_share_of_the_distance() {
    let mut t = Tween::new(ONE, 50_000);
    t.set(-ONE);
    assert_eq!(t.get(), ONE);
    t.tick(10_000);
    // distance -2, times 10 ms over 2 * 50 ms
    assert_eq!(t.get(), ONE - 200_000);
    t.tick(10_000);
    assert_eq!(t.get(), 800_000 - 180_000);
}

#[test]
fn tween_reaches_its_target_in_twice_the_half_life() {
    let mut t = Tween::new(0, 50_000);
    t.set(ONE);
    t.tick(100_000);
    assert_eq!(t.get(), ONE);
}

#[test]
fn tween_overshoots_on_a_long_tick() {
    let mut t = Tween::new(0, 50_000);
    t.set(ONE);
    t.tick(200_000);
    assert_eq!(t.get(), 2 * ONE);
}

#[test]
fn tween_stays_between_on_short_ticks() {
    let mut t = Tween::new(ONE, 50_000);
    t.set(-ONE);
    let mut last = t.get();
    for _ in 0..200 {
        t.tick(16_667);
        assert!(t.get() <= last);
        assert!(t.get() >= -ONE);
        last = t.get();
    }
    assert!(last < -990_000);
}

#[test]
fn tween_without_half_life_jumps() {
    let mut t = Tween::new(5, 0);
    t.set(77);
    t.tick(0);
    assert_eq!(t.get(), 77);
}

#[test]
fn tween_saturates() {
    let mut t = Tween::new(i64::MIN, 1);
    t.set(i64::MAX);
    t.tick(u32::MAX);
    assert_eq!(t.get(), i64::MAX);
}

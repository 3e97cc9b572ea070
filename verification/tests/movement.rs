use rolly_polly::fixed::ONE;
use rolly_polly::geometry::Vec2;
use rolly_polly::movement::{launch, move_polly, water_velocity, Input, Kinematics};

fn keys(left: bool, right: bool, jump: bool) -> Input {
    Input { left, right, jump, swap: false, reset: false }
}

fn motion(vx: i64, vy: i64, angvel: i64, rotation: i64) -> Kinematics {
    Kinematics { translation: Vec2::new(11, 22), rotation, linvel: Vec2::new(vx, vy), angvel }
}

const DT: u32 = 10_000;
const AIR: [bool; 3] = [false, false, false];
const GROUND: [bool; 3] = [true, true, true];

#[test]
fn nothing_moves_a_polly_on_three_feet_at_rest() {
    let k = motion(0, 0, 0, 0);
    assert_eq!(move_polly(k, true, GROUND, keys(false, false, false), DT), k);
}

#[test]
fn jump_needs_the_middle_foot() {
    let k = motion(500_000, 100_000, 300_000, 0);
    let jumped = move_polly(k, true, [true, true, true], keys(false, false, true), 0);
    assert_eq!(jumped.linvel, Vec2::new(500_000, -4 * ONE));
    assert_eq!(jumped.angvel, 0);
    let sides_only = move_polly(k, true, [true, false, true], keys(false, false, true), 0);
    assert_eq!(sides_only.linvel, k.linvel);
    assert_eq!(sides_only.angvel, k.angvel);
}

#[test]
fn the_dead_do_not_jump_or_walk() {
    let k = motion(0, 0, 0, 0);
    let next = move_polly(k, false, GROUND, keys(false, true, true), DT);
    assert_eq!(next, k);
}

#[test]
fn keys_accelerate_in_the_air() {
    let k = motion(0, 0, 0, 0);
    // 3 m/s^2 for 10 ms; in the air with no side foot down Polly rights
    // itself, which changes nothing at rest
    let right = move_polly(k, true, AIR, keys(false, true, false), DT);
    assert_eq!(right.linvel, Vec2::new(30_000, 0));
    let left = move_polly(k, true, AIR, keys(true, false, false), DT);
    assert_eq!(left.linvel, Vec2::new(-30_000, 0));
    let both = move_polly(k, true, AIR, keys(true, true, false), DT);
    assert_eq!(both.linvel, Vec2::new(0, 0));
}

#[test]
fn keys_accelerate_more_on_the_ground_and_lift() {
    let k = motion(0, 0, 0, 0);
    let next = move_polly(k, true, GROUND, keys(false, true, false), DT);
    // 6 m/s^2 for 10 ms are 60 000; then the ground takes 0.8 * 10 ms of it
    assert_eq!(next.linvel, Vec2::new(60_000 - 480, -60_000 + 480));
}

#[test]
fn keys_stop_accelerating_at_top_speed() {
    let fast = motion(2 * ONE, 0, 0, 0);
    let next = move_polly(fast, true, AIR, keys(false, true, false), DT);
    assert_eq!(next.linvel.x, 2 * ONE);
    let almost = motion(2 * ONE - 1, 0, 0, 0);
    let next = move_polly(almost, true, AIR, keys(false, true, false), DT);
    assert_eq!(next.linvel.x, 2 * ONE - 1 + 30_000);
    let backward = motion(-2 * ONE, 0, 0, 0);
    let next = move_polly(backward, true, AIR, keys(false, true, false), DT);
    assert_eq!(next.linvel.x, -2 * ONE);
}

#[test]
fn the_ground_damps_even_the_dead() {
    let k = motion(ONE, -ONE, 700_000, 0);
    let next = move_polly(k, false, GROUND, keys(false, false, false), DT);
    assert_eq!(next.linvel, Vec2::new(ONE - 8_000, -ONE + 8_000));
    assert_eq!(next.angvel, 700_000);
}

#[test]
fn damping_rounds_toward_zero() {
    let k = motion(124, -124, 0, 0);
    // 124 * 0.008 = 0.992
    let next = move_polly(k, true, GROUND, keys(false, false, false), DT);
    assert_eq!(next.linvel, Vec2::new(124, -124));
    let k = motion(125, -125, 0, 0);
    let next = move_polly(k, true, GROUND, keys(false, false, false), DT);
    assert_eq!(next.linvel, Vec2::new(124, -124));
}

#[test]
fn polly_rights_itself_in_the_air() {
    let k = motion(0, 0, 5 * ONE, 1_000_000);
    let next = move_polly(k, true, AIR, keys(false, false, false), DT);
    assert_eq!(next.angvel, 0);
    assert_eq!(next.rotation, 700_000);
    let k = motion(0, 0, 5 * ONE, -1_000_005);
    let next = move_polly(k, true, AIR, keys(false, false, false), DT);
    assert_eq!(next.rotation, -700_003);
    // not the dead
    let dead = move_polly(k, false, AIR, keys(false, false, false), DT);
    assert_eq!(dead, k);
}

#[test]
fn a_single_side_foot_rolls_polly_off_the_edge() {
    let k = motion(0, 0, 100, 500_000);
    let on_left = move_polly(k, true, [true, false, false], keys(false, false, false), DT);
    assert_eq!(on_left.angvel, 100 + 2 * ONE);
    assert_eq!(on_left.rotation, 500_000);
    let on_right = move_polly(k, true, [false, false, true], keys(false, false, false), DT);
    assert_eq!(on_right.angvel, 100 - 2 * ONE);
    let on_both = move_polly(k, true, [true, false, true], keys(false, false, false), DT);
    assert_eq!(on_both.angvel, 100);
    let dead = move_polly(k, false, [true, false, false], keys(false, false, false), DT);
    assert_eq!(dead.angvel, 100);
}

#[test]
fn the_position_is_not_touched() {
    let k = motion(ONE, ONE, ONE, ONE);
    let next = move_polly(k, true, GROUND, keys(true, false, true), DT);
    assert_eq!(next.translation, Vec2::new(11, 22));
}

#[test]
fn movement_saturates() {
    let k = motion(i64::MAX, i64::MIN, i64::MAX, i64::MIN);
    let next = move_polly(k, true, [true, true, false], keys(true, false, false), u32::MAX);
    assert_eq!(next.angvel, i64::MAX);
    assert!(next.linvel.x <= 0);
    assert!(next.linvel.y >= 0);
}

#[test]
fn water_slows_and_sinks() {
    // half of the velocity per second, for 10 ms; 8 m/s^2 downward
    let next = water_velocity(Vec2::new(ONE, -2 * ONE), DT);
    assert_eq!(next, Vec2::new(ONE - 5_000, -2 * ONE + 10_000 + 80_000));
}

#[test]
fn water_takes_no_more_than_all() {
    let next = water_velocity(Vec2::new(ONE, ONE), 4_000_000);
    assert_eq!(next, Vec2::new(0, 32 * ONE));
    let next = water_velocity(Vec2::new(ONE, -ONE), 2_000_000);
    assert_eq!(next, Vec2::new(0, 16 * ONE));
    let next = water_velocity(Vec2::new(ONE, 0), 1_000_000);
    assert_eq!(next, Vec2::new(ONE / 2, 8 * ONE));
}

#[test]
fn still_water() {
    assert_eq!(water_velocity(Vec2::new(7, -7), 0), Vec2::new(7, -7));
}

#[test]
fn launch_lifts_and_throws_along_up() {
    let (pos, linvel) = launch(Vec2::new(3 * ONE, 5 * ONE), Vec2::new(0, -ONE));
    // 45 pixels are 75 000 micrometres
    assert_eq!(pos, Vec2::new(3 * ONE, 5 * ONE - 75_000));
    assert_eq!(linvel, Vec2::new(0, -4 * ONE));
    let (pos, linvel) = launch(Vec2::new(0, 0), Vec2::new(600_000, -800_000));
    assert_eq!(pos, Vec2::new(45_000, -60_000));
    assert_eq!(linvel, Vec2::new(2_400_000, -3_200_000));
}

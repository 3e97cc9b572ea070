//! How Polly moves: the rules that turn a frame's keys and the state of
//! the feet into new velocities.
//!
//! The y axis points down: a jump has a negative y velocity.

use crate::fixed::{clamp64, clamp_wide, div_wide, magnitude, sat_add, sat_sub, trunc_div};
use crate::geometry::Vec2;
use vstd::prelude::*;

verus! {

/// Acceleration by the keys in the air, in millionths of a metre per
/// second squared.
pub const PLAYER_VEL_X: i64 = 3_000_000;

/// Acceleration by the keys on the ground.
pub const PLAYER_VEL_X_GROUNDED: i64 = 6_000_000;

/// The speed of a jump.
pub const PLAYER_VEL_Y: i64 = 4_000_000;

/// The speed beyond which the keys accelerate no more.
pub const PLAYER_MAX_VEL: i64 = 2_000_000;

/// The speed at which a respawn throws the player off the checkpoint.
pub const PLAYER_RESPAWN_BOOST: i64 = 4_000_000;

/// The share of its velocity that the ground takes from Polly per second,
/// in millionths.
pub const GROUND_DAMPING: i64 = 800_000;

/// The angular velocity that a single grounded side foot adds per frame,
/// in millionths of a radian per second.
pub const EDGE_ROLL: i64 = 2_000_000;

/// The tenths of its rotation that Polly keeps per frame while it rights
/// itself in the air.
pub const UPRIGHT_KEEP_TENTHS: i64 = 7;

/// The share of its velocity that water takes from the player per second,
/// in millionths.
pub const WATER_DAMPING: i64 = 500_000;

/// The acceleration with which the player sinks in water.
pub const WATER_SINK: i64 = 8_000_000;

/// The keys of one frame, as far as the player is concerned.
#[derive(Debug, Clone, Copy, PartialEq, Eq, Structural)]
pub struct Input {
    /// Held: walk left.
    pub left: bool,
    /// Held: walk right.
    pub right: bool,
    /// Pressed in this frame: jump.
    pub jump: bool,
    /// Pressed in this frame: change shape.
    pub swap: bool,
    /// Pressed in this frame: give up and respawn.
    pub reset: bool,
}

/// The motion of a body: where it is, how it is turned, and how fast it
/// moves and turns. Angles are millionths of a radian.
#[derive(Debug, Clone, Copy, PartialEq, Eq, Structural)]
pub struct Kinematics {
    pub translation: Vec2,
    pub rotation: i64,
    pub linvel: Vec2,
    pub angvel: i64,
}

/// The direction that the keys ask for: 1 for right alone, -1 for left
/// alone, 0 for neither or both.
pub open spec fn key_direction(input: Input) -> int {
    if input.right && !input.left {
        1
    } else if input.left && !input.right {
        -1
    } else {
        0
    }
}

/// What a time step of `delta_time` microseconds adds to a velocity under
/// the acceleration `acceleration`.
pub open spec fn velocity_step(acceleration: i64, delta_time: u32) -> int {
    trunc_div(acceleration * delta_time, 1_000_000)
}

/// What a damping of `share` per second takes from the velocity `v` in a
/// time step of `delta_time` microseconds.
pub open spec fn damping_step(v: i64, share: i64, delta_time: u32) -> int {
    trunc_div(v * (share * delta_time), 1_000_000_000_000)
}

/// The velocities after a jump, if there is one: Polly jumps when the key
/// is pressed with the middle foot on the ground, and a jump stops its
/// turning.
pub open spec fn after_jump(k: Kinematics, alive: bool, feet: [bool; 3], input: Input) -> Kinematics {
    if alive && input.jump && feet[1] {
        Kinematics { linvel: Vec2 { x: k.linvel.x, y: (-PLAYER_VEL_Y) as i64 }, angvel: 0, ..k }
    } else {
        k
    }
}

/// The velocities after the keys have pushed. The keys accelerate Polly
/// sideways while it is slower than the top speed, more strongly on the
/// ground than in the air; on the ground the push also lifts it by as
/// much.
pub open spec fn after_push(
    k: Kinematics,
    alive: bool,
    feet: [bool; 3],
    input: Input,
    delta_time: u32,
) -> Kinematics {
    let direction = key_direction(input);
    if !alive || direction == 0 {
        k
    } else {
        let step = velocity_step(
            if feet[1] {
                PLAYER_VEL_X_GROUNDED
            } else {
                PLAYER_VEL_X
            },
            delta_time,
        );
        let x = if magnitude(k.linvel.x as int) < PLAYER_MAX_VEL {
            clamp64(k.linvel.x + step * direction)
        } else {
            k.linvel.x
        };
        let y = if feet[1] {
            clamp64(k.linvel.y - step)
        } else {
            k.linvel.y
        };
        Kinematics { linvel: Vec2 { x, y }, ..k }
    }
}

/// The motion after the ground or the air has had its say. On the ground
/// Polly loses a share of its velocity. In the air with neither side foot
/// down, a living Polly stops turning and rights itself by a share of its
/// rotation.
pub open spec fn after_ground(k: Kinematics, alive: bool, feet: [bool; 3], delta_time: u32) -> Kinematics {
    if feet[1] {
        Kinematics {
            linvel: Vec2 {
                x: clamp64(k.linvel.x - damping_step(k.linvel.x, GROUND_DAMPING, delta_time)),
                y: clamp64(k.linvel.y - damping_step(k.linvel.y, GROUND_DAMPING, delta_time)),
            },
            ..k
        }
    } else if alive && !feet[0] && !feet[2] {
        Kinematics {
            angvel: 0,
            rotation: trunc_div(k.rotation * UPRIGHT_KEEP_TENTHS, 10) as i64,
            ..k
        }
    } else {
        k
    }
}

/// The motion after the edge rule: a living Polly with one side foot on
/// the ground and the other in the air is turned away from the foot that
/// stands.
pub open spec fn after_edge(k: Kinematics, alive: bool, feet: [bool; 3]) -> Kinematics {
    if alive && feet[0] && !feet[2] {
        Kinematics { angvel: clamp64(k.angvel + EDGE_ROLL), ..k }
    } else if alive && !feet[0] && feet[2] {
        Kinematics { angvel: clamp64(k.angvel - EDGE_ROLL), ..k }
    } else {
        k
    }
}

/// Polly's motion after one frame of the movement rules: the jump, the
/// push of the keys, the ground or the air, and the edge rule, in this
/// order. `alive` says whether the player is alive and settled; a player
/// that is not is deaf to the keys. The position is not touched.
pub open spec fn moved(
    k: Kinematics,
    alive: bool,
    feet: [bool; 3],
    input: Input,
    delta_time: u32,
) -> Kinematics {
    after_edge(
        after_ground(
            after_push(after_jump(k, alive, feet, input), alive, feet, input, delta_time),
            alive,
            feet,
            delta_time,
        ),
        alive,
        feet,
    )
}

/// A player that is not alive and settled is deaf to the keys: whatever
/// is held or pressed, Polly moves as with no key at all.
pub proof fn lemma_keys_need_life(k: Kinematics, feet: [bool; 3], input: Input, delta_time: u32)
    ensures
        moved(k, false, feet, input, delta_time) == moved(
            k,
            false,
            feet,
            Input { left: false, right: false, jump: false, swap: false, reset: false },
            delta_time,
        ),
{
}

/// Without the middle foot on the ground the jump key does nothing.
pub proof fn lemma_jump_needs_ground(
    k: Kinematics,
    alive: bool,
    feet: [bool; 3],
    input: Input,
    delta_time: u32,
)
    requires
        !feet[1],
    ensures
        moved(k, alive, feet, input, delta_time) == moved(
            k,
            alive,
            feet,
            Input { jump: false, ..input },
            delta_time,
        ),
{
}

/// At the top speed or beyond it, the keys no longer change the sideways
/// velocity of a Polly in the air.
pub proof fn lemma_top_speed(k: Kinematics, alive: bool, feet: [bool; 3], input: Input, delta_time: u32)
    requires
        !feet[1],
        magnitude(k.linvel.x as int) >= PLAYER_MAX_VEL,
    ensures
        moved(k, alive, feet, input, delta_time).linvel.x == k.linvel.x,
{
}

/// Computes [`velocity_step`] for an acceleration that is not negative.
fn step_of(acceleration: i64, delta_time: u32) -> (step: i64)
    requires
        0 <= acceleration <= 0x1_0000_0000,
    ensures
        step == velocity_step(acceleration, delta_time),
        0 <= step <= 0x1_0000_0000_0000_0000_0000,
{
    assert(0 <= acceleration * delta_time <= 0x1_0000_0000 * 0x1_0000_0000) by (nonlinear_arith)
        requires
            0 <= acceleration <= 0x1_0000_0000,
            0 <= delta_time <= 0x1_0000_0000,
    ;
    let product: i128 = (acceleration as i128) * (delta_time as i128);
    let step = div_wide(product, 1_000_000);
    step as i64
}

/// Computes [`damping_step`] for a share between nothing and the whole.
fn damping_of(v: i64, share: i64, delta_time: u32) -> (step: i128)
    requires
        0 <= share <= 1_000_000,
    ensures
        step == damping_step(v, share, delta_time),
        -0x1_0000_0000_0000_0000_0000_0000 <= step <= 0x1_0000_0000_0000_0000_0000_0000,
{
    assert(0 <= share * delta_time <= 1_000_000 * 0x1_0000_0000) by (nonlinear_arith)
        requires
            0 <= share <= 1_000_000,
            0 <= delta_time <= 0x1_0000_0000,
    ;
    let factor: i128 = (share as i128) * (delta_time as i128);
    assert(-0x8000_0000_0000_0000 * (1_000_000 * 0x1_0000_0000) <= v * factor
        <= 0x8000_0000_0000_0000 * (1_000_000 * 0x1_0000_0000)) by (nonlinear_arith)
        requires
            -0x8000_0000_0000_0000 <= v <= 0x8000_0000_0000_0000,
            0 <= factor <= 1_000_000 * 0x1_0000_0000,
    ;
    let product: i128 = (v as i128) * factor;
    let step = div_wide(product, 1_000_000_000_000);
    step
}

/// Applies the movement rules of one frame to Polly's motion.
pub fn move_polly(k: Kinematics, alive: bool, feet: [bool; 3], input: Input, delta_time: u32) -> (next:
    Kinematics)
    ensures
        next == moved(k, alive, feet, input, delta_time),
        next.translation == k.translation,
{
    let mut linvel = k.linvel;
    let mut angvel = k.angvel;
    let mut rotation = k.rotation;
    let center = feet[1];
    let left = feet[0];
    let right = feet[2];
    if alive && input.jump && center {
        linvel.y = -PLAYER_VEL_Y;
        angvel = 0;
    }
    let ghost jumped = after_jump(k, alive, feet, input);
    assert(jumped == (Kinematics { linvel, angvel, rotation, translation: k.translation }));
    let direction: i64 = if input.right && !input.left {
        1
    } else if input.left && !input.right {
        -1
    } else {
        0
    };
    if alive && direction != 0 {
        let step = step_of(
            if center {
                PLAYER_VEL_X_GROUNDED
            } else {
                PLAYER_VEL_X
            },
            delta_time,
        );
        let speed: i128 = if linvel.x < 0 {
            -(linvel.x as i128)
        } else {
            linvel.x as i128
        };
        if speed < PLAYER_MAX_VEL as i128 {
            linvel.x = clamp_wide(linvel.x as i128 + (step as i128) * (direction as i128));
        }
        if center {
            linvel.y = sat_sub(linvel.y, step);
        }
    }
    let ghost pushed = after_push(jumped, alive, feet, input, delta_time);
    assert(pushed == (Kinematics { linvel, angvel, rotation, translation: k.translation }));
    if center {
        let dx = damping_of(linvel.x, GROUND_DAMPING, delta_time);
        let dy = damping_of(linvel.y, GROUND_DAMPING, delta_time);
        linvel.x = clamp_wide(linvel.x as i128 - dx);
        linvel.y = clamp_wide(linvel.y as i128 - dy);
    } else if alive && !left && !right {
        angvel = 0;
        proof {
            crate::fixed::lemma_product_bound(rotation as int, UPRIGHT_KEEP_TENTHS as int);
        }
        let scaled = div_wide((rotation as i128) * (UPRIGHT_KEEP_TENTHS as i128), 10);
        assert(magnitude(scaled as int) <= magnitude(rotation as int)) by {
            let m = magnitude(rotation * UPRIGHT_KEEP_TENTHS);
            let mr = magnitude(rotation as int);
            assert(m == mr * 7) by (nonlinear_arith)
                requires
                    m == magnitude(rotation * 7),
                    mr == magnitude(rotation as int),
            ;
            assert((mr * 7) / 10 <= mr) by (nonlinear_arith)
                requires
                    mr >= 0,
            ;
        }
        rotation = scaled as i64;
    }
    let ghost grounded = after_ground(pushed, alive, feet, delta_time);
    assert(grounded == (Kinematics { linvel, angvel, rotation, translation: k.translation }));
    if alive {
        if left && !right {
            angvel = sat_add(angvel, EDGE_ROLL);
        } else if !left && right {
            angvel = sat_sub(angvel, EDGE_ROLL);
        }
    }
    Kinematics { translation: k.translation, rotation, linvel, angvel }
}

/// The share of a velocity that water takes in a time step, in
/// millionths: half of it per second, and never more than all of it.
pub open spec fn water_share(delta_time: u32) -> int {
    if delta_time / 2 > 1_000_000 {
        1_000_000
    } else {
        (delta_time / 2) as int
    }
}

/// The velocity of a body in water after a time step: it loses the share
/// that water takes, and it sinks.
pub open spec fn in_water_velocity(linvel: Vec2, delta_time: u32) -> Vec2 {
    let share = water_share(delta_time);
    let x = clamp64(linvel.x - trunc_div(linvel.x * share, 1_000_000));
    let y = clamp64(linvel.y - trunc_div(linvel.y * share, 1_000_000));
    Vec2 { x, y: clamp64(y + velocity_step(WATER_SINK, delta_time)) }
}

/// Computes [`in_water_velocity`].
pub fn water_velocity(linvel: Vec2, delta_time: u32) -> (next: Vec2)
    ensures
        next == in_water_velocity(linvel, delta_time),
{
    let half: u32 = delta_time / 2;
    let share: i64 = if half > 1_000_000 {
        1_000_000
    } else {
        half as i64
    };
    let x = sat_sub(linvel.x, crate::fixed::mul_div(linvel.x, share, 1_000_000));
    let y = sat_sub(linvel.y, crate::fixed::mul_div(linvel.y, share, 1_000_000));
    proof {
        crate::fixed::lemma_share_shrinks(linvel.x, share as int, 1_000_000);
        crate::fixed::lemma_share_shrinks(linvel.y, share as int, 1_000_000);
    }
    Vec2 { x, y: sat_add(y, step_of(WATER_SINK, delta_time)) }
}

/// Where and how fast a respawn puts the player: lifted off the checkpoint
/// along `up` and thrown along it. `up` is the direction away from the
/// checkpoint's surface, a vector of length `ONE`.
pub open spec fn launched(anchor: Vec2, up: Vec2) -> (Vec2, Vec2) {
    (
        Vec2 {
            x: clamp64(anchor.x + trunc_div(up.x * RESPAWN_LIFT, 1_000_000)),
            y: clamp64(anchor.y + trunc_div(up.y * RESPAWN_LIFT, 1_000_000)),
        },
        Vec2 {
            x: clamp64(trunc_div(up.x * PLAYER_RESPAWN_BOOST, 1_000_000)),
            y: clamp64(trunc_div(up.y * PLAYER_RESPAWN_BOOST, 1_000_000)),
        },
    )
}

/// How far above a checkpoint the player appears: 45 pixels.
pub const RESPAWN_LIFT: i64 = 75_000;

/// Computes [`launched`]: the position and the velocity that a respawn
/// gives the player.
pub fn launch(anchor: Vec2, up: Vec2) -> (placed: (Vec2, Vec2))
    ensures
        placed == launched(anchor, up),
{
    let lift_x = crate::fixed::mul_div(up.x, RESPAWN_LIFT, 1_000_000);
    let lift_y = crate::fixed::mul_div(up.y, RESPAWN_LIFT, 1_000_000);
    proof {
        crate::fixed::lemma_share_shrinks(up.x, RESPAWN_LIFT as int, 1_000_000);
        crate::fixed::lemma_share_shrinks(up.y, RESPAWN_LIFT as int, 1_000_000);
    }
    (
        Vec2 { x: sat_add(anchor.x, lift_x), y: sat_add(anchor.y, lift_y) },
        Vec2 {
            x: crate::fixed::mul_div(up.x, PLAYER_RESPAWN_BOOST, 1_000_000),
            y: crate::fixed::mul_div(up.y, PLAYER_RESPAWN_BOOST, 1_000_000),
        },
    )
}

} // verus!

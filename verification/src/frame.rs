//! Time-driven animation state: a wrapping frame counter, a two-ended
//! transition and an exponential tween.
//!
//! Progress values are millionths of the whole; times are microseconds.

use crate::fixed::{
    clamp64, clamp_wide, div_wide, mul_div, sat_add, sat_sub, signed_div, trunc_div, ONE,
};
use vstd::prelude::*;

verus! {

/// The remainder of `v` in `[0, ONE)`.
pub open spec fn wrap_unit(v: int) -> int {
    v % (ONE as int)
}

/// A frame position that wraps around at one whole.
#[derive(Debug, Clone, Copy, PartialEq)]
pub struct ContinuousFrame(i64);

impl ContinuousFrame {
    #[verifier::type_invariant]
    spec fn in_range(self) -> bool {
        0 <= self.0 < ONE
    }

    /// The position, in `[0, ONE)`.
    pub closed spec fn value(self) -> int {
        self.0 as int
    }

    pub fn new(val: i64) -> (r: Self)
        ensures
            r.value() == wrap_unit(val as int),
    {
        if val >= 0 {
            ContinuousFrame(val % ONE)
        } else {
            let below: i64 = -(val + 1);
            let m: i64 = below % ONE;
            ContinuousFrame(ONE - 1 - m)
        }
    }

    pub fn get(&self) -> (r: i64)
        ensures
            r == self.value(),
            0 <= r < ONE,
    {
        proof {
            use_type_invariant(self);
        }
        self.0
    }

    /// The position moved forward by `rhs`.
    pub fn plus(self, rhs: i64) -> (r: Self)
        ensures
            r.value() == wrap_unit(clamp64(self.value() + rhs) as int),
    {
        Self::new(sat_add(self.0, rhs))
    }

    /// The position moved back by `rhs`.
    pub fn minus(self, rhs: i64) -> (r: Self)
        ensures
            r.value() == wrap_unit(clamp64(self.value() - rhs) as int),
    {
        Self::new(sat_sub(self.0, rhs))
    }

    /// The position scaled by the factor `rhs`, given in millionths.
    pub fn times(self, rhs: i64) -> (r: Self)
        ensures
            r.value() == wrap_unit(clamp64(trunc_div(self.value() * rhs, ONE as int)) as int),
    {
        Self::new(mul_div(self.0, rhs, ONE))
    }

    /// The position divided by a factor `rhs` other than zero, given in
    /// millionths. A negative factor turns the position round before it
    /// wraps.
    pub fn over(self, rhs: i64) -> (r: Self)
        requires
            rhs != 0,
        ensures
            r.value() == wrap_unit(clamp64(signed_div(self.value() * ONE, rhs as int)) as int),
    {
        proof {
            use_type_invariant(&self);
        }
        if rhs > 0 {
            Self::new(mul_div(self.0, ONE, rhs))
        } else if rhs == i64::MIN {
            assert((self.0 * ONE) / 0x8000_0000_0000_0000 == 0) by (nonlinear_arith)
                requires
                    0 <= self.0 * ONE < 0x8000_0000_0000_0000,
            ;
            Self::new(0)
        } else {
            let against: i64 = -rhs;
            assert(0 <= (self.0 * ONE) / (against as int) <= self.0 * ONE) by (nonlinear_arith)
                requires
                    0 <= self.0 * ONE,
                    against > 0,
            ;
            let quotient = mul_div(self.0, ONE, against);
            Self::new(-quotient)
        }
    }
}

/// A transition between two ends. `Start` stands at one whole and `End` at
/// zero; a forward run moves from `End` toward `Start`, a backward run from
/// `Start` toward `End`.
#[derive(Debug, Clone, Copy, PartialEq, Eq, Structural)]
pub enum Transition {
    Start,
    End,
    Between {
        /// Progress in millionths, from `ONE` at `Start` down to 0 at `End`.
        time: i64,
        /// Length of a full run, in microseconds.
        duration: u32,
        forward: bool,
    },
}

/// How far a tick of `delta_time` moves a run of length `duration`, in
/// millionths of the run. A run of no length is covered by any tick that
/// takes time at all.
pub open spec fn tick_step(delta_time: u32, duration: u32) -> int {
    if duration == 0 {
        if delta_time == 0 {
            0
        } else {
            u64::MAX as int
        }
    } else {
        (delta_time * ONE) / (duration as int)
    }
}

impl Transition {
    /// A transition under way holds a progress within the whole.
    pub open spec fn wf(self) -> bool {
        self matches Transition::Between { time, .. } ==> 0 <= time <= ONE
    }

    /// The state after a tick of `delta_time`.
    pub open spec fn ticked(self, delta_time: u32) -> Transition {
        match self {
            Transition::Start => Transition::Start,
            Transition::End => Transition::End,
            Transition::Between { time, duration, forward } => {
                let step = tick_step(delta_time, duration);
                let moved = if forward {
                    time + step
                } else {
                    time - step
                };
                if moved < 0 {
                    Transition::End
                } else if moved > ONE {
                    Transition::Start
                } else {
                    Transition::Between { time: moved as i64, duration, forward }
                }
            },
        }
    }

    /// The state after a request to run for `duration` in the given
    /// direction.
    pub open spec fn ran(self, duration: u32, forward: bool) -> Transition {
        match self {
            Transition::Start => if forward {
                Transition::Start
            } else {
                Transition::Between { time: ONE, duration, forward }
            },
            Transition::End => if forward {
                Transition::Between { time: 0, duration, forward }
            } else {
                Transition::End
            },
            Transition::Between { time, .. } => Transition::Between { time, duration, forward },
        }
    }

    /// The progress as a number: `ONE` at `Start`, 0 at `End`.
    pub open spec fn progress(self) -> i64 {
        match self {
            Transition::Start => ONE,
            Transition::End => 0,
            Transition::Between { time, .. } => time,
        }
    }

    /// Advances a run by `delta_time`. A run that passes below zero snaps
    /// to `End`, one that passes above one whole snaps to `Start`; the two
    /// ends stay where they are.
    pub fn tick(&mut self, delta_time: u32)
        ensures
            *final(self) == old(self).ticked(delta_time),
            final(self).wf(),
    {
        match *self {
            Transition::Start => {},
            Transition::End => {},
            Transition::Between { time, duration, forward } => {
                if duration == 0 {
                    if delta_time != 0 {
                        *self = if forward {
                            Transition::Start
                        } else {
                            Transition::End
                        };
                    } else if time < 0 {
                        *self = Transition::End;
                    } else if time > ONE {
                        *self = Transition::Start;
                    }
                } else {
                    let scaled: u64 = (delta_time as u64) * 1_000_000;
                    let step: u64 = scaled / (duration as u64);
                    assert(step <= 0xffff_ffff * 1_000_000) by (nonlinear_arith)
                        requires
                            step == (delta_time * 1_000_000) / (duration as int),
                            duration > 0,
                            delta_time <= 0xffff_ffff,
                    ;
                    let moved: i128 = if forward {
                        time as i128 + step as i128
                    } else {
                        time as i128 - step as i128
                    };
                    if moved < 0 {
                        *self = Transition::End;
                    } else if moved > ONE as i128 {
                        *self = Transition::Start;
                    } else {
                        *self = Transition::Between { time: moved as i64, duration, forward };
                    }
                }
            },
        }
    }

    /// Asks for a run of `duration` in the given direction. An end that the
    /// run would lead to stays; the other end starts the run; a run under
    /// way keeps its progress and takes the new length and direction.
    pub fn run(&mut self, duration: u32, forward: bool)
        ensures
            *final(self) == old(self).ran(duration, forward),
            old(self).wf() ==> final(self).wf(),
    {
        match *self {
            Transition::Start => {
                if !forward {
                    *self = Transition::Between { time: ONE, duration, forward };
                }
            },
            Transition::End => {
                if forward {
                    *self = Transition::Between { time: 0, duration, forward };
                }
            },
            Transition::Between { time, .. } => {
                *self = Transition::Between { time, duration, forward };
            },
        }
    }

    pub fn get(&self) -> (r: i64)
        ensures
            r == self.progress(),
    {
        match self {
            Transition::Start => ONE,
            Transition::End => 0,
            Transition::Between { time, .. } => *time,
        }
    }

    /// The state after one tick for each of `deltas`, in order.
    pub open spec fn ticked_all(self, deltas: Seq<u32>) -> Transition
        decreases deltas.len(),
    {
        if deltas.len() == 0 {
            self
        } else {
            self.ticked(deltas[0]).ticked_all(deltas.drop_first())
        }
    }
}

/// The sum of the steps that the ticks `deltas` make on a run of `duration`.
pub open spec fn total_step(deltas: Seq<u32>, duration: u32) -> int
    decreases deltas.len(),
{
    if deltas.len() == 0 {
        0
    } else {
        tick_step(deltas[0], duration) + total_step(deltas.drop_first(), duration)
    }
}

/// Whatever the state and the tick, the state after a tick holds a
/// progress within the whole, and a state at an end stays there.
pub proof fn lemma_tick_bounds(t: Transition, delta_time: u32)
    ensures
        t.ticked(delta_time).wf(),
        0 <= t.ticked(delta_time).progress() <= ONE,
        t is Start ==> t.ticked(delta_time) is Start,
        t is End ==> t.ticked(delta_time) is End,
        t matches Transition::Between { time, duration, forward } ==> (!forward ==> time
            - tick_step(delta_time, duration) < 0 ==> t.ticked(delta_time) is End),
        t matches Transition::Between { time, duration, forward } ==> (forward ==> time
            + tick_step(delta_time, duration) > ONE ==> t.ticked(delta_time) is Start),
{
    assert(tick_step(delta_time, t->duration) >= 0) by {
        if t is Between && t->duration != 0 {
            assert((delta_time * ONE) / (t->duration as int) >= 0) by (nonlinear_arith)
                requires
                    delta_time >= 0,
                    t->duration > 0,
            ;
        }
    }
}

/// No tick moves a state at an end, however many follow.
pub proof fn lemma_ends_are_fixed(t: Transition, deltas: Seq<u32>)
    requires
        t is Start || t is End,
    ensures
        t.ticked_all(deltas) == t,
    decreases deltas.len(),
{
    if deltas.len() > 0 {
        lemma_ends_are_fixed(t, deltas.drop_first());
    }
}

/// A backward run reaches `End`, and stays there, once the steps of its
/// ticks add up to more than the progress it had left.
pub proof fn lemma_backward_run_ends(time: i64, duration: u32, deltas: Seq<u32>)
    requires
        0 <= time <= ONE,
        total_step(deltas, duration) > time,
    ensures
        (Transition::Between { time, duration, forward: false }).ticked_all(deltas) is End,
    decreases deltas.len(),
{
    let t = Transition::Between { time, duration, forward: false };
    if deltas.len() == 0 {
    } else {
        let next = t.ticked(deltas[0]);
        lemma_tick_bounds(t, deltas[0]);
        match next {
            Transition::End => {
                lemma_ends_are_fixed(next, deltas.drop_first());
            },
            Transition::Start => {},
            Transition::Between { time: left, .. } => {
                lemma_backward_run_ends(left, duration, deltas.drop_first());
            },
        }
    }
}

/// A forward run reaches `Start`, and stays there, once the steps of its
/// ticks add up to more than the progress it still had to make.
pub proof fn lemma_forward_run_starts(time: i64, duration: u32, deltas: Seq<u32>)
    requires
        0 <= time <= ONE,
        time + total_step(deltas, duration) > ONE,
    ensures
        (Transition::Between { time, duration, forward: true }).ticked_all(deltas) is Start,
    decreases deltas.len(),
{
    let t = Transition::Between { time, duration, forward: true };
    if deltas.len() == 0 {
    } else {
        let next = t.ticked(deltas[0]);
        lemma_tick_bounds(t, deltas[0]);
        match next {
            Transition::Start => {
                lemma_ends_are_fixed(next, deltas.drop_first());
            },
            Transition::End => {},
            Transition::Between { time: reached, .. } => {
                lemma_forward_run_starts(reached, duration, deltas.drop_first());
            },
        }
    }
}

/// A blend that was asked to run forward and then backward again comes to
/// rest at `End` once the steps of its ticks add up to more than the
/// whole, wherever it stood before.
pub proof fn lemma_there_and_back_ends(t: Transition, duration: u32, deltas: Seq<u32>)
    requires
        t.wf(),
        total_step(deltas, duration) > ONE,
    ensures
        t.ran(duration, true).ran(duration, false).ticked_all(deltas) is End,
{
    let back = t.ran(duration, true).ran(duration, false);
    match back {
        Transition::End => {
            lemma_ends_are_fixed(back, deltas);
        },
        Transition::Start => {},
        Transition::Between { time, .. } => {
            lemma_backward_run_ends(time, duration, deltas);
        },
    }
}

/// The time that the ticks `deltas` take together, in microseconds.
pub open spec fn elapsed(deltas: Seq<u32>) -> int
    decreases deltas.len(),
{
    if deltas.len() == 0 {
        0
    } else {
        deltas[0] + elapsed(deltas.drop_first())
    }
}

/// The steps of the ticks fall short of the time that the ticks take by
/// less than a millionth of the run for every tick: that much is lost
/// where a step is rounded down.
pub proof fn lemma_steps_follow_time(deltas: Seq<u32>, duration: u32)
    requires
        duration > 0,
    ensures
        (total_step(deltas, duration) + deltas.len()) * duration >= elapsed(deltas) * ONE,
    decreases deltas.len(),
{
    if deltas.len() > 0 {
        let rest = deltas.drop_first();
        lemma_steps_follow_time(rest, duration);
        let first = deltas[0] as int;
        let step = tick_step(deltas[0], duration);
        let d = duration as int;
        assert(step * d + d > first * ONE) by (nonlinear_arith)
            requires
                d > 0,
                first >= 0,
                step == (first * ONE) / d,
        ;
        let later = total_step(rest, duration);
        let n = rest.len() as int;
        assert((step + later + (n + 1)) * d == (step * d + d) + (later + n) * d)
            by (nonlinear_arith);
        assert((first + elapsed(rest)) * ONE == first * ONE + elapsed(rest) * ONE)
            by (nonlinear_arith);
    }
}

/// A blend that was asked to run forward and then backward again is at
/// rest at `End` once the ticks have taken the length of the run and, for
/// every tick, a millionth of it more.
pub proof fn lemma_there_and_back_ends_in_time(t: Transition, duration: u32, deltas: Seq<u32>)
    requires
        t.wf(),
        duration > 0,
        elapsed(deltas) * ONE > (ONE + deltas.len()) * duration,
    ensures
        t.ran(duration, true).ran(duration, false).ticked_all(deltas) is End,
{
    lemma_steps_follow_time(deltas, duration);
    let steps = total_step(deltas, duration);
    let n = deltas.len() as int;
    let d = duration as int;
    assert(steps > ONE) by (nonlinear_arith)
        requires
            d > 0,
            (steps + n) * d >= elapsed(deltas) * ONE,
            elapsed(deltas) * ONE > (ONE + n) * d,
    ;
    lemma_there_and_back_ends(t, duration, deltas);
}

/// A single tick that is longer than the run by more than a millionth of
/// it carries a backward run to `End`.
pub proof fn lemma_long_tick_ends(time: i64, duration: u32, delta_time: u32)
    requires
        0 <= time <= ONE,
        duration > 0,
        delta_time * ONE >= (ONE + 1) * duration,
    ensures
        (Transition::Between { time, duration, forward: false }).ticked(delta_time) is End,
{
    assert((delta_time * ONE) / (duration as int) >= ONE + 1) by (nonlinear_arith)
        requires
            duration > 0,
            delta_time * ONE >= (ONE + 1) * duration,
    ;
}

/// A value that moves toward a target by a share of the remaining distance
/// on every tick.
#[derive(Debug, Clone, Copy, PartialEq, Eq, Structural)]
pub struct Tween {
    pub target: i64,
    pub value: i64,
    /// The time, in microseconds, in which a steady tick would cover the
    /// whole distance twice over.
    pub half_life: u32,
}

impl Tween {
    /// The value after a tick of `delta_time`: the distance to the target
    /// shrinks by `delta_time / (2 * half_life)` of itself. With no half
    /// life the value is at the target at once.
    pub open spec fn ticked_value(self, delta_time: u32) -> i64 {
        if self.half_life == 0 {
            self.target
        } else {
            clamp64(
                self.value + trunc_div(
                    (self.target - self.value) * delta_time,
                    2 * self.half_life,
                ),
            )
        }
    }

    pub fn new(value: i64, half_life: u32) -> (r: Self)
        ensures
            r == (Tween { target: value, value, half_life }),
    {
        Tween { target: value, value, half_life }
    }

    pub fn tick(&mut self, delta_time: u32)
        ensures
            *final(self) == (Tween { value: old(self).ticked_value(delta_time), ..*old(self) }),
    {
        if self.half_life == 0 {
            self.value = self.target;
        } else {
            let distance: i128 = self.target as i128 - self.value as i128;
            assert(-0x1_0000_0000_0000_0000_0000_0000 <= distance * delta_time
                <= 0x1_0000_0000_0000_0000_0000_0000) by (nonlinear_arith)
                requires
                    -0x1_0000_0000_0000_0000 <= distance <= 0x1_0000_0000_0000_0000,
                    0 <= delta_time <= 0x1_0000_0000,
            ;
            let scaled: i128 = distance * (delta_time as i128);
            let change: i128 = div_wide(scaled, 2 * (self.half_life as i64));
            self.value = clamp_wide(self.value as i128 + change);
        }
    }

    pub fn set(&mut self, value: i64)
        ensures
            *final(self) == (Tween { target: value, ..*old(self) }),
    {
        self.target = value;
    }

    pub fn get(&self) -> (r: i64)
        ensures
            r == self.value,
    {
        self.value
    }
}

/// A tick no longer than twice the half life never carries the value past
/// its target: the new value lies between the old one and the target.
pub proof fn lemma_tween_stays_between(t: Tween, delta_time: u32)
    requires
        delta_time <= 2 * t.half_life,
    ensures
        t.value <= t.target ==> t.value <= t.ticked_value(delta_time) <= t.target,
        t.value >= t.target ==> t.target <= t.ticked_value(delta_time) <= t.value,
{
    if t.half_life != 0 {
        let d = t.target - t.value;
        let h = 2 * t.half_life;
        if d >= 0 {
            assert(0 <= (d * delta_time) / h <= d) by (nonlinear_arith)
                requires
                    d >= 0,
                    0 <= delta_time <= h,
                    h > 0,
            ;
        } else {
            assert(0 <= ((-d) * delta_time) / h <= -d) by (nonlinear_arith)
                requires
                    d < 0,
                    0 <= delta_time <= h,
                    h > 0,
            ;
            assert(-(d * delta_time) == (-d) * delta_time) by (nonlinear_arith);
            if d * delta_time >= 0 {
                assert(d * delta_time == 0) by (nonlinear_arith)
                    requires
                        d < 0,
                        delta_time >= 0,
                        d * delta_time >= 0,
                ;
            }
        }
    }
}

} // verus!

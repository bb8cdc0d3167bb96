//! The simulated network latency of an account and how it fluctuates.
use vstd::prelude::*;
use rand::Rng;

verus! {

/// How the latency moves between its minimum and maximum.
#[derive(Clone, Copy, Debug, PartialEq, Eq, Structural)]
pub enum FluctuationMode {
    Sine,
    Cosine,
    NormalDistribution,
    Uniform,
    Exponential,
    Logarithmic,
    LinearIncrease,
    LinearDecrease,
    StepFunction,
    RandomWalk,
    NoFluctuation,
}

/// A latency in milliseconds that fluctuates within `[minimum, maximum]`.
#[derive(Clone, Copy, Debug)]
pub struct AccountLatency {
    pub fluctuation_mode: FluctuationMode,
    pub maximum: i64,
    pub minimum: i64,
    pub current_value: i64,
}

/// `v` limited to `[lo, hi]`.
pub open spec fn clamped(v: int, lo: int, hi: int) -> int {
    if v < lo { lo } else if v > hi { hi } else { v }
}

/// The remainder of `a / b` truncated toward zero, as Rust's `%` gives it.
pub open spec fn trunc_rem(a: int, b: int) -> int {
    if a >= 0 { a % b } else { -((-a) % b) }
}

/// The quotient of `a / b` truncated toward zero, as Rust's `/` gives it.
pub open spec fn trunc_div(a: int, b: int) -> int {
    if a >= 0 { a / b } else { -((-a) / b) }
}

/// Whether a mode's next value is computed in floating point (sine, cosine,
/// normal, exponential and logarithmic): those are worked out by the caller.
pub open spec fn float_mode(mode: FluctuationMode) -> bool {
    mode == FluctuationMode::Sine || mode == FluctuationMode::Cosine
        || mode == FluctuationMode::NormalDistribution || mode == FluctuationMode::Exponential
        || mode == FluctuationMode::Logarithmic
}

/// The size of one random-walk step: a twentieth of the range, at least one.
pub open spec fn walk_step(lo: int, hi: int) -> int {
    if (hi - lo) / 20 >= 1 { (hi - lo) / 20 } else { 1 }
}

/// The size of one step of the step function: a tenth of the range.
pub open spec fn stair_step(lo: int, hi: int) -> int {
    (hi - lo) / 10
}

/// Whether the integer arithmetic of a mode stays within `i64` and does not
/// divide by zero for these bounds, value and time.
pub open spec fn integer_step_defined(l: AccountLatency, current_time: int) -> bool {
    let lo = l.minimum as int;
    let hi = l.maximum as int;
    match l.fluctuation_mode {
        FluctuationMode::Uniform => lo <= hi,
        FluctuationMode::LinearIncrease => lo < hi && hi - lo <= i64::MAX
            && i64::MIN <= lo + trunc_rem(current_time, hi - lo) <= i64::MAX,
        FluctuationMode::LinearDecrease => lo < hi && hi - lo <= i64::MAX
            && i64::MIN <= hi - trunc_rem(current_time, hi - lo) <= i64::MAX,
        FluctuationMode::StepFunction => hi - lo >= 10 && hi - lo <= i64::MAX
            && i64::MIN <= lo + trunc_rem(trunc_div(current_time, stair_step(lo, hi)), 10) * stair_step(lo, hi) <= i64::MAX,
        FluctuationMode::RandomWalk => lo <= hi && hi - lo <= i64::MAX
            && i64::MIN <= l.current_value - walk_step(lo, hi) && l.current_value + walk_step(lo, hi) <= i64::MAX,
        _ => true,
    }
}

/// Draws a value uniformly from `[lo, hi]` (`rand::thread_rng().gen_range`).
/// Stated: the value lies in the range; which value comes is chance.
#[verifier::external_body]
fn uniform_between(lo: i64, hi: i64) -> (r: i64)
    requires
        lo <= hi,
    ensures
        lo <= r <= hi,
{
    rand::thread_rng().gen_range(lo..=hi)
}

/// Draws a random boolean (`rand::random`). Nothing is stated of it.
#[verifier::external_body]
fn coin_flip() -> bool {
    rand::random()
}

fn clamp_to(v: i64, lo: i64, hi: i64) -> (r: i64)
    requires
        lo <= hi,
    ensures
        r == clamped(v as int, lo as int, hi as int),
{
    if v < lo {
        lo
    } else if v > hi {
        hi
    } else {
        v
    }
}

impl AccountLatency {
    /// A latency with the given mode and bounds that starts at its minimum.
    pub fn new(fluctuation_mode: FluctuationMode, maximum: i64, minimum: i64) -> (r: Self)
        ensures
            r.fluctuation_mode == fluctuation_mode,
            r.maximum == maximum,
            r.minimum == minimum,
            r.current_value == minimum,
    {
        AccountLatency { fluctuation_mode, maximum, minimum, current_value: minimum }
    }

    /// Sets the latency to `value` limited to the bounds, as the
    /// normal-distribution, exponential and logarithmic modes do with the
    /// value they draw or compute.
    pub fn settle(&mut self, value: i64)
        requires
            old(self).minimum <= old(self).maximum,
        ensures
            final(self).current_value == clamped(value as int, old(self).minimum as int, old(self).maximum as int),
            old(self).minimum <= final(self).current_value <= old(self).maximum,
            final(self).fluctuation_mode == old(self).fluctuation_mode,
            final(self).minimum == old(self).minimum,
            final(self).maximum == old(self).maximum,
    {
        self.current_value = clamp_to(value, self.minimum, self.maximum);
    }

    /// Moves the latency one step at `current_time` for the modes computed
    /// on integers, and returns `true`; for the floating-point modes (see
    /// [`float_mode`]) it leaves the latency as it is and returns `false`.
    /// Uniform draws a value in the range; the linear modes rise from the
    /// minimum (or fall from the maximum) by the time modulo the range; the
    /// step function climbs in tenths of the range; the random walk moves a
    /// twentieth of the range up or down; `NoFluctuation` rests at the minimum.
    pub fn fluctuate_integral(&mut self, current_time: i64) -> (handled: bool)
        requires
            integer_step_defined(*old(self), current_time as int),
        ensures
            handled == !float_mode(old(self).fluctuation_mode),
            handled && old(self).minimum <= old(self).maximum ==> old(self).minimum <= final(self).current_value
                <= old(self).maximum,
            final(self).fluctuation_mode == old(self).fluctuation_mode,
            final(self).minimum == old(self).minimum,
            final(self).maximum == old(self).maximum,
            ({
                let lo = old(self).minimum as int;
                let hi = old(self).maximum as int;
                let v = final(self).current_value as int;
                match old(self).fluctuation_mode {
                    FluctuationMode::Uniform => lo <= v <= hi,
                    FluctuationMode::LinearIncrease => v == clamped(lo + trunc_rem(current_time as int, hi - lo), lo, hi),
                    FluctuationMode::LinearDecrease => v == clamped(hi - trunc_rem(current_time as int, hi - lo), lo, hi),
                    FluctuationMode::StepFunction => v == clamped(
                        lo + trunc_rem(trunc_div(current_time as int, stair_step(lo, hi)), 10) * stair_step(lo, hi), lo, hi),
                    FluctuationMode::RandomWalk => v == clamped(old(self).current_value + walk_step(lo, hi), lo, hi)
                        || v == clamped(old(self).current_value - walk_step(lo, hi), lo, hi),
                    FluctuationMode::NoFluctuation => v == lo,
                    _ => v == old(self).current_value,
                }
            }),
    {
        let lo = self.minimum;
        let hi = self.maximum;
        match self.fluctuation_mode {
            FluctuationMode::Uniform => {
                self.current_value = uniform_between(lo, hi);
                true
            },
            FluctuationMode::LinearIncrease => {
                let range = hi - lo;
                let value = lo + current_time % range;
                self.current_value = clamp_to(value, lo, hi);
                true
            },
            FluctuationMode::LinearDecrease => {
                let range = hi - lo;
                let value = hi - current_time % range;
                self.current_value = clamp_to(value, lo, hi);
                true
            },
            FluctuationMode::StepFunction => {
                let step_size = (hi - lo) / 10;
                let turn = (current_time / step_size) % 10;
                assert(-9 <= turn <= 9);
                assert(1 <= step_size <= i64::MAX / 10);
                assert(-9 * (i64::MAX / 10) <= turn * step_size <= 9 * (i64::MAX / 10)) by (nonlinear_arith)
                    requires
                        -9 <= turn <= 9,
                        1 <= step_size <= i64::MAX / 10;
                let value = lo + turn * step_size;
                self.current_value = clamp_to(value, lo, hi);
                true
            },
            FluctuationMode::RandomWalk => {
                let quarter = (hi - lo) / 20;
                let step_size = if quarter >= 1 { quarter } else { 1 };
                let value = if coin_flip() { self.current_value + step_size } else { self.current_value - step_size };
                self.current_value = clamp_to(value, lo, hi);
                true
            },
            FluctuationMode::NoFluctuation => {
                self.current_value = lo;
                true
            },
            FluctuationMode::Sine
            | FluctuationMode::Cosine
            | FluctuationMode::NormalDistribution
            | FluctuationMode::Exponential
            | FluctuationMode::Logarithmic => false,
        }
    }
}

} // verus!

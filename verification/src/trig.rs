//! Fixed-point sine and cosine for the analytic flow field.
//!
//! The field only needs a cheap, smooth, periodic oscillation, so sine is the
//! classic single-parabola approximation `4 t (pi - t) / pi^2` on a half
//! period, negated on the other half, with the argument first wrapped into
//! one full period; cosine is the same wave a quarter period ahead. Both are
//! exact integer functions of their argument (and so deterministic), bounded
//! by one unit in magnitude.

use vstd::prelude::*;

verus! {

use crate::fixed::{ONE, WRAP_INPUT_LIMIT, spec_wrap, wrap_periodic};
use crate::fixed::lemma_wrap_periodic_shift;

/// Half a period: the angle pi, in fixed-point steps.
pub const PI_FX: i64 = 3_141_593;

/// A full period: two pi, in fixed-point steps.
pub const TWO_PI_FX: i64 = 6_283_186;

/// A quarter period, in fixed-point steps.
pub const HALF_PI_FX: i64 = 1_570_796;

/// Divisor of the parabola approximation: just over `PI_FX * PI_FX / ONE`,
/// so the peak of the wave stays within one unit.
pub const SIN_DEN: i64 = 9_869_607;

/// Largest argument the trig functions accept; leaves room to shift by a
/// quarter period under the wrapping limit.
pub const ANGLE_INPUT_LIMIT: i64 = WRAP_INPUT_LIMIT - HALF_PI_FX;

/// The parabola arch `4 t (PI_FX - t) / SIN_DEN`, the sine wave over one
/// half period `0 <= t <= PI_FX`.
pub open spec fn spec_sin_arch(t: int) -> int {
    4 * t * (PI_FX - t) / (SIN_DEN as int)
}

/// Fixed-point sine: the argument wrapped into one period, the parabola
/// arch on the first half, its mirror image below zero on the second.
pub open spec fn spec_sin(x: int) -> int {
    let t = spec_wrap(x, 0, TWO_PI_FX as int);
    if t < PI_FX {
        spec_sin_arch(t)
    } else {
        -spec_sin_arch(t - PI_FX)
    }
}

/// Fixed-point cosine: the sine wave a quarter period ahead.
pub open spec fn spec_cos(x: int) -> int {
    spec_sin(x + HALF_PI_FX)
}

/// The parabola arch over a half period, exactly.
fn sin_arch(t: i64) -> (r: i64)
    requires
        0 <= t <= PI_FX,
    ensures
        r == spec_sin_arch(t as int),
        0 <= r <= ONE,
{
    proof {
        assert(0 <= 4 * (t as int) * (PI_FX - t as int) <= PI_FX * PI_FX) by (nonlinear_arith)
            requires
                0 <= t as int <= PI_FX,
        ;
    }
    let p = 4 * t * (PI_FX - t);
    assert(p / SIN_DEN <= ONE) by (nonlinear_arith)
        requires
            0 <= p <= 9_869_606_577_649i64,
    ;
    p / SIN_DEN
}

/// Fixed-point sine of any in-range argument.
pub fn sin_fx(x: i64) -> (r: i64)
    requires
        -WRAP_INPUT_LIMIT <= x <= WRAP_INPUT_LIMIT,
    ensures
        r == spec_sin(x as int),
        -ONE <= r <= ONE,
{
    let t = wrap_periodic(x, 0, TWO_PI_FX);
    if t < PI_FX {
        sin_arch(t)
    } else {
        -sin_arch(t - PI_FX)
    }
}

/// Fixed-point cosine of any in-range argument.
pub fn cos_fx(x: i64) -> (r: i64)
    requires
        -ANGLE_INPUT_LIMIT <= x <= ANGLE_INPUT_LIMIT,
    ensures
        r == spec_cos(x as int),
        -ONE <= r <= ONE,
{
    sin_fx(x + HALF_PI_FX)
}

/// The sine wave repeats every full period.
pub proof fn lemma_sin_periodic(x: int, k: int)
    ensures
        spec_sin(x + k * (TWO_PI_FX as int)) == spec_sin(x),
{
    lemma_wrap_periodic_shift(x, 0, TWO_PI_FX as int, k);
}

} // verus!

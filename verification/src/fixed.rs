//! Fixed-point scalars and the integer primitives under the vector math:
//! periodic wrapping (toroidal boundaries) and the floor square root.
//!
//! A scalar is an `i64` counting millionths: `ONE` is one world unit, so a
//! screen coordinate of `25.0` units is stored as `25 * ONE`.

use vstd::prelude::*;

verus! {

use vstd::arithmetic::div_mod::{
    lemma_fundamental_div_mod,
    lemma_mod_multiples_vanish,
    lemma_mod_self_0,
    lemma_small_mod,
};
use vstd::arithmetic::mul::lemma_mul_is_distributive_add;

/// One world unit, in fixed-point steps.
pub const ONE: i64 = 1_000_000;

/// Magnitude threshold under which a vector counts as degenerate
/// (a ten-thousandth of a unit), in fixed-point steps.
pub const EPSILON_MAG: i64 = 100;

/// The degenerate threshold squared, for comparisons against a squared
/// magnitude.
pub const EPSILON_SQ: i64 = 10_000;

/// Largest magnitude of a vector component the library operates on.
/// Keeps every product of two scalars inside `i64`.
pub const COORD_LIMIT: i64 = 1_500_000_000;

/// Largest clamp target (`min`/`max` magnitude bound) accepted by the
/// clamping operations; leaves headroom under `COORD_LIMIT` for rounding.
pub const BOUND_LIMIT: i64 = 1_000_000_000;

/// Largest raw scalar accepted by periodic wrapping; far above any
/// coordinate or phase the simulation produces, far below `i64` overflow.
pub const WRAP_INPUT_LIMIT: i64 = 4_000_000_000_000_000;

/// Largest phase the world accepts: a thousand million ticks at the default
/// step, comfortably inside the wrapping limit.
pub const PHASE_LIMIT: i64 = 1_000_000_000_000_000;

/// Largest force component a particle accepts: keeps a clamped velocity
/// plus a force inside `COORD_LIMIT`.
pub const FORCE_COMP_LIMIT: i64 = 400_000_000;

/// Where `value` lands when reduced into the half-open interval
/// `[min, max)` by subtracting a whole number of periods `max - min`.
pub open spec fn spec_wrap(value: int, min: int, max: int) -> int {
    min + (value - min) % (max - min)
}

/// Reduces `value` into `[min, max)` by subtracting the unique integer
/// multiple of the period `max - min` that lands it there; a true modulo,
/// correct below `min` as well as above `max`.
pub fn wrap_periodic(value: i64, min: i64, max: i64) -> (r: i64)
    requires
        min < max,
        -WRAP_INPUT_LIMIT <= value <= WRAP_INPUT_LIMIT,
        -COORD_LIMIT <= min,
        max <= COORD_LIMIT,
    ensures
        r == spec_wrap(value as int, min as int, max as int),
        min <= r < max,
{
    let period = max - min;
    let offset = value - min;
    if offset >= 0 {
        let m = ((offset as u64) % (period as u64)) as i64;
        assert(m == offset % period);
        min + m
    } else {
        let m = (((-offset) as u64) % (period as u64)) as i64;
        let k = -offset;
        assert(m == k % period);
        proof {
            let p = period as int;
            let ki = k as int;
            let q = ki / p;
            lemma_fundamental_div_mod(ki, p);
            lemma_mul_is_distributive_add(p, q, 1);
            lemma_mod_multiples_vanish(q + 1, -ki, p);
            assert(p * (q + 1) + (-ki) == p - m as int);
            if m == 0 {
                lemma_mod_self_0(p);
            } else {
                lemma_small_mod((period - m) as nat, period as nat);
            }
        }
        if m == 0 {
            min
        } else {
            min + (period - m)
        }
    }
}

/// Wrapping is invariant under shifting by any whole number of periods.
pub proof fn lemma_wrap_periodic_shift(value: int, min: int, max: int, k: int)
    requires
        min < max,
    ensures
        spec_wrap(value + k * (max - min), min, max) == spec_wrap(value, min, max),
{
    let period = max - min;
    lemma_mod_multiples_vanish(k, value - min, period);
    assert(value + k * period - min == period * k + (value - min)) by (nonlinear_arith);
}

/// `r` is the floor of the real square root of `n`.
pub open spec fn is_sqrt_floor(n: int, r: int) -> bool {
    0 <= r && r * r <= n && n < (r + 1) * (r + 1)
}

/// The floor of the real square root of `n` (for `n >= 0`).
pub open spec fn sqrt_floor(n: int) -> int {
    choose|r: int| is_sqrt_floor(n, r)
}

/// The ceiling of the real square root of `n`: the floor root, plus one
/// unless `n` is a perfect square.
pub open spec fn sqrt_ceil(n: int) -> int {
    if sqrt_floor(n) * sqrt_floor(n) == n {
        sqrt_floor(n)
    } else {
        sqrt_floor(n) + 1
    }
}

/// At most one integer can be the floor square root of `n`, so a witness
/// pins down `sqrt_floor(n)`.
pub proof fn lemma_sqrt_floor_unique(n: int, r: int)
    requires
        is_sqrt_floor(n, r),
    ensures
        sqrt_floor(n) == r,
        is_sqrt_floor(n, sqrt_floor(n)),
{
    assert(is_sqrt_floor(n, r));
    let picked = choose|q: int| is_sqrt_floor(n, q);
    assert(is_sqrt_floor(n, picked));
    assert(picked == r) by (nonlinear_arith)
        requires
            is_sqrt_floor(n, picked),
            is_sqrt_floor(n, r),
    ;
}

/// Every non-negative integer has a floor square root, so `sqrt_floor`
/// denotes a genuine witness.
pub proof fn lemma_sqrt_floor_exists(n: int)
    requires
        0 <= n,
    ensures
        is_sqrt_floor(n, sqrt_floor(n)),
    decreases n,
{
    if n == 0 {
        assert(is_sqrt_floor(0, 0));
        lemma_sqrt_floor_unique(0, 0);
    } else {
        lemma_sqrt_floor_exists(n - 1);
        let r = sqrt_floor(n - 1);
        if n < (r + 1) * (r + 1) {
            assert(is_sqrt_floor(n, r));
            lemma_sqrt_floor_unique(n, r);
        } else {
            assert(n == (r + 1) * (r + 1));
            assert((r + 1) * (r + 1) < (r + 2) * (r + 2)) by (nonlinear_arith)
                requires
                    0 <= r,
            ;
            assert(is_sqrt_floor(n, r + 1));
            lemma_sqrt_floor_unique(n, r + 1);
        }
    }
}

/// Floor square root of a non-negative integer, by bisection.
pub fn isqrt(n: u64) -> (r: u64)
    requires
        n <= 4_500_000_000_000_000_000,
    ensures
        is_sqrt_floor(n as int, r as int),
        r == sqrt_floor(n as int),
        r <= 2_130_000_000,
{
    let mut lo: u64 = 0;
    let mut hi: u64 = 2_130_000_000;
    assert((hi * hi) as int > n as int) by (nonlinear_arith)
        requires
            hi == 2_130_000_000u64,
            n <= 4_500_000_000_000_000_000u64,
    ;
    while hi - lo > 1
        invariant
            lo < hi <= 2_130_000_000,
            lo * lo <= n,
            n < hi * hi,
        decreases hi - lo,
    {
        let mid = lo + (hi - lo) / 2;
        assert(mid * mid < 18_446_744_073_709_551_615u64) by (nonlinear_arith)
            requires
                mid <= 2_130_000_000u64,
        ;
        if mid * mid <= n {
            lo = mid;
        } else {
            hi = mid;
        }
    }
    assert(is_sqrt_floor(n as int, lo as int));
    proof {
        lemma_sqrt_floor_unique(n as int, lo as int);
    }
    lo
}

} // verus!

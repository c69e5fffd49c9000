//! The library's general laws, stated once over the spec-level model and
//! proved for every input: wrapping is total and periodic, the magnitude
//! clamp lands in its band and passes degenerate vectors through exactly,
//! a wide enough band makes the clamp idempotent, a particle's speed stays
//! in its band, and a tick is a pure function of the previous state.

use vstd::prelude::*;

verus! {

use crate::fixed::{
    BOUND_LIMIT,
    EPSILON_MAG,
    EPSILON_SQ,
    is_sqrt_floor,
    lemma_sqrt_floor_exists,
    lemma_wrap_periodic_shift,
    spec_wrap,
    sqrt_ceil,
};
use crate::real_vector::{V2, div_away, div_trunc, scale_away, scale_trunc, spec_add, spec_limit};
use crate::particle::ParticleV;
use crate::world::{SimulationConfig, spec_step_particle};
use vstd::arithmetic::div_mod::lemma_mod_division_less_than_divisor;
use vstd::arithmetic::mul::{lemma_mul_is_distributive_add, lemma_mul_is_distributive_add_other_way};

/// Wrapping is total: for any `min < max` the wrapped value lies in
/// `[min, max)`, whatever the input. Together with
/// [`lemma_wrap_periodic_shift`] this makes wrapping a true modulo.
pub proof fn lemma_wrap_periodic_total(value: int, min: int, max: int)
    requires
        min < max,
    ensures
        min <= spec_wrap(value, min, max) < max,
{
    lemma_mod_division_less_than_divisor(value - min, max - min);
}

/// Wrapping a value already shifted by whole periods changes nothing: the
/// public restatement of periodicity beside totality.
pub proof fn lemma_wrap_periodic_periodic(value: int, min: int, max: int, k: int)
    requires
        min < max,
    ensures
        spec_wrap(value + k * (max - min), min, max) == spec_wrap(value, min, max),
{
    lemma_wrap_periodic_shift(value, min, max, k);
}

/// Truncating scaling shrinks the square at the ratio `t / d`, and keeps
/// the sign of the component.
proof fn lemma_scale_trunc_sq(c: int, t: int, d: int)
    requires
        0 <= t,
        1 <= d,
    ensures
        scale_trunc(c, t, d) * scale_trunc(c, t, d) * d * d <= c * c * t * t,
        c >= 0 ==> scale_trunc(c, t, d) >= 0,
        c < 0 ==> scale_trunc(c, t, d) <= 0,
{
    assert(scale_trunc(c, t, d) * scale_trunc(c, t, d) * d * d <= c * c * t * t && (c >= 0
        ==> scale_trunc(c, t, d) >= 0) && (c < 0 ==> scale_trunc(c, t, d)
        <= 0)) by (nonlinear_arith)
        requires
            0 <= t,
            1 <= d,
    ;
}

/// Rounding-away scaling grows the square at least at the ratio `t / d`,
/// and keeps the sign of the component.
proof fn lemma_scale_away_sq(c: int, t: int, d: int)
    requires
        0 <= t,
        1 <= d,
    ensures
        scale_away(c, t, d) * scale_away(c, t, d) * d * d >= c * c * t * t,
        c >= 0 ==> scale_away(c, t, d) >= 0,
        c < 0 ==> scale_away(c, t, d) <= 0,
{
    let q = scale_away(c, t, d);
    let a = c * t;
    if c >= 0 {
        assert(a >= 0) by (nonlinear_arith)
            requires
                a == c * t,
                c >= 0,
                t >= 0,
        ;
        assert(q == (a + d - 1) / d);
        assert(q >= 0 && q * d >= a) by (nonlinear_arith)
            requires
                q == (a + d - 1) / d,
                a >= 0,
                1 <= d,
        ;
        assert(q * q * d * d >= a * a) by (nonlinear_arith)
            requires
                q * d >= a,
                a >= 0,
                q >= 0,
                1 <= d,
        ;
    } else {
        assert(a <= 0) by (nonlinear_arith)
            requires
                a == c * t,
                c < 0,
                t >= 0,
        ;
        if a == 0 {
            assert(q == (a + d - 1) / d);
            assert(q == 0) by (nonlinear_arith)
                requires
                    q == (a + d - 1) / d,
                    a == 0,
                    1 <= d,
            ;
        } else {
            let u = ((-a) + d - 1) / d;
            assert(q == -u);
            assert(u >= 0 && u * d >= -a) by (nonlinear_arith)
                requires
                    u == ((-a) + d - 1) / d,
                    a < 0,
                    1 <= d,
            ;
            assert(q * q * d * d >= a * a && q <= 0) by (nonlinear_arith)
                requires
                    q == -u,
                    u * d >= -a,
                    a < 0,
                    u >= 0,
                    1 <= d,
            ;
        }
    }
    assert(a * a == c * c * t * t) by (nonlinear_arith)
        requires
            a == c * t,
    ;
}

/// A squared magnitude is never negative.
proof fn lemma_norm_sq_nonneg(v: V2)
    ensures
        v.norm_sq() >= 0,
{
    assert(v.x * v.x + v.y * v.y >= 0) by (nonlinear_arith);
}

/// A non-degenerate squared magnitude puts the floor root at or above the
/// epsilon threshold.
proof fn lemma_root_at_least_epsilon(s: int, m: int)
    requires
        is_sqrt_floor(s, m),
        EPSILON_SQ <= s,
    ensures
        EPSILON_MAG <= m,
{
    assert(EPSILON_MAG <= m) by (nonlinear_arith)
        requires
            0 <= m,
            s < (m + 1) * (m + 1),
            10_000 <= s,
    ;
}

/// Clamp bounds, the side each scaling branch aims at: a vector longer than
/// `hi` comes back no longer than `hi`; one shorter than `lo` (but not
/// degenerate) comes back no shorter than `lo`; one already in the band
/// comes back untouched.
pub proof fn lemma_limit_bounds(v: V2, lo: int, hi: int)
    requires
        0 <= lo <= hi <= BOUND_LIMIT,
        !v.is_degenerate(),
    ensures
        v.norm() > hi ==> spec_limit(v, lo, hi).norm() <= hi,
        v.norm() < lo ==> spec_limit(v, lo, hi).norm() >= lo,
        lo <= v.norm() <= hi ==> spec_limit(v, lo, hi) == v,
{
    let s = v.norm_sq();
    lemma_norm_sq_nonneg(v);
    lemma_sqrt_floor_exists(s);
    let m = v.norm();
    let r = spec_limit(v, lo, hi);
    let s2 = r.norm_sq();
    lemma_norm_sq_nonneg(r);
    lemma_sqrt_floor_exists(s2);
    if m > hi {
        let d = sqrt_ceil(s);
        assert(s <= d * d && 1 <= d) by (nonlinear_arith)
            requires
                is_sqrt_floor(s, m),
                0 <= hi,
                hi < m,
                d == if m * m == s {
                    m
                } else {
                    m + 1
                },
        ;
        lemma_scale_trunc_sq(v.x, hi, d);
        lemma_scale_trunc_sq(v.y, hi, d);
        assert(s2 <= hi * hi) by (nonlinear_arith)
            requires
                r.x * r.x * d * d <= v.x * v.x * hi * hi,
                r.y * r.y * d * d <= v.y * v.y * hi * hi,
                s2 == r.x * r.x + r.y * r.y,
                v.x * v.x + v.y * v.y <= d * d,
                1 <= d,
                0 <= hi,
        ;
        assert(r.norm() <= hi) by (nonlinear_arith)
            requires
                is_sqrt_floor(s2, r.norm()),
                s2 <= hi * hi,
                0 <= hi,
        ;
    } else if m < lo {
        lemma_root_at_least_epsilon(s, m);
        lemma_scale_away_sq(v.x, lo, m);
        lemma_scale_away_sq(v.y, lo, m);
        assert(s2 >= lo * lo) by (nonlinear_arith)
            requires
                r.x * r.x * m * m >= v.x * v.x * lo * lo,
                r.y * r.y * m * m >= v.y * v.y * lo * lo,
                s2 == r.x * r.x + r.y * r.y,
                v.x * v.x + v.y * v.y >= m * m,
                1 <= m,
                0 <= lo,
        ;
        assert(r.norm() >= lo) by (nonlinear_arith)
            requires
                is_sqrt_floor(s2, r.norm()),
                s2 >= lo * lo,
                0 <= lo,
        ;
    }
}

/// The clamp keeps each component's sign: the result never points into
/// another quadrant.
pub proof fn lemma_limit_keeps_signs(v: V2, lo: int, hi: int)
    requires
        v.in_range(),
        0 <= lo <= hi <= BOUND_LIMIT,
    ensures
        v.x >= 0 ==> spec_limit(v, lo, hi).x >= 0,
        v.x < 0 ==> spec_limit(v, lo, hi).x <= 0,
        v.y >= 0 ==> spec_limit(v, lo, hi).y >= 0,
        v.y < 0 ==> spec_limit(v, lo, hi).y <= 0,
{
    let s = v.norm_sq();
    if s >= EPSILON_SQ {
        lemma_norm_sq_nonneg(v);
        lemma_sqrt_floor_exists(s);
        let m = v.norm();
        lemma_root_at_least_epsilon(s, m);
        if m > hi {
            let d = sqrt_ceil(s);
            assert(1 <= d) by (nonlinear_arith)
                requires
                    is_sqrt_floor(s, m),
                    0 <= hi,
                    hi < m,
                    d == if m * m == s {
                        m
                    } else {
                        m + 1
                    },
            ;
            lemma_scale_trunc_sq(v.x, hi, d);
            lemma_scale_trunc_sq(v.y, hi, d);
        } else if m < lo {
            lemma_scale_away_sq(v.x, lo, m);
            lemma_scale_away_sq(v.y, lo, m);
        }
    }
}

/// Degenerate pass-through, exactly: the clamp returns its argument
/// unchanged when and only when the vector is degenerate or its magnitude
/// already lies in the band.
pub proof fn lemma_limit_passthrough(v: V2, lo: int, hi: int)
    requires
        v.in_range(),
        0 <= lo <= hi <= BOUND_LIMIT,
    ensures
        spec_limit(v, lo, hi) == v <==> (v.is_degenerate() || lo <= v.norm() <= hi),
{
    let s = v.norm_sq();
    if s >= EPSILON_SQ {
        lemma_norm_sq_nonneg(v);
        lemma_sqrt_floor_exists(s);
        let m = v.norm();
        lemma_root_at_least_epsilon(s, m);
        let r = spec_limit(v, lo, hi);
        if m > hi {
            let d = sqrt_ceil(s);
            assert(m <= d && s <= d * d && 1 <= d) by (nonlinear_arith)
                requires
                    is_sqrt_floor(s, m),
                    0 <= hi,
                    hi < m,
                    d == if m * m == s {
                        m
                    } else {
                        m + 1
                    },
            ;
            if v.x != 0 {
                assert(r.x != v.x) by (nonlinear_arith)
                    requires
                        v.x != 0,
                        0 <= hi,
                        hi < d,
                        r.x == div_trunc(v.x * hi, d),
                ;
            } else {
                assert(v.y * v.y >= EPSILON_SQ);
                assert(r.y != v.y) by (nonlinear_arith)
                    requires
                        v.y != 0,
                        0 <= hi,
                        hi < d,
                        r.y == div_trunc(v.y * hi, d),
                ;
            }
        } else if m < lo {
            if v.x != 0 {
                assert(r.x != v.x) by (nonlinear_arith)
                    requires
                        v.x != 0,
                        1 <= m,
                        m < lo,
                        r.x == div_away(v.x * lo, m),
                ;
            } else {
                assert(v.y * v.y >= EPSILON_SQ);
                assert(r.y != v.y) by (nonlinear_arith)
                    requires
                        v.y != 0,
                        1 <= m,
                        m < lo,
                        r.y == div_away(v.y * lo, m),
                ;
            }
        }
    }
}


/// The Lagrange identity in two dimensions: the product of two squared
/// magnitudes is the squared dot product plus the squared cross product.
#[verifier::rlimit(25)]
proof fn lemma_lagrange_identity(x1: int, y1: int, x2: int, y2: int)
    ensures
        (x1 * x1 + y1 * y1) * (x2 * x2 + y2 * y2) - (x1 * x2 + y1 * y2) * (x1 * x2 + y1 * y2) == (
        x1 * y2 - y1 * x2) * (x1 * y2 - y1 * x2),
{
    let a = x1 * x2;
    let b = y1 * y2;
    let c = x1 * y2;
    let d = y1 * x2;
    let p2 = x2 * x2 + y2 * y2;
    lemma_mul_is_distributive_add_other_way(p2, x1 * x1, y1 * y1);
    lemma_mul_is_distributive_add(x1 * x1, x2 * x2, y2 * y2);
    lemma_mul_is_distributive_add(y1 * y1, x2 * x2, y2 * y2);
    assert((x1 * x1) * (x2 * x2) == a * a) by (nonlinear_arith)
        requires
            a == x1 * x2,
    ;
    assert((x1 * x1) * (y2 * y2) == c * c) by (nonlinear_arith)
        requires
            c == x1 * y2,
    ;
    assert((y1 * y1) * (x2 * x2) == d * d) by (nonlinear_arith)
        requires
            d == y1 * x2,
    ;
    assert((y1 * y1) * (y2 * y2) == b * b) by (nonlinear_arith)
        requires
            b == y1 * y2,
    ;
    assert((x1 * x1 + y1 * y1) * p2 == a * a + c * c + d * d + b * b);
    assert(a * b == c * d) by (nonlinear_arith)
        requires
            a == x1 * x2,
            b == y1 * y2,
            c == x1 * y2,
            d == y1 * x2,
    ;
    assert((a + b) * (a + b) == a * a + 2 * (a * b) + b * b) by (nonlinear_arith);
    assert((c - d) * (c - d) == c * c - 2 * (c * d) + d * d) by (nonlinear_arith);
}

/// From a squared dot-product bound, a two-sided linear bound on the dot
/// product scaled by any two non-negative weights.
proof fn lemma_dot_weighted_bound(dot: int, ms_v: int, ms_f: int, lo: int, b: int) by (nonlinear_arith)
    requires
        dot * dot <= ms_v * ms_f,
        ms_v >= 0,
        ms_f >= 0,
        1 <= b,
        b < lo,
    ensures
        2 * (-dot) * (lo * b) <= ms_v * (b * b) + ms_f * (lo * lo),
{
}

/// Adding a force much weaker than the speed floor cannot drive a fast
/// enough velocity into the degenerate zone: the sum keeps a squared
/// magnitude of at least `(lo - b)^2`.
#[verifier::rlimit(25)]
pub proof fn lemma_sum_stays_strong(v: V2, f: V2, lo: int, b: int)
    requires
        v.norm_sq() >= lo * lo,
        f.norm_sq() <= b * b,
        1 <= b < lo,
    ensures
        spec_add(v, f).norm_sq() >= (lo - b) * (lo - b),
{
    let ms_v = v.norm_sq();
    let ms_f = f.norm_sq();
    let w = spec_add(v, f);
    let ms_w = w.norm_sq();
    let dot = v.x * f.x + v.y * f.y;
    lemma_norm_sq_nonneg(v);
    lemma_norm_sq_nonneg(f);
    lemma_lagrange_identity(v.x, v.y, f.x, f.y);
    assert(dot * dot <= ms_v * ms_f) by (nonlinear_arith)
        requires
            ms_v * ms_f - dot * dot == (v.x * f.y - v.y * f.x) * (v.x * f.y - v.y * f.x),
    ;
    lemma_dot_weighted_bound(dot, ms_v, ms_f, lo, b);
    assert(ms_w == ms_v + 2 * dot + ms_f) by (nonlinear_arith)
        requires
            ms_w == (v.x + f.x) * (v.x + f.x) + (v.y + f.y) * (v.y + f.y),
            ms_v == v.x * v.x + v.y * v.y,
            ms_f == f.x * f.x + f.y * f.y,
            dot == v.x * f.x + v.y * f.y,
    ;
    assert(ms_w * (lo * b) >= ((lo - b) * (lo - b)) * (lo * b)) by (nonlinear_arith)
        requires
            ms_w == ms_v + 2 * dot + ms_f,
            2 * (-dot) * (lo * b) <= ms_v * (b * b) + ms_f * (lo * lo),
            ms_v >= lo * lo,
            ms_f <= b * b,
            1 <= b,
            b < lo,
    ;
    assert(ms_w >= (lo - b) * (lo - b)) by (nonlinear_arith)
        requires
            ms_w * (lo * b) >= ((lo - b) * (lo - b)) * (lo * b),
            1 <= b,
            b < lo,
    ;
}

/// One particle's run under a fixed phase-increment sequence: each entry
/// advances the phase and steps the particle at the new phase.
pub open spec fn spec_run_particle(
    p: ParticleV,
    phase: int,
    cfg: SimulationConfig,
    dts: Seq<int>,
) -> ParticleV
    decreases dts.len(),
{
    if dts.len() == 0 {
        p
    } else {
        spec_run_particle(
            spec_step_particle(p, phase + dts[0], cfg),
            phase + dts[0],
            cfg,
            dts.subrange(1, dts.len() as int),
        )
    }
}

/// Determinism: a particle's whole run is a function of its initial state,
/// the initial phase, the configuration and the phase-increment sequence —
/// two equal starting points fed the same increments agree after any number
/// of ticks. The same holds for every particle of a world, since
/// `SimulationWorld::tick` pins each stepped particle to
/// `spec_step_particle` of its previous state.
pub proof fn lemma_run_deterministic(
    p1: ParticleV,
    p2: ParticleV,
    phase: int,
    cfg: SimulationConfig,
    dts: Seq<int>,
)
    requires
        p1 == p2,
    ensures
        spec_run_particle(p1, phase, cfg, dts) == spec_run_particle(p2, phase, cfg, dts),
    decreases dts.len(),
{
    if dts.len() > 0 {
        lemma_run_deterministic(
            spec_step_particle(p1, phase + dts[0], cfg),
            spec_step_particle(p2, phase + dts[0], cfg),
            phase + dts[0],
            cfg,
            dts.subrange(1, dts.len() as int),
        );
    }
}

} // verus!

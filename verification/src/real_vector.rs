//! The 2D vector primitive: componentwise arithmetic, Euclidean magnitude,
//! magnitude clamping with a degenerate near-zero pass-through, and toroidal
//! wrapping into a bounded box.
//!
//! Every executable vector lives in fixed-point coordinates; its mathematical
//! value is the pair of integers [`V2`] given by the `View`, and every
//! operation's contract states the result exactly over that model.

use vstd::prelude::*;

verus! {

use crate::fixed::{
    BOUND_LIMIT,
    COORD_LIMIT,
    EPSILON_MAG,
    EPSILON_SQ,
    ONE,
    WRAP_INPUT_LIMIT,
    is_sqrt_floor,
    isqrt,
    spec_wrap,
    sqrt_ceil,
    sqrt_floor,
    wrap_periodic,
};

/// A 2D vector with fixed-point components (millionths of a world unit).
#[derive(Clone, Copy, Debug, PartialEq, Eq, Structural)]
pub struct RealVector {
    pub x: i64,
    pub y: i64,
}

/// The mathematical value of a vector: a pair of unbounded integers.
pub struct V2 {
    pub x: int,
    pub y: int,
}

impl View for RealVector {
    type V = V2;

    open spec fn view(&self) -> V2 {
        V2 { x: self.x as int, y: self.y as int }
    }
}

impl V2 {
    /// The squared Euclidean magnitude.
    pub open spec fn norm_sq(self) -> int {
        self.x * self.x + self.y * self.y
    }

    /// The fixed-point magnitude: the floor square root of the squared
    /// magnitude.
    pub open spec fn norm(self) -> int {
        sqrt_floor(self.norm_sq())
    }

    /// Both components fit the range the library computes in.
    pub open spec fn in_range(self) -> bool {
        -COORD_LIMIT <= self.x <= COORD_LIMIT && -COORD_LIMIT <= self.y <= COORD_LIMIT
    }

    /// Both components lie within `bound` of zero.
    pub open spec fn within(self, bound: int) -> bool {
        -bound <= self.x <= bound && -bound <= self.y <= bound
    }

    /// A vector is degenerate when its magnitude falls below the epsilon
    /// threshold; such vectors pass through clamping unchanged.
    pub open spec fn is_degenerate(self) -> bool {
        self.norm_sq() < EPSILON_SQ
    }
}

/// Componentwise sum.
pub open spec fn spec_add(a: V2, b: V2) -> V2 {
    V2 { x: a.x + b.x, y: a.y + b.y }
}

/// Componentwise difference.
pub open spec fn spec_subtract(a: V2, b: V2) -> V2 {
    V2 { x: a.x - b.x, y: a.y - b.y }
}

/// Division rounded toward zero (the sign-symmetric quotient).
pub open spec fn div_trunc(a: int, d: int) -> int {
    if a >= 0 {
        a / d
    } else {
        -((-a) / d)
    }
}

/// Division rounded away from zero.
pub open spec fn div_away(a: int, d: int) -> int {
    if a >= 0 {
        (a + d - 1) / d
    } else {
        -(((-a) + d - 1) / d)
    }
}

/// A component scaled by the ratio `num / den`, rounded toward zero.
pub open spec fn scale_trunc(c: int, num: int, den: int) -> int {
    div_trunc(c * num, den)
}

/// A component scaled by the ratio `num / den`, rounded away from zero.
pub open spec fn scale_away(c: int, num: int, den: int) -> int {
    div_away(c * num, den)
}

/// A component multiplied by a fixed-point factor (truncated toward zero).
pub open spec fn spec_mul_fixed(c: int, factor: int) -> int {
    div_trunc(c * factor, ONE as int)
}

/// Componentwise fixed-point scaling by `factor`.
pub open spec fn spec_multiply(v: V2, factor: int) -> V2 {
    V2 { x: spec_mul_fixed(v.x, factor), y: spec_mul_fixed(v.y, factor) }
}

/// The magnitude clamp. A degenerate vector passes through unchanged; a
/// vector longer than `hi` is scaled down onto the `hi` circle (rounding
/// toward zero against the ceiling square root, so the result never exceeds
/// `hi`); one shorter than `lo` is scaled up onto the `lo` circle (rounding
/// away from zero against the floor square root, so the result never falls
/// short of `lo`); anything already inside `[lo, hi]` is returned as it is.
pub open spec fn spec_limit(v: V2, lo: int, hi: int) -> V2 {
    let s = v.norm_sq();
    if s < EPSILON_SQ {
        v
    } else {
        let m = sqrt_floor(s);
        if m > hi {
            let d = sqrt_ceil(s);
            V2 { x: scale_trunc(v.x, hi, d), y: scale_trunc(v.y, hi, d) }
        } else if m < lo {
            V2 { x: scale_away(v.x, lo, m), y: scale_away(v.y, lo, m) }
        } else {
            v
        }
    }
}

/// Each component wrapped periodically into `[0, bound)`, for a box of
/// `width` by `height` whole units.
pub open spec fn spec_bring_to_box(v: V2, width: int, height: int) -> V2 {
    V2 {
        x: spec_wrap(v.x, 0, width * ONE),
        y: spec_wrap(v.y, 0, height * ONE),
    }
}

/// The absolute value of an in-range component, as `u64`.
fn abs_component(c: i64) -> (r: u64)
    requires
        -COORD_LIMIT <= c <= COORD_LIMIT,
    ensures
        r == if c >= 0 { c as int } else { -(c as int) },
        r <= COORD_LIMIT,
{
    if c < 0 {
        (-c) as u64
    } else {
        c as u64
    }
}

/// `c` scaled by `num / den`, rounded toward zero.
fn scale_trunc_exec(c: i64, num: i64, den: u64) -> (r: i64)
    requires
        -COORD_LIMIT <= c <= COORD_LIMIT,
        0 <= num <= COORD_LIMIT,
        1 <= den,
    ensures
        r == scale_trunc(c as int, num as int, den as int),
        c >= 0 ==> r >= 0,
        c < 0 ==> r <= 0,
        -2_300_000_000_000_000_000 <= r <= 2_300_000_000_000_000_000,
{
    let ca = abs_component(c);
    assert(ca * num <= COORD_LIMIT * COORD_LIMIT) by (nonlinear_arith)
        requires
            0 <= ca <= COORD_LIMIT,
            0 <= num <= COORD_LIMIT,
    ;
    let p = ca * (num as u64);
    let q = p / den;
    assert(q <= p) by (nonlinear_arith)
        requires
            q == p / den,
            1 <= den,
            0 <= p,
    ;
    if c < 0 {
        assert(-(q as int) == div_trunc(c as int * num as int, den as int)) by (nonlinear_arith)
            requires
                q == (ca as int * num as int) / den as int,
                ca == -(c as int),
                c < 0,
                0 <= num,
                1 <= den,
        ;
        -(q as i64)
    } else {
        q as i64
    }
}

/// `c` scaled by `num / den`, rounded away from zero.
fn scale_away_exec(c: i64, num: i64, den: u64) -> (r: i64)
    requires
        -COORD_LIMIT <= c <= COORD_LIMIT,
        0 <= num <= COORD_LIMIT,
        1 <= den <= COORD_LIMIT,
    ensures
        r == scale_away(c as int, num as int, den as int),
        c >= 0 ==> r >= 0,
        c < 0 ==> r <= 0,
        -2_300_000_000_000_000_000 <= r <= 2_300_000_000_000_000_000,
{
    let ca = abs_component(c);
    assert(ca * num <= COORD_LIMIT * COORD_LIMIT) by (nonlinear_arith)
        requires
            0 <= ca <= COORD_LIMIT,
            0 <= num <= COORD_LIMIT,
    ;
    let p = ca * (num as u64) + (den - 1);
    let q = p / den;
    assert(q <= p) by (nonlinear_arith)
        requires
            q == p / den,
            1 <= den,
            0 <= p,
    ;
    if c < 0 {
        assert(-(q as int) == div_away(c as int * num as int, den as int)) by (nonlinear_arith)
            requires
                q == (ca as int * num as int + den as int - 1) / den as int,
                ca == -(c as int),
                c < 0,
                0 <= num,
                1 <= den,
        ;
        -(q as i64)
    } else {
        q as i64
    }
}

impl RealVector {
    /// Componentwise sum of two vectors.
    pub fn add(&self, second: &RealVector) -> (r: RealVector)
        requires
            self@.in_range(),
            second@.in_range(),
        ensures
            r@ == spec_add(self@, second@),
    {
        RealVector { x: self.x + second.x, y: self.y + second.y }
    }

    /// Componentwise difference of two vectors.
    pub fn subtract(&self, second: &RealVector) -> (r: RealVector)
        requires
            self@.in_range(),
            second@.in_range(),
        ensures
            r@ == spec_subtract(self@, second@),
    {
        RealVector { x: self.x - second.x, y: self.y - second.y }
    }

    /// Componentwise product with a fixed-point factor.
    pub fn multiply(&self, factor: i64) -> (r: RealVector)
        requires
            self@.in_range(),
            -COORD_LIMIT <= factor <= COORD_LIMIT,
        ensures
            r@ == spec_multiply(self@, factor as int),
    {
        let fa: u64 = if factor < 0 {
            (-factor) as u64
        } else {
            factor as u64
        };
        let rx = scale_trunc_exec(self.x, (fa as i64), (ONE as u64));
        let ry = scale_trunc_exec(self.y, (fa as i64), (ONE as u64));
        proof {
            lemma_mul_fixed_signs(self.x as int, factor as int, fa as int);
            lemma_mul_fixed_signs(self.y as int, factor as int, fa as int);
        }
        if factor < 0 {
            RealVector { x: -rx, y: -ry }
        } else {
            RealVector { x: rx, y: ry }
        }
    }

    /// The fixed-point Euclidean magnitude (floor of the real one).
    pub fn get_magnitude(&self) -> (m: i64)
        requires
            self@.in_range(),
        ensures
            m == self@.norm(),
            is_sqrt_floor(self@.norm_sq(), m as int),
    {
        let s = self.norm_sq_exec();
        let m = isqrt(s);
        proof {
            lemma_abs_square(self.x as int);
            lemma_abs_square(self.y as int);
        }
        m as i64
    }

    /// The squared magnitude, exactly.
    fn norm_sq_exec(&self) -> (s: u64)
        requires
            self@.in_range(),
        ensures
            s == self@.norm_sq(),
            s <= 4_500_000_000_000_000_000,
    {
        let xa = abs_component(self.x);
        let ya = abs_component(self.y);
        assert(xa * xa <= 2_250_000_000_000_000_000 && ya * ya
            <= 2_250_000_000_000_000_000) by (nonlinear_arith)
            requires
                0 <= xa <= COORD_LIMIT,
                0 <= ya <= COORD_LIMIT,
        ;
        proof {
            lemma_abs_square(self.x as int);
            lemma_abs_square(self.y as int);
        }
        xa * xa + ya * ya
    }

    /// Clamps the magnitude into `[min, max]` while keeping the direction:
    /// a degenerate (near-zero) vector is returned unchanged, a long vector
    /// is scaled down to the `max` circle, a short one up to the `min`
    /// circle, and one already in range is returned as it is.
    pub fn limit(&self, min: i64, max: i64) -> (r: RealVector)
        requires
            self@.in_range(),
            0 <= min <= max <= BOUND_LIMIT,
        ensures
            r@ == spec_limit(self@, min as int, max as int),
            r@.within(if max >= EPSILON_MAG { max as int } else { EPSILON_MAG as int }),
            r@.in_range(),
    {
        let s = self.norm_sq_exec();
        if s < (EPSILON_SQ as u64) {
            proof {
                lemma_degenerate_components(self@);
            }
            return RealVector { x: self.x, y: self.y };
        }
        let m = isqrt(s);
        assert(m * m <= s < 18_446_744_073_709_551_615u64) by (nonlinear_arith)
            requires
                is_sqrt_floor(s as int, m as int),
                s <= 4_500_000_000_000_000_000u64,
        ;
        proof {
            lemma_component_le_root(self@, m as int);
        }
        if m > (max as u64) {
            let d = if m * m == s {
                m
            } else {
                m + 1
            };
            assert(d == sqrt_ceil(s as int));
            let rx = scale_trunc_exec(self.x, max, d);
            let ry = scale_trunc_exec(self.y, max, d);
            proof {
                lemma_scale_trunc_bound(self.x as int, max as int, d as int, m as int);
                lemma_scale_trunc_bound(self.y as int, max as int, d as int, m as int);
            }
            RealVector { x: rx, y: ry }
        } else if m < (min as u64) {
            let rx = scale_away_exec(self.x, min, m);
            let ry = scale_away_exec(self.y, min, m);
            proof {
                lemma_scale_away_bound(self.x as int, min as int, m as int);
                lemma_scale_away_bound(self.y as int, min as int, m as int);
            }
            RealVector { x: rx, y: ry }
        } else {
            RealVector { x: self.x, y: self.y }
        }
    }

    /// Wraps both coordinates toroidally into the box
    /// `[0, width) x [0, height)` of whole world units.
    pub fn bring_to_box(&self, width: i64, height: i64) -> (r: RealVector)
        requires
            0 < width <= 1_500,
            0 < height <= 1_500,
            -WRAP_INPUT_LIMIT <= self.x <= WRAP_INPUT_LIMIT,
            -WRAP_INPUT_LIMIT <= self.y <= WRAP_INPUT_LIMIT,
        ensures
            r@ == spec_bring_to_box(self@, width as int, height as int),
            0 <= r.x < width * ONE,
            0 <= r.y < height * ONE,
            r@.in_range(),
    {
        RealVector {
            x: wrap_periodic(self.x, 0, width * ONE),
            y: wrap_periodic(self.y, 0, height * ONE),
        }
    }
}

/// A degenerate vector's components are below the epsilon magnitude.
proof fn lemma_degenerate_components(v: V2)
    requires
        v.norm_sq() < EPSILON_SQ,
    ensures
        v.within(EPSILON_MAG - 1),
{
    assert(-(EPSILON_MAG - 1) <= v.x <= EPSILON_MAG - 1 && -(EPSILON_MAG - 1) <= v.y
        <= EPSILON_MAG - 1) by (nonlinear_arith)
        requires
            v.x * v.x + v.y * v.y < EPSILON_SQ,
    ;
}

/// No component exceeds the floor square root of the squared magnitude.
proof fn lemma_component_le_root(v: V2, m: int)
    requires
        is_sqrt_floor(v.norm_sq(), m),
    ensures
        -m <= v.x <= m,
        -m <= v.y <= m,
{
    assert(-m <= v.x <= m && -m <= v.y <= m) by (nonlinear_arith)
        requires
            0 <= m,
            v.x * v.x + v.y * v.y < (m + 1) * (m + 1),
    ;
}

/// Scaling a component no longer than `den` by `num / den` toward zero
/// keeps it within `num` of zero.
proof fn lemma_scale_trunc_bound(c: int, num: int, den: int, m: int)
    requires
        -m <= c <= m,
        0 <= m <= den,
        1 <= den,
        0 <= num,
    ensures
        -num <= scale_trunc(c, num, den) <= num,
{
    assert(-num <= div_trunc(c * num, den) <= num) by (nonlinear_arith)
        requires
            -m <= c <= m,
            0 <= m <= den,
            1 <= den,
            0 <= num,
    ;
}

/// Scaling a component no longer than `den` by `num / den` away from zero
/// keeps it within `num` of zero.
proof fn lemma_scale_away_bound(c: int, num: int, den: int)
    requires
        -den <= c <= den,
        1 <= den,
        0 <= num,
    ensures
        -num <= scale_away(c, num, den) <= num,
{
    assert(-num <= div_away(c * num, den) <= num) by (nonlinear_arith)
        requires
            -den <= c <= den,
            1 <= den,
            0 <= num,
    ;
}

/// Squaring forgets the sign.
proof fn lemma_abs_square(c: int)
    ensures
        c * c == (-c) * (-c),
{
    assert(c * c == (-c) * (-c)) by (nonlinear_arith);
}

/// Fixed-point multiplication by a signed factor agrees with scaling by
/// its absolute value followed by a sign flip.
proof fn lemma_mul_fixed_signs(c: int, factor: int, fa: int)
    requires
        fa == if factor >= 0 { factor } else { -factor },
    ensures
        factor >= 0 ==> spec_mul_fixed(c, factor) == scale_trunc(c, fa, ONE as int),
        factor < 0 ==> spec_mul_fixed(c, factor) == -scale_trunc(c, fa, ONE as int),
{
    assert(c * factor == if factor >= 0 { c * fa } else { -(c * fa) }) by (nonlinear_arith)
        requires
            fa == if factor >= 0 { factor } else { -factor },
    ;
}

} // verus!

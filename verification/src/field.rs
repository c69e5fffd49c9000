//! The flow-field sampler: a pure, closed-form map from a phase-shifted 2D
//! coordinate to the field's direction at that point.
//!
//! The field's direction angle at `(x, y)` is `atan2(sin x, cos y)`: the
//! angle of the synthetic vector `(cos y, sin x)`. The sampler returns that
//! vector itself; laying a cell's arrow of a wanted length along the sampled
//! angle is then rescaling this vector, with no need to take an angle apart
//! and reassemble it.

use vstd::prelude::*;

verus! {

use crate::fixed::ONE;
use crate::real_vector::{RealVector, V2};
use crate::trig::{ANGLE_INPUT_LIMIT, cos_fx, sin_fx, spec_cos, spec_sin};

/// The synthetic vector `(cos y, sin x)` whose angle is the field's
/// direction at `(x, y)`.
pub open spec fn spec_sample(x: int, y: int) -> V2 {
    V2 { x: spec_cos(y), y: spec_sin(x) }
}

/// Samples the field at the phase-shifted coordinate `(x, y)`: returns the
/// vector pointing along the field's direction angle there.
pub fn sample(x: i64, y: i64) -> (r: RealVector)
    requires
        -ANGLE_INPUT_LIMIT <= x <= ANGLE_INPUT_LIMIT,
        -ANGLE_INPUT_LIMIT <= y <= ANGLE_INPUT_LIMIT,
    ensures
        r@ == spec_sample(x as int, y as int),
        r@.within(ONE as int),
{
    RealVector { x: cos_fx(y), y: sin_fx(x) }
}

} // verus!

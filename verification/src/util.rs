//! Numbers that the renderer names, and small helpers.

use vstd::prelude::*;
use crate::scalar::Scalar;

pub mod random;

verus! {

/// The pattern of positive infinity.
pub const INFINITY: u64 = 0x7FF0_0000_0000_0000;

/// The pattern of negative infinity.
pub const NEG_INFINITY: u64 = 0xFFF0_0000_0000_0000;

/// The pattern of the binary64 number nearest to the ratio of a circle's
/// circumference to its diameter.
pub const PI: u64 = 0x4009_21FB_5444_2D18;

pub open spec fn clamp_spec(x: Scalar, min: Scalar, max: Scalar) -> Scalar {
    if x.lt_spec(min) {
        min
    } else if max.lt_spec(x) {
        max
    } else {
        x
    }
}

/// `x`, or the nearer end of `[min, max]` where `x` lies outside. A NaN is
/// handed back as it is.
pub fn clamp(x: Scalar, min: Scalar, max: Scalar) -> (r: Scalar)
    ensures
        r == clamp_spec(x, min, max),
        min.le_spec(max) && !x.is_nan_spec() ==> min.le_spec(r) && r.le_spec(max),
{
    if x.lt(min) {
        min
    } else if max.lt(x) {
        max
    } else {
        x
    }
}

} // verus!

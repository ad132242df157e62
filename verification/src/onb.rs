//! Orthonormal bases.

use vstd::prelude::*;
use crate::aarect::ONE_BITS;
use crate::scalar::Scalar;
use crate::vec3::Vec3;

verus! {

/// The pattern of 0.9: a direction whose first component is farther from
/// zero counts as close to the first axis.
pub const NEARLY_ALONG_BITS: u64 = 0x3FEC_CCCC_CCCC_CCCD;

/// Three directions `u`, `v` and `w`, held in this order.
#[derive(Clone, Copy, Debug)]
pub struct OrthoNormalBasis {
    pub axis: [Vec3; 3],
}

/// The axis that helps to build a basis about the direction whose first
/// component is `w_x`: the second coordinate axis where the direction is
/// close to the first, and the first axis else, so that the helper is never
/// nearly parallel to the direction.
pub open spec fn helper_axis_spec(w_x: Scalar) -> Vec3 {
    let zero = Scalar { bits: 0 };
    let one = Scalar { bits: ONE_BITS };
    if (Scalar { bits: NEARLY_ALONG_BITS }).lt_spec(w_x.abs_spec()) {
        Vec3(zero, one, zero)
    } else {
        Vec3(one, zero, zero)
    }
}

impl OrthoNormalBasis {
    /// The basis of three zero vectors, to be built later.
    pub fn new() -> (b: OrthoNormalBasis)
        ensures
            b.axis@ == seq![
                Vec3(Scalar { bits: 0 }, Scalar { bits: 0 }, Scalar { bits: 0 }),
                Vec3(Scalar { bits: 0 }, Scalar { bits: 0 }, Scalar { bits: 0 }),
                Vec3(Scalar { bits: 0 }, Scalar { bits: 0 }, Scalar { bits: 0 }),
            ],
    {
        OrthoNormalBasis { axis: [Vec3::new(), Vec3::new(), Vec3::new()] }
    }

    /// The basis of the three given directions.
    pub fn from_axes(u: Vec3, v: Vec3, w: Vec3) -> (b: OrthoNormalBasis)
        ensures
            b.axis@ == seq![u, v, w],
    {
        OrthoNormalBasis { axis: [u, v, w] }
    }

    pub fn u(&self) -> (d: Vec3)
        ensures
            d == self.axis@[0],
    {
        self.axis[0]
    }

    pub fn v(&self) -> (d: Vec3)
        ensures
            d == self.axis@[1],
    {
        self.axis[1]
    }

    pub fn w(&self) -> (d: Vec3)
        ensures
            d == self.axis@[2],
    {
        self.axis[2]
    }

    /// The direction at place `idx`.
    pub fn get(&self, idx: usize) -> (d: Vec3)
        requires
            idx < 3,
        ensures
            d == self.axis@[idx as int],
    {
        self.axis[idx]
    }

    /// The axis with which the basis about a unit direction is built, from
    /// the direction's first component.
    pub fn helper_axis(w_x: Scalar) -> (a: Vec3)
        ensures
            a == helper_axis_spec(w_x),
    {
        let zero = Scalar { bits: 0 };
        let one = Scalar { bits: ONE_BITS };
        if (Scalar { bits: NEARLY_ALONG_BITS }).lt(w_x.abs()) {
            Vec3(zero, one, zero)
        } else {
            Vec3(one, zero, zero)
        }
    }
}

} // verus!

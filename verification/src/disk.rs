//! Whether a ray hits a disk, or a ring, in a horizontal plane.

use vstd::prelude::*;
use crate::scalar::Scalar;
use crate::sphere::{in_range, is_in_range};

verus! {

/// What decides a ray's hit of a disk.
#[derive(Clone, Copy, Debug, PartialEq, Eq, Structural)]
pub struct Meeting {
    /// The ray's direction along the disk's axis.
    pub dir_y: Scalar,
    /// The parameter at which the ray meets the disk's plane.
    pub t_hit: Scalar,
    /// The square of the distance from the axis to the point where the ray
    /// meets the plane.
    pub dist2: Scalar,
    /// The square of the disk's radius.
    pub radius2: Scalar,
    /// The square of the radius of the disk's hole.
    pub inner_radius2: Scalar,
    /// The angle about the axis of the point where the ray meets the plane.
    pub phi: Scalar,
    /// The part of the turn that the disk covers.
    pub phi_max: Scalar,
}

/// A ray hits the disk where it is not parallel to the disk's plane, meets
/// the plane within the range, between the hole and the rim, and within the
/// part of the turn that the disk covers. A meeting with a NaN among what
/// is compared is no hit.
pub open spec fn hits_spec(m: Meeting, t_min: Scalar, t_max: Scalar) -> bool {
    let zero = Scalar { bits: 0 };
    &&& m.dir_y.lt_spec(zero) || zero.lt_spec(m.dir_y)
    &&& in_range(m.t_hit, t_min, t_max)
    &&& m.inner_radius2.le_spec(m.dist2)
    &&& m.dist2.le_spec(m.radius2)
    &&& m.phi.le_spec(m.phi_max)
}

/// Whether a ray hits the disk within `[t_min, t_max]`.
pub fn hits(m: Meeting, t_min: Scalar, t_max: Scalar) -> (b: bool)
    ensures
        b == hits_spec(m, t_min, t_max),
{
    let zero = Scalar { bits: 0 };
    if !(m.dir_y.lt(zero) || zero.lt(m.dir_y)) {
        return false;
    }
    if !is_in_range(m.t_hit, t_min, t_max) {
        return false;
    }
    if !(m.inner_radius2.le(m.dist2) && m.dist2.le(m.radius2)) {
        return false;
    }
    m.phi.le(m.phi_max)
}

} // verus!

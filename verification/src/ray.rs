//! Rays.

use vstd::prelude::*;
use crate::scalar::Scalar;
use crate::vec3::{Point3, Vec3};

verus! {

/// A half-line through the scene, and the moment at which it is cast.
#[derive(Clone, Copy, Debug, PartialEq, Eq, Structural)]
pub struct Ray {
    pub origin: Point3,
    pub dir: Vec3,
    pub time: Scalar,
}

impl Ray {
    pub fn new(origin: Point3, dir: Vec3, time: Scalar) -> (r: Ray)
        ensures
            r == (Ray { origin, dir, time }),
    {
        Ray { origin, dir, time }
    }
}

} // verus!

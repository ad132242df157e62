//! Rectangles that lie in a plane of constant `x`, `y` or `z`.

use vstd::prelude::*;
use crate::scalar::Scalar;
use crate::sphere::{in_range, is_in_range};
use crate::vec3::{Axis, Point3, Vec3};

verus! {

/// The pattern of the number one.
pub const ONE_BITS: u64 = 0x3FF0_0000_0000_0000;

/// The unit vector along an axis.
pub open spec fn unit_along(axis: Axis) -> Vec3 {
    let zero = Scalar { bits: 0 };
    let one = Scalar { bits: ONE_BITS };
    match axis {
        Axis::X => Vec3(one, zero, zero),
        Axis::Y => Vec3(zero, one, zero),
        Axis::Z => Vec3(zero, zero, one),
    }
}

/// A rectangle with sides along two axes, in a plane across the third.
///
/// `p0` and `p1` are two opposite corners, `k_axis` the axis that the
/// rectangle's plane crosses, and `norm` the unit vector along it.
#[derive(Clone, Copy, Debug, PartialEq, Eq, Structural)]
pub struct AARect {
    pub p0: Point3,
    pub p1: Point3,
    pub norm: Vec3,
    pub k_axis: Axis,
    pub mat: usize,
}

impl AARect {
    /// The two corners lie in one plane across `k_axis`, and the normal is
    /// the unit vector along that axis.
    pub open spec fn wf(self) -> bool {
        &&& self.p0.axis_spec(self.k_axis).eq_spec(self.p1.axis_spec(self.k_axis))
        &&& self.norm == unit_along(self.k_axis)
    }

    /// The first of the two axes along which the rectangle extends.
    pub open spec fn a_axis_spec(self) -> Axis {
        match self.k_axis {
            Axis::X => Axis::Y,
            _ => Axis::X,
        }
    }

    /// The second of the two axes along which the rectangle extends.
    pub open spec fn b_axis_spec(self) -> Axis {
        match self.k_axis {
            Axis::Z => Axis::Y,
            _ => Axis::Z,
        }
    }

    /// A point of the rectangle's plane lies on the rectangle: `a` and `b`
    /// are the point's coordinates along the rectangle's two axes, and each
    /// lies between the coordinates of the two corners, the ends included. A
    /// coordinate that is a NaN lies nowhere.
    pub open spec fn covers(self, a: Scalar, b: Scalar) -> bool {
        let a_axis = self.a_axis_spec();
        let b_axis = self.b_axis_spec();
        &&& self.p0.axis_spec(a_axis).le_spec(a)
        &&& a.le_spec(self.p1.axis_spec(a_axis))
        &&& self.p0.axis_spec(b_axis).le_spec(b)
        &&& b.le_spec(self.p1.axis_spec(b_axis))
    }

    fn new(p0: Point3, p1: Point3, k_axis: Axis, mat: usize) -> (rect: Self)
        requires
            p0.axis_spec(k_axis).eq_spec(p1.axis_spec(k_axis)),
        ensures
            rect == (AARect { p0, p1, norm: unit_along(k_axis), k_axis, mat }),
            rect.wf(),
    {
        let zero = Scalar { bits: 0 };
        let one = Scalar { bits: ONE_BITS };
        AARect {
            p0,
            p1,
            norm: match k_axis {
                Axis::X => Vec3(one, zero, zero),
                Axis::Y => Vec3(zero, one, zero),
                Axis::Z => Vec3(zero, zero, one),
            },
            k_axis,
            mat,
        }
    }

    /// The rectangle `[x0, x1] x [y0, y1]` in the plane `z = k`.
    pub fn xy_rect(x0: Scalar, x1: Scalar, y0: Scalar, y1: Scalar, k: Scalar, mat: usize) -> (rect:
        Self)
        requires
            !k.is_nan_spec(),
        ensures
            rect == (AARect {
                p0: Vec3(x0, y0, k),
                p1: Vec3(x1, y1, k),
                norm: unit_along(Axis::Z),
                k_axis: Axis::Z,
                mat,
            }),
            rect.wf(),
    {
        Self::new(Vec3(x0, y0, k), Vec3(x1, y1, k), Axis::Z, mat)
    }

    /// The rectangle `[x0, x1] x [z0, z1]` in the plane `y = k`.
    pub fn xz_rect(x0: Scalar, x1: Scalar, z0: Scalar, z1: Scalar, k: Scalar, mat: usize) -> (rect:
        Self)
        requires
            !k.is_nan_spec(),
        ensures
            rect == (AARect {
                p0: Vec3(x0, k, z0),
                p1: Vec3(x1, k, z1),
                norm: unit_along(Axis::Y),
                k_axis: Axis::Y,
                mat,
            }),
            rect.wf(),
    {
        Self::new(Vec3(x0, k, z0), Vec3(x1, k, z1), Axis::Y, mat)
    }

    /// The rectangle `[y0, y1] x [z0, z1]` in the plane `x = k`.
    pub fn yz_rect(y0: Scalar, y1: Scalar, z0: Scalar, z1: Scalar, k: Scalar, mat: usize) -> (rect:
        Self)
        requires
            !k.is_nan_spec(),
        ensures
            rect == (AARect {
                p0: Vec3(k, y0, z0),
                p1: Vec3(k, y1, z1),
                norm: unit_along(Axis::X),
                k_axis: Axis::X,
                mat,
            }),
            rect.wf(),
    {
        Self::new(Vec3(k, y0, z0), Vec3(k, y1, z1), Axis::X, mat)
    }

    /// The two axes along which the rectangle extends.
    pub fn axes(&self) -> (ab: (Axis, Axis))
        ensures
            ab == (self.a_axis_spec(), self.b_axis_spec()),
            ab.0 != self.k_axis && ab.1 != self.k_axis && ab.0 != ab.1,
    {
        let a_axis = match self.k_axis {
            Axis::X => Axis::Y,
            _ => Axis::X,
        };
        let b_axis = match self.k_axis {
            Axis::Z => Axis::Y,
            _ => Axis::Z,
        };
        (a_axis, b_axis)
    }

    /// Whether a ray hits the rectangle within `[t_min, t_max]`: `t` is the
    /// parameter at which the ray meets the rectangle's plane, `a` and `b`
    /// are the coordinates of the point where it does, along the rectangle's
    /// two axes. The ray hits where `t` lies in the range and the point on
    /// the rectangle. A ray that runs in the rectangle's plane meets it at no
    /// parameter, and does not hit.
    pub fn hit(&self, t: Scalar, a: Scalar, b: Scalar, t_min: Scalar, t_max: Scalar) -> (hits: bool)
        ensures
            hits == (in_range(t, t_min, t_max) && self.covers(a, b)),
            hits ==> !t.is_nan_spec() && !a.is_nan_spec() && !b.is_nan_spec(),
    {
        if !is_in_range(t, t_min, t_max) {
            return false;
        }
        let (a_axis, b_axis) = self.axes();
        let a0 = self.p0.axis(a_axis);
        let a1 = self.p1.axis(a_axis);
        let b0 = self.p0.axis(b_axis);
        let b1 = self.p1.axis(b_axis);
        a0.le(a) && a.le(a1) && b0.le(b) && b.le(b1)
    }
}

} // verus!

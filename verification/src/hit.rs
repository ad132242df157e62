//! Records of intersections, and the decisions of the spatial decorators.

use vstd::prelude::*;
use crate::scalar::Scalar;
use crate::vec3::{Axis, Point3, Vec3};

verus! {

/// The differential surface data at a point of intersection.
#[derive(Clone, Copy, Debug, PartialEq, Eq, Structural)]
pub struct ShadingGeometry {
    /// The normal to shade with.
    pub n: Vec3,
    pub dpdu: Vec3,
    pub dpdv: Vec3,
}

/// One intersection of a ray with a surface.
///
/// `mat` is the handle of the surface's material: its place in the table of
/// materials that the scene keeps.
#[derive(Clone, Copy, Debug, PartialEq, Eq, Structural)]
pub struct HitRecord {
    pub p: Point3,
    /// The geometric normal, turned against the incoming ray.
    pub norm: Vec3,
    pub mat: usize,
    pub t: Scalar,
    pub u: Scalar,
    pub v: Scalar,
    /// Whether the ray arrives on the side to which the surface's outward
    /// normal points.
    pub front_face: bool,
    pub shading_geo: ShadingGeometry,
}

/// A ray arrives at the front of a surface when it runs against the outward
/// normal: when `facing`, the dot product of the ray's direction and that
/// normal, is below zero.
pub open spec fn is_front(facing: Scalar) -> bool {
    facing.lt_spec(Scalar { bits: 0 })
}

/// The outward normal turned against the ray.
pub open spec fn against_ray(facing: Scalar, out_norm: Vec3) -> Vec3 {
    if is_front(facing) {
        out_norm
    } else {
        out_norm.neg_spec()
    }
}

impl HitRecord {
    pub open spec fn new_spec(
        facing: Scalar,
        p: Point3,
        out_norm: Vec3,
        t: Scalar,
        u: Scalar,
        v: Scalar,
        mat: usize,
    ) -> HitRecord {
        HitRecord {
            p,
            norm: against_ray(facing, out_norm),
            mat,
            t,
            u,
            v,
            front_face: is_front(facing),
            shading_geo: ShadingGeometry {
                n: against_ray(facing, out_norm),
                dpdu: Vec3(Scalar { bits: 0 }, Scalar { bits: 0 }, Scalar { bits: 0 }),
                dpdv: Vec3(Scalar { bits: 0 }, Scalar { bits: 0 }, Scalar { bits: 0 }),
            },
        }
    }

    /// The record of a hit at `p`, where the surface's outward normal is
    /// `out_norm` and `facing` is the dot product of the ray's direction and
    /// that normal. The record's normal points against the ray: it is the
    /// outward normal where the ray arrives from outside, and its opposite
    /// where the ray arrives from inside.
    pub fn new(
        facing: Scalar,
        p: Point3,
        out_norm: Vec3,
        t: Scalar,
        u: Scalar,
        v: Scalar,
        mat: usize,
    ) -> (hr: HitRecord)
        ensures
            hr == Self::new_spec(facing, p, out_norm, t, u, v, mat),
            hr.front_face <==> facing.lt_spec(Scalar { bits: 0 }),
            hr.norm == if hr.front_face { out_norm } else { out_norm.neg_spec() },
    {
        let front_face = facing.lt(Scalar { bits: 0 });
        let norm = if front_face {
            out_norm
        } else {
            out_norm.neg()
        };
        HitRecord {
            p,
            norm,
            mat,
            t,
            u,
            v,
            front_face,
            shading_geo: ShadingGeometry { n: norm, dpdu: Vec3::new(), dpdv: Vec3::new() },
        }
    }

    /// As [`HitRecord::new`], with the two partial derivatives of the point.
    pub fn with_dps(
        facing: Scalar,
        p: Point3,
        out_norm: Vec3,
        t: Scalar,
        u: Scalar,
        v: Scalar,
        mat: usize,
        dpdu: Vec3,
        dpdv: Vec3,
    ) -> (hr: HitRecord)
        ensures
            hr == (HitRecord {
                shading_geo: ShadingGeometry {
                    n: against_ray(facing, out_norm),
                    dpdu,
                    dpdv,
                },
                ..Self::new_spec(facing, p, out_norm, t, u, v, mat)
            }),
    {
        let mut hr = Self::new(facing, p, out_norm, t, u, v, mat);
        hr.shading_geo.dpdu = dpdu;
        hr.shading_geo.dpdv = dpdv;
        hr
    }

    /// Replaces the shading geometry by one with the derivatives `dpdu` and
    /// `dpdv`. `n` is the unit normal that the two span, and `alignment` the
    /// dot product of the record's geometric normal and `n`.
    ///
    /// Where `n` holds a NaN (the derivatives span no plane) the record is
    /// left as it is. Else the shading normal is `n`, turned to the side of
    /// the geometric normal.
    pub fn set_shading_geometry(&mut self, n: Vec3, alignment: Scalar, dpdu: Vec3, dpdv: Vec3)
        ensures
            n.is_nan_spec() ==> *final(self) == *old(self),
            !n.is_nan_spec() ==> *final(self) == (HitRecord {
                shading_geo: ShadingGeometry {
                    n: if alignment.lt_spec(Scalar { bits: 0 }) {
                        n.neg_spec()
                    } else {
                        n
                    },
                    dpdu,
                    dpdv,
                },
                ..*old(self)
            }),
    {
        if n.is_nan() {
            return ;
        }
        let turned = if alignment.lt(Scalar { bits: 0 }) {
            n.neg()
        } else {
            n
        };
        self.shading_geo = ShadingGeometry { n: turned, dpdu, dpdv };
    }

    /// Sets the side and the geometric normal as [`HitRecord::new`] does.
    pub fn set_face_normal(&mut self, facing: Scalar, out_norm: Vec3)
        ensures
            *final(self) == (HitRecord {
                front_face: is_front(facing),
                norm: against_ray(facing, out_norm),
                ..*old(self)
            }),
    {
        self.front_face = facing.lt(Scalar { bits: 0 });
        self.norm = if self.front_face {
            out_norm
        } else {
            out_norm.neg()
        };
    }
}

/// What a decorator that shows a surface's other side reports where the
/// wrapped object reports `inner`: the same, with front and back exchanged.
pub fn flip_face(inner: Option<HitRecord>) -> (res: Option<HitRecord>)
    ensures
        inner is None <==> res is None,
        inner matches Some(hr) ==> res == Some(HitRecord { front_face: !hr.front_face, ..hr }),
{
    match inner {
        Some(hr) => Some(HitRecord { front_face: !hr.front_face, ..hr }),
        None => None,
    }
}

/// The two pairs of terms whose weighted sums are the two components that a
/// turn about `axis` changes in `(x, y, z)`. The first component is the
/// cosine times the first term of the first pair plus the sine times its
/// second; the second component is the sine times the first term of the
/// second pair plus the cosine times its second.
pub open spec fn rot_coeffs_spec(x: Scalar, y: Scalar, z: Scalar, axis: Axis) -> (
    (Scalar, Scalar),
    (Scalar, Scalar),
) {
    match axis {
        Axis::X => ((y, z.neg_spec()), (y, z)),
        Axis::Y => ((x, z), (x.neg_spec(), z)),
        Axis::Z => ((x, y.neg_spec()), (x, y)),
    }
}

/// The terms of a turn of `(x, y, z)` about `axis`.
pub fn rot_coeffs(x: Scalar, y: Scalar, z: Scalar, axis: Axis) -> (coeffs: (
    (Scalar, Scalar),
    (Scalar, Scalar),
))
    ensures
        coeffs == rot_coeffs_spec(x, y, z, axis),
{
    let a_coeff = match axis {
        Axis::X => (y, z.neg()),
        Axis::Y => (x, z),
        Axis::Z => (x, y.neg()),
    };
    let b_coeff = match axis {
        Axis::X => (y, z),
        Axis::Y => (x.neg(), z),
        Axis::Z => (x, y),
    };
    (a_coeff, b_coeff)
}

/// The terms of a turn of `v` about `axis`.
pub fn rot_coeffs_vec(v: Vec3, axis: Axis) -> (coeffs: ((Scalar, Scalar), (Scalar, Scalar)))
    ensures
        coeffs == rot_coeffs_spec(v.0, v.1, v.2, axis),
{
    rot_coeffs(v.0, v.1, v.2, axis)
}

/// The places of the two components that a turn about `rot_axis` changes,
/// the lower place first.
pub fn off_axes(rot_axis: Axis) -> (places: (usize, usize))
    ensures
        places == match rot_axis {
            Axis::X => (1usize, 2usize),
            Axis::Y => (0usize, 2usize),
            Axis::Z => (0usize, 1usize),
        },
        places.0 < places.1 < 3,
        places.0 != rot_axis.index_spec(),
        places.1 != rot_axis.index_spec(),
{
    match rot_axis {
        Axis::X => (1, 2),
        Axis::Y => (0, 2),
        Axis::Z => (0, 1),
    }
}

/// The vector `v` with the two components that a turn about `rot_axis`
/// changes replaced by `new_a` and `new_b`.
pub fn rotated(v: Vec3, rot_axis: Axis, new_a: Scalar, new_b: Scalar) -> (r: Vec3)
    ensures
        r == match rot_axis {
            Axis::X => Vec3(v.0, new_a, new_b),
            Axis::Y => Vec3(new_a, v.1, new_b),
            Axis::Z => Vec3(new_a, new_b, v.2),
        },
        r.axis_spec(rot_axis) == v.axis_spec(rot_axis),
{
    let (a_axis, b_axis) = off_axes(rot_axis);
    let mut r = v;
    r.set(a_axis, new_a);
    r.set(b_axis, new_b);
    r
}

} // verus!

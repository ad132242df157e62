//! Boxes made of six rectangles.

use vstd::prelude::*;
use crate::aabb::AABB;
use crate::aarect::{unit_along, AARect};
use crate::hittable_list::HittableList;
use crate::vec3::{Axis, Point3, Vec3};

verus! {

/// A box with faces across the axes, between two opposite corners.
pub struct Boxx {
    pub box_min: Point3,
    pub box_max: Point3,
    pub sides: HittableList<AARect>,
}

/// The six faces of the box between `p0` and `p1`: for each axis the face
/// through `p1` and then the face through `p0`, the axes in the order `z`,
/// `y`, `x`.
pub open spec fn faces(p0: Point3, p1: Point3, mat: usize) -> Seq<AARect> {
    seq![
        AARect {
            p0: Vec3(p0.0, p0.1, p1.2),
            p1: Vec3(p1.0, p1.1, p1.2),
            norm: unit_along(Axis::Z),
            k_axis: Axis::Z,
            mat,
        },
        AARect {
            p0: Vec3(p0.0, p0.1, p0.2),
            p1: Vec3(p1.0, p1.1, p0.2),
            norm: unit_along(Axis::Z),
            k_axis: Axis::Z,
            mat,
        },
        AARect {
            p0: Vec3(p0.0, p1.1, p0.2),
            p1: Vec3(p1.0, p1.1, p1.2),
            norm: unit_along(Axis::Y),
            k_axis: Axis::Y,
            mat,
        },
        AARect {
            p0: Vec3(p0.0, p0.1, p0.2),
            p1: Vec3(p1.0, p0.1, p1.2),
            norm: unit_along(Axis::Y),
            k_axis: Axis::Y,
            mat,
        },
        AARect {
            p0: Vec3(p1.0, p0.1, p0.2),
            p1: Vec3(p1.0, p1.1, p1.2),
            norm: unit_along(Axis::X),
            k_axis: Axis::X,
            mat,
        },
        AARect {
            p0: Vec3(p0.0, p0.1, p0.2),
            p1: Vec3(p0.0, p1.1, p1.2),
            norm: unit_along(Axis::X),
            k_axis: Axis::X,
            mat,
        },
    ]
}

impl Boxx {
    /// The box between the corners `p0` and `p1`, all of one material.
    pub fn new(p0: Point3, p1: Point3, mat: usize) -> (b: Self)
        requires
            !p0.is_nan_spec(),
            !p1.is_nan_spec(),
        ensures
            b.box_min == p0,
            b.box_max == p1,
            b.sides.objects@ == faces(p0, p1, mat),
            forall|i: int| 0 <= i < 6 ==> (#[trigger] b.sides.objects@[i]).wf(),
    {
        let mut sides: HittableList<AARect> = HittableList::new(Vec::new());
        sides.add(AARect::xy_rect(p0.x(), p1.x(), p0.y(), p1.y(), p1.z(), mat));
        sides.add(AARect::xy_rect(p0.x(), p1.x(), p0.y(), p1.y(), p0.z(), mat));
        sides.add(AARect::xz_rect(p0.x(), p1.x(), p0.z(), p1.z(), p1.y(), mat));
        sides.add(AARect::xz_rect(p0.x(), p1.x(), p0.z(), p1.z(), p0.y(), mat));
        sides.add(AARect::yz_rect(p0.y(), p1.y(), p0.z(), p1.z(), p1.x(), mat));
        sides.add(AARect::yz_rect(p0.y(), p1.y(), p0.z(), p1.z(), p0.x(), mat));
        proof {
            assert(sides.objects@ =~= faces(p0, p1, mat));
        }
        Boxx { box_min: p0, box_max: p1, sides }
    }

    /// The box itself.
    pub fn bounding_box(&self) -> (b: Option<AABB>)
        ensures
            b == Some(AABB { min: self.box_min, max: self.box_max }),
    {
        Some(AABB { min: self.box_min, max: self.box_max })
    }
}

} // verus!

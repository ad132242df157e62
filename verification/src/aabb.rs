//! Axis-aligned bounding boxes.

use vstd::prelude::*;
use crate::scalar::Scalar;
use crate::vec3::{Axis, Point3, Vec3};

verus! {

/// An axis-aligned box, by its two extreme corners.
#[allow(clippy::upper_case_acronyms)]
#[derive(Clone, Copy, Debug, PartialEq, Eq, Structural)]
pub struct AABB {
    pub min: Point3,
    pub max: Point3,
}

/// Where a ray meets the two planes that bound a box along one axis.
///
/// `t0` is the ray parameter at the plane of the box's lower corner, `t1` the
/// one at the plane of its upper corner, and `inv_dir` the inverse of the
/// ray's direction along the axis, whose sign tells in which order the ray
/// meets the two.
#[derive(Clone, Copy, Debug, PartialEq, Eq, Structural)]
pub struct Slab {
    pub t0: Scalar,
    pub t1: Scalar,
    pub inv_dir: Scalar,
}

/// The part of a range of ray parameters that lies between the two planes of
/// a slab. A crossing that is a NaN leaves its end of the range as it is.
pub open spec fn clip_spec(slab: Slab, range: (Scalar, Scalar)) -> (Scalar, Scalar) {
    let zero = Scalar { bits: 0 };
    let (enter, exit) = if slab.inv_dir.lt_spec(zero) {
        (slab.t1, slab.t0)
    } else {
        (slab.t0, slab.t1)
    };
    (
        if range.0.lt_spec(enter) {
            enter
        } else {
            range.0
        },
        if exit.lt_spec(range.1) {
            exit
        } else {
            range.1
        },
    )
}

/// A range holds no parameter when its upper end is below its lower one. A
/// range whose two ends are one number holds that number.
pub open spec fn is_void(range: (Scalar, Scalar)) -> bool {
    range.1.lt_spec(range.0)
}

/// Clips a range of ray parameters to a slab.
pub fn clip(slab: Slab, range: (Scalar, Scalar)) -> (clipped: (Scalar, Scalar))
    ensures
        clipped == clip_spec(slab, range),
{
    let zero = Scalar { bits: 0 };
    let (enter, exit) = if slab.inv_dir.lt(zero) {
        (slab.t1, slab.t0)
    } else {
        (slab.t0, slab.t1)
    };
    (
        if range.0.lt(enter) {
            enter
        } else {
            range.0
        },
        if exit.lt(range.1) {
            exit
        } else {
            range.1
        },
    )
}

impl AABB {
    /// No coordinate is a NaN, and along each axis the lower corner is not
    /// above the upper one.
    pub open spec fn wf(self) -> bool {
        &&& self.min.0.le_spec(self.max.0)
        &&& self.min.1.le_spec(self.max.1)
        &&& self.min.2.le_spec(self.max.2)
    }

    /// The point lies in the box, its faces included.
    pub open spec fn holds(self, p: Point3) -> bool {
        &&& self.min.0.le_spec(p.0) && p.0.le_spec(self.max.0)
        &&& self.min.1.le_spec(p.1) && p.1.le_spec(self.max.1)
        &&& self.min.2.le_spec(p.2) && p.2.le_spec(self.max.2)
    }

    /// The other box lies in this one.
    pub open spec fn encloses(self, other: AABB) -> bool {
        &&& self.min.0.le_spec(other.min.0) && other.max.0.le_spec(self.max.0)
        &&& self.min.1.le_spec(other.min.1) && other.max.1.le_spec(self.max.1)
        &&& self.min.2.le_spec(other.min.2) && other.max.2.le_spec(self.max.2)
    }

    /// The box spanned by the smaller of the lower corners and the larger of
    /// the upper ones, axis by axis.
    pub open spec fn union_spec(box0: AABB, box1: AABB) -> AABB {
        AABB {
            min: Vec3(
                box0.min.0.min_spec(box1.min.0),
                box0.min.1.min_spec(box1.min.1),
                box0.min.2.min_spec(box1.min.2),
            ),
            max: Vec3(
                box0.max.0.max_spec(box1.max.0),
                box0.max.1.max_spec(box1.max.1),
                box0.max.2.max_spec(box1.max.2),
            ),
        }
    }

    /// Whether a ray whose crossings of the box's three slabs are given meets
    /// the box within a range of parameters: the range is clipped to one slab
    /// after the other, and the answer is no as soon as nothing is left of it.
    pub open spec fn hit_spec(slabs: [Slab; 3], t_min: Scalar, t_max: Scalar) -> bool {
        let r0 = clip_spec(slabs@[0], (t_min, t_max));
        let r1 = clip_spec(slabs@[1], r0);
        let r2 = clip_spec(slabs@[2], r1);
        !is_void(r0) && !is_void(r1) && !is_void(r2)
    }

    /// The slab test. The ray's crossings of the three pairs of planes are
    /// the caller's to compute; what is left of the range decides.
    pub fn hit(slabs: &[Slab; 3], t_min: Scalar, t_max: Scalar) -> (b: bool)
        ensures
            b == Self::hit_spec(*slabs, t_min, t_max),
    {
        let r0 = clip(slabs[0], (t_min, t_max));
        if r0.1.lt(r0.0) {
            return false;
        }
        let r1 = clip(slabs[1], r0);
        if r1.1.lt(r1.0) {
            return false;
        }
        let r2 = clip(slabs[2], r1);
        !r2.1.lt(r2.0)
    }

    /// The box that includes both `box0` and `box1`.
    pub fn surrounding_box(box0: AABB, box1: AABB) -> (b: AABB)
        ensures
            b == Self::union_spec(box0, box1),
            box0.wf() && box1.wf() ==> b.wf() && b.encloses(box0) && b.encloses(box1),
    {
        AABB {
            min: Vec3(
                box0.min.x().min(box1.min.x()),
                box0.min.y().min(box1.min.y()),
                box0.min.z().min(box1.min.z()),
            ),
            max: Vec3(
                box0.max.x().max(box1.max.x()),
                box0.max.y().max(box1.max.y()),
                box0.max.z().max(box1.max.z()),
            ),
        }
    }

    /// The lower corner's coordinate along an axis.
    pub fn min_along(&self, axis: Axis) -> (s: Scalar)
        ensures
            s == self.min.axis_spec(axis),
    {
        self.min.axis(axis)
    }
}

/// The surrounding box of two boxes is the least box that holds both: it
/// encloses each of them, and every box that encloses each of them encloses
/// it.
pub proof fn surrounding_box_is_least_enclosure(a: AABB, b: AABB, c: AABB)
    requires
        a.wf(),
        b.wf(),
    ensures
        AABB::union_spec(a, b).wf(),
        AABB::union_spec(a, b).encloses(a),
        AABB::union_spec(a, b).encloses(b),
        c.encloses(a) && c.encloses(b) ==> c.encloses(AABB::union_spec(a, b)),
{
}

/// The parameter at which a ray enters a slab.
pub open spec fn entry(slab: Slab) -> Scalar {
    if slab.inv_dir.lt_spec(Scalar { bits: 0 }) {
        slab.t1
    } else {
        slab.t0
    }
}

/// The parameter at which a ray leaves a slab.
pub open spec fn exit(slab: Slab) -> Scalar {
    if slab.inv_dir.lt_spec(Scalar { bits: 0 }) {
        slab.t0
    } else {
        slab.t1
    }
}

/// What the slab test decides: a ray meets a box within a range exactly
/// where it has entered all three slabs, and the range has begun, no later
/// than it leaves any of the slabs or the range ends. This holds where no
/// crossing and no end of the range is a NaN.
pub proof fn slab_test_compares_last_entry_and_first_exit(
    slabs: [Slab; 3],
    t_min: Scalar,
    t_max: Scalar,
)
    requires
        !t_min.is_nan_spec(),
        !t_max.is_nan_spec(),
        forall|a: int|
            0 <= a < 3 ==> !(#[trigger] slabs@[a]).t0.is_nan_spec() && !slabs@[a].t1.is_nan_spec(),
    ensures
        AABB::hit_spec(slabs, t_min, t_max) <==> t_min.max_spec(entry(slabs@[0])).max_spec(
            entry(slabs@[1]),
        ).max_spec(entry(slabs@[2])).le_spec(
            t_max.min_spec(exit(slabs@[0])).min_spec(exit(slabs@[1])).min_spec(exit(slabs@[2])),
        ),
{
    assert(!slabs@[0].t0.is_nan_spec() && !slabs@[0].t1.is_nan_spec());
    assert(!slabs@[1].t0.is_nan_spec() && !slabs@[1].t1.is_nan_spec());
    assert(!slabs@[2].t0.is_nan_spec() && !slabs@[2].t1.is_nan_spec());
}

/// The ray is inside all three slabs at the parameter `t`, and `t` lies in
/// the range `[t_min, t_max]`.
pub open spec fn is_shared(slabs: [Slab; 3], t_min: Scalar, t_max: Scalar, t: Scalar) -> bool {
    &&& t_min.le_spec(t) && t.le_spec(t_max)
    &&& entry(slabs@[0]).le_spec(t) && t.le_spec(exit(slabs@[0]))
    &&& entry(slabs@[1]).le_spec(t) && t.le_spec(exit(slabs@[1]))
    &&& entry(slabs@[2]).le_spec(t) && t.le_spec(exit(slabs@[2]))
}

/// A ray meets a box within a range exactly where the range and the ray's
/// three crossings of the slabs share a parameter; a single one is enough.
/// This holds where no crossing and no end of the range is a NaN.
pub proof fn slab_test_finds_a_shared_parameter(slabs: [Slab; 3], t_min: Scalar, t_max: Scalar)
    requires
        !t_min.is_nan_spec(),
        !t_max.is_nan_spec(),
        forall|a: int|
            0 <= a < 3 ==> !(#[trigger] slabs@[a]).t0.is_nan_spec() && !slabs@[a].t1.is_nan_spec(),
    ensures
        AABB::hit_spec(slabs, t_min, t_max) <==> exists|t: Scalar| #[trigger]
            is_shared(slabs, t_min, t_max, t),
{
    assert(!slabs@[0].t0.is_nan_spec() && !slabs@[0].t1.is_nan_spec());
    assert(!slabs@[1].t0.is_nan_spec() && !slabs@[1].t1.is_nan_spec());
    assert(!slabs@[2].t0.is_nan_spec() && !slabs@[2].t1.is_nan_spec());
    slab_test_compares_last_entry_and_first_exit(slabs, t_min, t_max);
    let last_entry = t_min.max_spec(entry(slabs@[0])).max_spec(entry(slabs@[1])).max_spec(
        entry(slabs@[2]),
    );
    if AABB::hit_spec(slabs, t_min, t_max) {
        assert(is_shared(slabs, t_min, t_max, last_entry));
    }
}

/// A ray that meets a box within a range meets it within every range that
/// holds that one, and meets every box whose slabs it enters no later and
/// leaves no earlier. This holds where no crossing and no end of a range is
/// a NaN.
pub proof fn slab_test_grows_with_range_and_box(
    inner: [Slab; 3],
    outer: [Slab; 3],
    t_min: Scalar,
    near: Scalar,
    far: Scalar,
)
    requires
        !t_min.is_nan_spec(),
        near.le_spec(far),
        forall|a: int|
            0 <= a < 3 ==> !(#[trigger] inner@[a]).t0.is_nan_spec() && !inner@[a].t1.is_nan_spec(),
        forall|a: int|
            0 <= a < 3 ==> !(#[trigger] outer@[a]).t0.is_nan_spec() && !outer@[a].t1.is_nan_spec(),
        forall|a: int|
            0 <= a < 3 ==> entry(#[trigger] outer@[a]).le_spec(entry(inner@[a])) && exit(
                inner@[a],
            ).le_spec(exit(outer@[a])),
        AABB::hit_spec(inner, t_min, near),
    ensures
        AABB::hit_spec(outer, t_min, far),
{
    slab_test_finds_a_shared_parameter(inner, t_min, near);
    slab_test_finds_a_shared_parameter(outer, t_min, far);
    let t = choose|t: Scalar| #[trigger] is_shared(inner, t_min, near, t);
    assert(entry(outer@[0]).le_spec(entry(inner@[0])) && exit(inner@[0]).le_spec(exit(outer@[0])));
    assert(entry(outer@[1]).le_spec(entry(inner@[1])) && exit(inner@[1]).le_spec(exit(outer@[1])));
    assert(entry(outer@[2]).le_spec(entry(inner@[2])) && exit(inner@[2]).le_spec(exit(outer@[2])));
    assert(is_shared(outer, t_min, far, t));
}

/// The box that holds nothing: it begins at positive infinity and ends at
/// negative infinity, so that growing it by a point gives that point.
pub open spec fn nothing() -> AABB {
    AABB {
        min: Vec3(
            Scalar { bits: crate::util::INFINITY },
            Scalar { bits: crate::util::INFINITY },
            Scalar { bits: crate::util::INFINITY },
        ),
        max: Vec3(
            Scalar { bits: crate::util::NEG_INFINITY },
            Scalar { bits: crate::util::NEG_INFINITY },
            Scalar { bits: crate::util::NEG_INFINITY },
        ),
    }
}

/// A box grown to hold a point.
pub open spec fn grown(b: AABB, p: Point3) -> AABB {
    AABB {
        min: Vec3(b.min.0.min_spec(p.0), b.min.1.min_spec(p.1), b.min.2.min_spec(p.2)),
        max: Vec3(b.max.0.max_spec(p.0), b.max.1.max_spec(p.1), b.max.2.max_spec(p.2)),
    }
}

/// The box that holds nothing, grown by one point after the other.
pub open spec fn enclosure_spec(points: Seq<Point3>) -> AABB
    decreases points.len(),
{
    if points.len() == 0 {
        nothing()
    } else {
        grown(enclosure_spec(points.drop_last()), points.last())
    }
}

/// The least box that holds the given points. A decorator that turns an
/// object bounds it by the box of the eight turned corners of the object's
/// own box.
pub fn enclosure(points: &[Point3]) -> (b: AABB)
    ensures
        b == enclosure_spec(points@),
{
    let mut b = AABB {
        min: Vec3(
            Scalar { bits: crate::util::INFINITY },
            Scalar { bits: crate::util::INFINITY },
            Scalar { bits: crate::util::INFINITY },
        ),
        max: Vec3(
            Scalar { bits: crate::util::NEG_INFINITY },
            Scalar { bits: crate::util::NEG_INFINITY },
            Scalar { bits: crate::util::NEG_INFINITY },
        ),
    };
    let mut i: usize = 0;
    while i < points.len()
        invariant
            i <= points.len(),
            b == enclosure_spec(points@.take(i as int)),
        decreases points.len() - i,
    {
        proof {
            assert(points@.take(i + 1).drop_last() =~= points@.take(i as int));
        }
        let p = points[i];
        b = AABB {
            min: Vec3(b.min.x().min(p.x()), b.min.y().min(p.y()), b.min.z().min(p.z())),
            max: Vec3(b.max.x().max(p.x()), b.max.y().max(p.y()), b.max.z().max(p.z())),
        };
        i = i + 1;
    }
    proof {
        assert(points@.take(i as int) =~= points@);
    }
    b
}

/// The enclosure of points holds each of them, where none has a NaN for a
/// coordinate.
pub proof fn enclosure_holds_every_point(points: Seq<Point3>, at: int)
    requires
        0 <= at < points.len(),
        forall|i: int| 0 <= i < points.len() ==> !(#[trigger] points[i]).is_nan_spec(),
    ensures
        enclosure_spec(points).holds(points[at]),
        enclosure_spec(points).wf(),
    decreases points.len(),
{
    let before = points.drop_last();
    if before.len() > 0 {
        enclosure_holds_every_point(before, if at < before.len() { at } else { 0 });
    }
}

/// The eight corners of a box, the lower corner first and the upper one
/// last: the x coordinate changes slowest and the z coordinate fastest.
pub open spec fn corners_spec(b: AABB) -> Seq<Point3> {
    seq![
        Vec3(b.min.0, b.min.1, b.min.2),
        Vec3(b.min.0, b.min.1, b.max.2),
        Vec3(b.min.0, b.max.1, b.min.2),
        Vec3(b.min.0, b.max.1, b.max.2),
        Vec3(b.max.0, b.min.1, b.min.2),
        Vec3(b.max.0, b.min.1, b.max.2),
        Vec3(b.max.0, b.max.1, b.min.2),
        Vec3(b.max.0, b.max.1, b.max.2),
    ]
}

impl AABB {
    /// The box's eight corners.
    pub fn corners(&self) -> (all: [Point3; 8])
        ensures
            all@ == corners_spec(*self),
            self.wf() ==> forall|k: int| 0 <= k < 8 ==> self.holds(#[trigger] all@[k]),
    {
        let all = [
            self.corner(false, false, false),
            self.corner(false, false, true),
            self.corner(false, true, false),
            self.corner(false, true, true),
            self.corner(true, false, false),
            self.corner(true, false, true),
            self.corner(true, true, false),
            self.corner(true, true, true),
        ];
        proof {
            assert(all@ =~= corners_spec(*self));
        }
        all
    }

    /// One of the box's eight corners: along each axis the upper corner's
    /// coordinate where the flag is set, and the lower corner's where not.
    pub fn corner(&self, upper_x: bool, upper_y: bool, upper_z: bool) -> (p: Point3)
        ensures
            p == Vec3(
                if upper_x { self.max.0 } else { self.min.0 },
                if upper_y { self.max.1 } else { self.min.1 },
                if upper_z { self.max.2 } else { self.min.2 },
            ),
            self.wf() ==> self.holds(p),
    {
        Vec3(
            if upper_x { self.max.0 } else { self.min.0 },
            if upper_y { self.max.1 } else { self.min.1 },
            if upper_z { self.max.2 } else { self.min.2 },
        )
    }
}

/// A box holds every point of a box that it encloses.
pub proof fn enclosed_points_are_held(outer: AABB, inner: AABB, p: Point3)
    requires
        outer.encloses(inner),
        inner.holds(p),
    ensures
        outer.holds(p),
{
}

} // verus!

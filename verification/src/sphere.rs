//! Which root of a sphere's quadratic is the hit.

use vstd::prelude::*;
use crate::hit::HitRecord;
use crate::hittable_list::{answers_nearest, within, Probe};
use crate::scalar::Scalar;

verus! {

/// `t` lies in `[t_min, t_max]`.
pub open spec fn in_range(t: Scalar, t_min: Scalar, t_max: Scalar) -> bool {
    t_min.le_spec(t) && t.le_spec(t_max)
}

/// The root at which a ray hits: none where the discriminant has no real
/// square root; else the smaller root where it lies in the range, else the
/// larger where that lies in the range, else none.
pub open spec fn select_root_spec(
    sqrtd: Scalar,
    r1: Scalar,
    r2: Scalar,
    t_min: Scalar,
    t_max: Scalar,
) -> Option<Scalar> {
    if sqrtd.is_nan_spec() {
        None
    } else if in_range(r1, t_min, t_max) {
        Some(r1)
    } else if in_range(r2, t_min, t_max) {
        Some(r2)
    } else {
        None
    }
}

/// Whether `t` lies in `[t_min, t_max]`.
pub fn is_in_range(t: Scalar, t_min: Scalar, t_max: Scalar) -> (b: bool)
    ensures
        b == in_range(t, t_min, t_max),
{
    t_min.le(t) && t.le(t_max)
}

/// Picks the root of the quadratic at which a ray hits a sphere within
/// `[t_min, t_max]`. `sqrtd` is the square root of the discriminant, a NaN
/// where the ray's line misses the sphere; `r1` is the root with the root
/// subtracted, `r2` the one with it added.
pub fn select_root(sqrtd: Scalar, r1: Scalar, r2: Scalar, t_min: Scalar, t_max: Scalar) -> (root:
    Option<Scalar>)
    ensures
        root == select_root_spec(sqrtd, r1, r2, t_min, t_max),
        root matches Some(t) ==> in_range(t, t_min, t_max) && (t == r1 || t == r2),
{
    if sqrtd.is_nan() {
        None
    } else if is_in_range(r1, t_min, t_max) {
        Some(r1)
    } else if is_in_range(r2, t_min, t_max) {
        Some(r2)
    } else {
        None
    }
}

/// A root kept only where it lies within the far end `bound`.
pub open spec fn root_within(root: Option<Scalar>, bound: Scalar) -> Option<Scalar> {
    match root {
        Some(t) => if t.le_spec(bound) {
            root
        } else {
            None
        },
        None => None,
    }
}

/// A sphere answers with its nearest hit: where the first root is not above
/// the second, the root picked within a nearer far end is the root picked
/// within the farther one if that is still in range, and none if not.
pub proof fn nearer_bound_keeps_the_root(
    sqrtd: Scalar,
    r1: Scalar,
    r2: Scalar,
    t_min: Scalar,
    t_max: Scalar,
    bound: Scalar,
)
    requires
        r1.le_spec(r2),
        bound.le_spec(t_max),
    ensures
        select_root_spec(sqrtd, r1, r2, t_min, bound) == root_within(
            select_root_spec(sqrtd, r1, r2, t_min, t_max),
            bound,
        ),
{
}

/// A sphere answers with its nearest hit: an object whose answer within a
/// range is the record of the root picked within that range, where the
/// first root is not above the second or there are no roots at all, meets
/// what the searches ask of an object.
pub proof fn sphere_answers_nearest(
    probe: Probe,
    i: int,
    sqrtd: Scalar,
    r1: Scalar,
    r2: Scalar,
    record: spec_fn(Scalar) -> HitRecord,
    t_min: Scalar,
    t_max: Scalar,
)
    requires
        sqrtd.is_nan_spec() || r1.le_spec(r2),
        forall|t: Scalar| (#[trigger] record(t)).t == t,
        forall|bound: Scalar|
            #[trigger] probe(i, t_min, bound) == match select_root_spec(
                sqrtd,
                r1,
                r2,
                t_min,
                bound,
            ) {
                Some(t) => Some(record(t)),
                None => None,
            },
    ensures
        answers_nearest(probe, i, t_min, t_max),
{
    assert forall|bound: Scalar| #[trigger]
        bound.le_spec(t_max) implies probe(i, t_min, bound) == within(
        probe(i, t_min, t_max),
        bound,
    ) by {
        if !sqrtd.is_nan_spec() {
            nearer_bound_keeps_the_root(sqrtd, r1, r2, t_min, t_max, bound);
        }
    }
}

} // verus!

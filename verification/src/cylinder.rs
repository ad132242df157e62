//! Which root of a cylinder's quadratic is the hit.

use vstd::prelude::*;
use crate::scalar::Scalar;
use crate::sphere::{in_range, is_in_range, root_within, select_root, select_root_spec};

verus! {

/// A height lies outside the cylinder's extent: it is not between the two
/// ends, which a NaN is not either.
pub open spec fn beyond(y: Scalar, y_min: Scalar, y_max: Scalar) -> bool {
    !(y_min.le_spec(y) && y.le_spec(y_max))
}

/// The two roots of a cylinder's quadratic, each with the height at which
/// the ray meets the unbounded cylinder there.
#[derive(Clone, Copy, Debug, PartialEq, Eq, Structural)]
pub struct Crossings {
    /// The square root of the discriminant, a NaN where the ray's line misses
    /// the unbounded cylinder.
    pub sqrtd: Scalar,
    pub r1: Scalar,
    pub y1: Scalar,
    pub r2: Scalar,
    pub y2: Scalar,
}

/// The parameter at which a ray hits the side of a capped cylinder.
///
/// The root is picked as for a sphere. Where the ray meets the unbounded
/// cylinder there beyond the cylinder's extent, the second root is tried if
/// it is another one and lies in the range, and it counts if the height there
/// is within the extent.
pub open spec fn select_hit_spec(
    c: Crossings,
    t_min: Scalar,
    t_max: Scalar,
    y_min: Scalar,
    y_max: Scalar,
) -> Option<Scalar> {
    match select_root_spec(c.sqrtd, c.r1, c.r2, t_min, t_max) {
        None => None,
        Some(t_hit) => {
            let y = if in_range(c.r1, t_min, t_max) {
                c.y1
            } else {
                c.y2
            };
            if !beyond(y, y_min, y_max) {
                Some(t_hit)
            } else if t_hit.eq_spec(c.r2) || !in_range(c.r2, t_min, t_max) {
                None
            } else if beyond(c.y2, y_min, y_max) {
                None
            } else {
                Some(c.r2)
            }
        },
    }
}

/// Whether a height lies outside the cylinder's extent.
pub fn is_beyond(y: Scalar, y_min: Scalar, y_max: Scalar) -> (b: bool)
    ensures
        b == beyond(y, y_min, y_max),
{
    !(y_min.le(y) && y.le(y_max))
}

/// Picks the parameter at which a ray hits the side of a capped cylinder
/// within `[t_min, t_max]`, if it does.
pub fn select_hit(c: Crossings, t_min: Scalar, t_max: Scalar, y_min: Scalar, y_max: Scalar) -> (t:
    Option<Scalar>)
    ensures
        t == select_hit_spec(c, t_min, t_max, y_min, y_max),
        t matches Some(t_hit) ==> t_hit == c.r1 || t_hit == c.r2,
        t matches Some(t_hit) ==> !c.sqrtd.is_nan_spec(),
{
    match select_root(c.sqrtd, c.r1, c.r2, t_min, t_max) {
        None => None,
        Some(t_hit) => {
            let y = if is_in_range(c.r1, t_min, t_max) {
                c.y1
            } else {
                c.y2
            };
            if !is_beyond(y, y_min, y_max) {
                Some(t_hit)
            } else if t_hit.eq(c.r2) || !is_in_range(c.r2, t_min, t_max) {
                None
            } else if is_beyond(c.y2, y_min, y_max) {
                None
            } else {
                Some(c.r2)
            }
        },
    }
}

/// A cylinder answers with its nearest hit: where the first root is not
/// above the second, the parameter picked within a nearer far end is the one
/// picked within the farther one if that is still in range, and none if not.
pub proof fn nearer_bound_keeps_the_hit(
    c: Crossings,
    t_min: Scalar,
    t_max: Scalar,
    bound: Scalar,
    y_min: Scalar,
    y_max: Scalar,
)
    requires
        c.r1.le_spec(c.r2),
        bound.le_spec(t_max),
    ensures
        select_hit_spec(c, t_min, bound, y_min, y_max) == root_within(
            select_hit_spec(c, t_min, t_max, y_min, y_max),
            bound,
        ),
{
}

/// Whether an angle about the axis lies past the part of the turn that the
/// surface covers. A surface is kept where the angle is at most `phi_max`,
/// and cut off elsewhere.
pub fn past_the_turn(phi: Scalar, phi_max: Scalar) -> (cut: bool)
    ensures
        cut == !phi.le_spec(phi_max),
{
    !phi.le(phi_max)
}

} // verus!

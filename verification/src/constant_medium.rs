//! Volumes of constant density: what part of a ray lies inside, and whether
//! the ray scatters there.

use vstd::prelude::*;
use crate::scalar::Scalar;

verus! {

/// The part of the range `[t_min, t_max]` that a ray spends inside a
/// boundary that it enters at `t_enter` and leaves at `t_exit`: the crossing
/// clipped to the range, and its beginning moved up to zero. None unless
/// what is left after the clipping begins before it ends.
pub open spec fn span_inside_spec(
    t_enter: Scalar,
    t_exit: Scalar,
    t_min: Scalar,
    t_max: Scalar,
) -> Option<(Scalar, Scalar)> {
    let begin = t_enter.max_spec(t_min);
    let end = t_exit.min_spec(t_max);
    if begin.lt_spec(end) {
        Some((begin.max_spec(Scalar { bits: 0 }), end))
    } else {
        None
    }
}

/// Clips a ray's crossing of a boundary to `[t_min, t_max]`.
pub fn span_inside(t_enter: Scalar, t_exit: Scalar, t_min: Scalar, t_max: Scalar) -> (span: Option<
    (Scalar, Scalar),
>)
    ensures
        span == span_inside_spec(t_enter, t_exit, t_min, t_max),
{
    let begin = t_enter.max(t_min);
    let end = t_exit.min(t_max);
    if begin.lt(end) {
        Some((begin.max(Scalar { bits: 0 }), end))
    } else {
        None
    }
}

/// Whether a ray scatters inside the medium: it does where the distance
/// drawn for its free flight is at most the distance that it covers inside
/// the boundary.
pub fn scatters(hit_distance: Scalar, distance_inside_boundary: Scalar) -> (b: bool)
    ensures
        b == hit_distance.le_spec(distance_inside_boundary),
{
    hit_distance.le(distance_inside_boundary)
}

} // verus!

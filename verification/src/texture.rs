//! What procedural and bitmap textures decide.

use vstd::prelude::*;
use crate::scalar::Scalar;

verus! {

/// Whether a point lies in an odd cell of a checker pattern: it does where
/// the product of the sines of its scaled coordinates is below zero.
pub fn checker_is_odd(sines: Scalar) -> (odd: bool)
    ensures
        odd == sines.lt_spec(Scalar { bits: 0 }),
{
    sines.lt(Scalar { bits: 0 })
}

/// The pixel of a bitmap of `width` by `height` pixels that a texture
/// coordinate falls on. `i` and `j` are the coordinate scaled to the
/// bitmap's size; a coordinate at the far edge falls on the last pixel.
pub fn texel(i: u32, j: u32, width: u32, height: u32) -> (at: (u32, u32))
    requires
        width > 0,
        height > 0,
    ensures
        at.0 == if i < width { i } else { (width - 1) as u32 },
        at.1 == if j < height { j } else { (height - 1) as u32 },
        at.0 < width,
        at.1 < height,
{
    (
        if i < width {
            i
        } else {
            width - 1
        },
        if j < height {
            j
        } else {
            height - 1
        },
    )
}

/// The place of the first of the smallest numbers of a sequence.
pub open spec fn is_first_least(distances: Seq<Scalar>, at: int) -> bool {
    &&& 0 <= at < distances.len()
    &&& forall|i: int| 0 <= i < distances.len() ==> distances[at].le_spec(#[trigger] distances[i])
    &&& forall|i: int| 0 <= i < at ==> distances[at].lt_spec(#[trigger] distances[i])
}

/// The site of a Voronoi pattern in whose cell a point lies: the nearest
/// one, and of several equally near ones the first. `distances` holds the
/// point's distance to each site.
pub fn nearest_site(distances: &[Scalar]) -> (at: usize)
    requires
        distances@.len() > 0,
        forall|i: int| 0 <= i < distances@.len() ==> !(#[trigger] distances@[i]).is_nan_spec(),
    ensures
        is_first_least(distances@, at as int),
{
    let mut best: usize = 0;
    let mut i: usize = 1;
    while i < distances.len()
        invariant
            1 <= i <= distances@.len(),
            best < i,
            forall|k: int| 0 <= k < distances@.len() ==> !(#[trigger] distances@[k]).is_nan_spec(),
            forall|k: int| 0 <= k < i ==> distances@[best as int].le_spec(#[trigger] distances@[k]),
            forall|k: int|
                0 <= k < best ==> distances@[best as int].lt_spec(#[trigger] distances@[k]),
        decreases distances@.len() - i,
    {
        if distances[i].lt(distances[best]) {
            best = i;
        }
        i = i + 1;
    }
    best
}

} // verus!

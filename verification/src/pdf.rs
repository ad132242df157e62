//! Densities over directions: which branch a sample takes.

use vstd::prelude::*;
use crate::aarect::ONE_BITS;
use crate::scalar::Scalar;
use crate::util::PI;

verus! {

/// The pattern of one half.
pub const HALF_BITS: u64 = 0x3FE0_0000_0000_0000;

/// The pattern of one quarter.
pub const QUARTER_BITS: u64 = 0x3FD0_0000_0000_0000;

/// The pattern of three quarters.
pub const THREE_QUARTERS_BITS: u64 = 0x3FE8_0000_0000_0000;

/// The pattern of a full turn, twice pi.
pub const TWO_PI_BITS: u64 = 0x4019_21FB_5444_2D18;

/// The density that is zero everywhere. A material hands it out together with
/// a specular ray: the ray is to be followed, and the density is not to be
/// asked.
#[derive(Clone, Copy, Debug, PartialEq, Eq, Structural)]
pub struct NullPDF;

impl NullPDF {
    pub fn new() -> (pdf: Self)
        ensures
            pdf == NullPDF,
    {
        NullPDF
    }

    /// The density of every direction: zero.
    pub fn value(&self) -> (density: Scalar)
        ensures
            density == (Scalar { bits: 0 }),
    {
        Scalar { bits: 0 }
    }
}

/// Which of the two densities of an even mixture a sample is drawn from: the
/// first where `xi`, a number drawn uniformly from `[0, 1)`, is below one
/// half, and the second else.
pub fn mixture_picks_first(xi: Scalar) -> (first: bool)
    ensures
        first == xi.lt_spec(Scalar { bits: HALF_BITS }),
{
    xi.lt(Scalar { bits: HALF_BITS })
}

/// Whether the cosine-weighted density about a normal is zero for a
/// direction: it is where the direction does not point out of the surface.
/// `cosine` is the cosine of the angle between the normal and the direction.
pub fn cosine_density_vanishes(cosine: Scalar) -> (b: bool)
    ensures
        b == cosine.le_spec(Scalar { bits: 0 }),
{
    cosine.le(Scalar { bits: 0 })
}

/// The quarter of the unit interval in which a sample lies, with what it
/// means for the angle that the sample is mapped to.
#[derive(Clone, Copy, Debug, PartialEq, Eq, Structural)]
pub struct Quadrant {
    /// The quarter, counted from 0.
    pub index: u8,
    /// The angle at which the quarter's part of the turn is anchored.
    pub phase: Scalar,
    /// Whether the angle is measured back from the anchor.
    pub flip: bool,
}

pub open spec fn quadrant_spec(xi: Scalar) -> Quadrant {
    if xi.lt_spec(Scalar { bits: QUARTER_BITS }) {
        Quadrant { index: 0, phase: Scalar { bits: 0 }, flip: false }
    } else if xi.lt_spec(Scalar { bits: HALF_BITS }) {
        Quadrant { index: 1, phase: Scalar { bits: PI }, flip: true }
    } else if xi.lt_spec(Scalar { bits: THREE_QUARTERS_BITS }) {
        Quadrant { index: 2, phase: Scalar { bits: PI }, flip: false }
    } else {
        Quadrant { index: 3, phase: Scalar { bits: TWO_PI_BITS }, flip: true }
    }
}

/// The quarter in which a sample of the glossy lobe lies.
///
/// A sample below one quarter is mapped to an angle counted up from zero;
/// one below one half to an angle counted back from pi; one below three
/// quarters to an angle counted up from pi; every other to an angle counted
/// back from the full turn.
pub fn quadrant(xi: Scalar) -> (q: Quadrant)
    ensures
        q == quadrant_spec(xi),
        q.index < 4,
{
    if xi.lt(Scalar { bits: QUARTER_BITS }) {
        Quadrant { index: 0, phase: Scalar { bits: 0 }, flip: false }
    } else if xi.lt(Scalar { bits: HALF_BITS }) {
        Quadrant { index: 1, phase: Scalar { bits: PI }, flip: true }
    } else if xi.lt(Scalar { bits: THREE_QUARTERS_BITS }) {
        Quadrant { index: 2, phase: Scalar { bits: PI }, flip: false }
    } else {
        Quadrant { index: 3, phase: Scalar { bits: TWO_PI_BITS }, flip: true }
    }
}

/// The chance with which a glossy material scatters diffusely: one where the
/// mirrored direction points into the surface, and `above` else. `alignment`
/// is the dot product of the mirrored direction and the normal.
pub fn diffuse_chance(alignment: Scalar, above: Scalar) -> (p: Scalar)
    ensures
        p == if alignment.lt_spec(Scalar { bits: 0 }) {
            Scalar { bits: ONE_BITS }
        } else {
            above
        },
{
    if alignment.lt(Scalar { bits: 0 }) {
        Scalar { bits: ONE_BITS }
    } else {
        above
    }
}

/// Whether a glossy material scatters a ray diffusely: it does where `sel`,
/// a number drawn uniformly from `[0, 1)`, is below the chance of it.
pub fn picks_diffuse(sel: Scalar, chance: Scalar) -> (diffuse: bool)
    ensures
        diffuse == sel.lt_spec(chance),
{
    sel.lt(chance)
}

} // verus!

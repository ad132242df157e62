//! What materials decide when a ray arrives.

use vstd::prelude::*;
use crate::aarect::ONE_BITS;
use crate::ray::Ray;
use crate::scalar::Scalar;
use crate::vec3::{Color, Vec3};

verus! {

/// A material's response to an incoming ray.
///
/// `pdf` is the density from which the next direction is to be drawn,
/// whatever the caller holds densities as. Where `specular_ray` is present
/// the ray is to be followed as it is, and the density is not to be asked.
#[derive(Debug)]
pub struct ScatterRecord<P> {
    pub specular_ray: Option<Ray>,
    pub attenuation: Color,
    pub specular_color: Option<Color>,
    pub pdf: P,
}

/// The three ways in which a material read from a Wavefront file scatters.
#[derive(Clone, Copy, Debug, PartialEq, Eq, Structural)]
pub enum Lobe {
    /// The material absorbs every ray.
    Absorbing,
    /// The material scatters diffusely; its colour is blended with the
    /// ambient colour, 0.8 to 0.2.
    Diffuse,
    /// The material scatters with a glossy lobe; its colour is blended with
    /// the ambient colour, half and half.
    Glossy,
}

/// The colour that nothing emits.
pub open spec fn black() -> Color {
    Vec3(Scalar { bits: 0 }, Scalar { bits: 0 }, Scalar { bits: 0 })
}

/// The fuzz with which a metal reflects: its own where that is at most one,
/// and one else.
pub fn metal_fuzz(fuzz: Scalar) -> (f: Scalar)
    ensures
        f == if fuzz.le_spec(Scalar { bits: ONE_BITS }) {
            fuzz
        } else {
            Scalar { bits: ONE_BITS }
        },
        f.le_spec(Scalar { bits: ONE_BITS }),
{
    let one = Scalar { bits: ONE_BITS };
    if fuzz.le(one) {
        fuzz
    } else {
        one
    }
}

/// Whether a metal absorbs a ray: it does unless the reflected direction
/// leaves the surface. `alignment` is the dot product of that direction and
/// the shading normal, and the direction leaves where it is above zero.
pub fn metal_absorbs(alignment: Scalar) -> (b: bool)
    ensures
        b == !(Scalar { bits: 0 }).lt_spec(alignment),
{
    !(Scalar { bits: 0 }).lt(alignment)
}

/// Whether a dielectric reflects a ray rather than refract it.
///
/// `bend` is the ratio of the refractive indices times the sine of the angle
/// of incidence; above one there is no refracted ray. Else the ray is
/// reflected where the reflectance exceeds `xi`, a number drawn uniformly
/// from `[0, 1)`.
pub fn dielectric_reflects(bend: Scalar, reflectance: Scalar, xi: Scalar) -> (b: bool)
    ensures
        b == ((Scalar { bits: ONE_BITS }).lt_spec(bend) || xi.lt_spec(reflectance)),
{
    (Scalar { bits: ONE_BITS }).lt(bend) || xi.lt(reflectance)
}

/// What a light emits towards a ray: its colour where the ray arrives at
/// the front, and nothing where it arrives at the back.
pub fn light_emits(front_face: bool, emit: Color) -> (c: Color)
    ensures
        c == if front_face {
            emit
        } else {
            black()
        },
{
    if front_face {
        emit
    } else {
        Vec3::new()
    }
}

/// What a material that does not emit emits: nothing.
pub fn emits_nothing() -> (c: Color)
    ensures
        c == black(),
{
    Vec3::new()
}

/// Whether a cosine-weighted density is zero for a direction: it is where
/// the direction points into the surface. `cosine` is the cosine of the
/// angle between the normal and the direction.
pub fn points_inward(cosine: Scalar) -> (b: bool)
    ensures
        b == cosine.lt_spec(Scalar { bits: 0 }),
{
    cosine.lt(Scalar { bits: 0 })
}

/// How a material read from a Wavefront file scatters, by its illumination
/// model.
pub fn wavefront_lobe(model: u8) -> (lobe: Lobe)
    ensures
        lobe == match model {
            0u8 => Lobe::Absorbing,
            1u8 => Lobe::Diffuse,
            _ => Lobe::Glossy,
        },
{
    if model == 0 {
        Lobe::Absorbing
    } else if model == 1 {
        Lobe::Diffuse
    } else {
        Lobe::Glossy
    }
}

/// Whether the density of a material read from a Wavefront file is the
/// diffuse one: it is for the models 0 and 1.
pub fn wavefront_density_is_diffuse(model: u8) -> (b: bool)
    ensures
        b == (model <= 1),
{
    model <= 1
}

} // verus!

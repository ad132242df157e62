//! The recursive estimate of the light that arrives along a ray: what is
//! done at each step of a path.

use vstd::prelude::*;
use crate::hit::HitRecord;
use crate::material::{black, ScatterRecord};
use crate::ray::Ray;
use crate::scalar::Scalar;
use crate::util::INFINITY;
use crate::vec3::{Color, Vec3};

verus! {

/// The number of bounces after which a path counts for nothing.
pub const MAX_DEPTH: i32 = 50;

/// The pattern of 0.001, the parameter from which a hit counts: nearer hits
/// are the surface that the ray has just left.
pub const SHADOW_ACNE_BITS: u64 = 0x3F50_624D_D2F1_A9FC;

/// How the light along a ray is estimated once the ray has hit a surface.
#[derive(Debug)]
pub enum Shading<P> {
    /// The surface absorbs the ray: what it emits is all.
    Emitted,
    /// The surface mirrors or refracts the ray: the light along `ray`,
    /// weighted by `attenuation`, is all. No density is asked.
    Specular { ray: Ray, attenuation: Color, depth: i32 },
    /// The surface scatters the ray: a direction is drawn from an even
    /// mixture of two densities, `pdf` and the one that aims at the lights,
    /// or `pdf` twice where `light_sampling` is off. The light along the
    /// direction drawn is weighted by `attenuation` and by the material's own
    /// density of that direction, divided by the mixture's density of it,
    /// and added to what the surface emits.
    Sampled { pdf: P, light_sampling: bool, attenuation: Color, depth: i32 },
}

/// The first step for a ray of a path that has `depth` bounces left. Where
/// none is left the path is spent, and the light along the ray is black,
/// whatever the scene holds. Else the ray is to be intersected with the scene
/// in the range of parameters that is handed out.
pub fn begin(depth: i32) -> (step: Result<(Scalar, Scalar), Color>)
    ensures
        depth <= 0 ==> step == Err::<(Scalar, Scalar), Color>(black()),
        depth > 0 ==> step == Ok::<(Scalar, Scalar), Color>(
            (Scalar { bits: SHADOW_ACNE_BITS }, Scalar { bits: INFINITY }),
        ),
{
    if depth <= 0 {
        Err(Vec3(Scalar { bits: 0 }, Scalar { bits: 0 }, Scalar { bits: 0 }))
    } else {
        Ok((Scalar { bits: SHADOW_ACNE_BITS }, Scalar { bits: INFINITY }))
    }
}

/// What a ray has met: the surface that it hits, or, where it hits none, the
/// scene's background, which is then the light along the ray.
pub fn arrive(hit: Option<HitRecord>, background: Color) -> (met: Result<HitRecord, Color>)
    ensures
        hit is None ==> met == Err::<HitRecord, Color>(background),
        hit matches Some(hr) ==> met == Ok::<HitRecord, Color>(hr),
{
    match hit {
        Some(hr) => Ok(hr),
        None => Err(background),
    }
}

/// What follows a hit, from what the material at the hit has made of the
/// ray. `depth` is the number of bounces left when the ray was cast, and
/// `lights_empty` tells that the scene names no lights to aim at.
pub fn shade<P>(depth: i32, scatter: Option<ScatterRecord<P>>, lights_empty: bool) -> (shading:
    Shading<P>)
    requires
        depth > 0,
    ensures
        scatter is None <==> shading is Emitted,
        scatter matches Some(sr) ==> (match sr.specular_ray {
            Some(ray) => shading == (Shading::<P>::Specular {
                ray,
                attenuation: sr.attenuation,
                depth: (depth - 1) as i32,
            }),
            None => shading == (Shading::<P>::Sampled {
                pdf: sr.pdf,
                light_sampling: !lights_empty,
                attenuation: sr.attenuation,
                depth: (depth - 1) as i32,
            }),
        }),
{
    match scatter {
        None => Shading::Emitted,
        Some(sr) => match sr.specular_ray {
            Some(ray) => Shading::Specular { ray, attenuation: sr.attenuation, depth: depth - 1 },
            None => Shading::Sampled {
                pdf: sr.pdf,
                light_sampling: !lights_empty,
                attenuation: sr.attenuation,
                depth: depth - 1,
            },
        },
    }
}

/// Whether the mixture's density of the direction drawn can weigh the
/// estimate: it can where it is above zero. Any other density is the mark of
/// a scene that is modelled wrongly.
pub fn density_is_valid(pdf_val: Scalar) -> (valid: bool)
    ensures
        valid == (Scalar { bits: 0 }).lt_spec(pdf_val),
        valid ==> !pdf_val.is_nan_spec(),
{
    (Scalar { bits: 0 }).lt(pdf_val)
}

} // verus!

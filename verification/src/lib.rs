//! The decisions of a path tracer.
//!
//! A path tracer estimates the light that arrives at each pixel by following
//! rays through a scene: it finds the nearest surface that a ray hits, asks
//! the surface's material what becomes of the ray, and follows the ray on.
//! Most of that is arithmetic on binary64 numbers, and is the caller's. This
//! library holds what is decided once the numbers are there:
//!
//! - how numbers are ordered ([`scalar`]), and what follows for triples of
//!   them and for boxes ([`vec3`], [`aabb`]);
//! - which of the candidates that a surface's equations give is the hit
//!   ([`sphere`], [`cylinder`], [`disk`], [`aarect`], [`triangle`],
//!   [`constant_medium`]), and what the record of a hit says of the side on
//!   which the ray arrives ([`hit`]);
//! - which of the hits along a ray is the nearest, for a list that is
//!   scanned ([`hittable_list`]) and for a hierarchy of boxes that is
//!   searched ([`bvh`], [`traversal`]), with the proof that the two agree;
//! - what a material and a density do with a ray and a sample ([`material`],
//!   [`pdf`], [`onb`], [`texture`], [`perlin`]), and what the integrator
//!   does at each step of a path ([`integrator`]);
//! - how an image is written ([`ppm`]).
//!
//! A number is held by its bit pattern, a [`scalar::Scalar`]; a material by
//! its handle, a `usize`.

pub mod aabb;
pub mod aarect;
pub mod boxx;
pub mod bvh;
pub mod constant_medium;
pub mod cylinder;
pub mod disk;
pub mod hit;
pub mod hittable_list;
pub mod integrator;
pub mod material;
pub mod onb;
pub mod pdf;
pub mod perlin;
pub mod ppm;
pub mod ray;
pub mod scalar;
pub mod sort;
pub mod sphere;
pub mod texture;
pub mod traversal;
pub mod triangle;
pub mod triangle_mesh;
pub mod util;
pub mod vec3;

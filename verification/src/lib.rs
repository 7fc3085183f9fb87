//! The decision core of an offline path tracer.
//!
//! A path tracer spends its time in double-precision vector arithmetic,
//! which this crate leaves to its host. What it keeps is every point at
//! which the renderer chooses or counts: which root of the sphere quadratic
//! counts, which of many intersections is the closest, whether a material
//! scatters or absorbs, when a path ends, what a render does next and where
//! a pixel lives in the output buffer, how progress is reported, which byte
//! a channel becomes and how the finished image is written out as text.
//!
//! Numbers cross the boundary as IEEE 754 bit patterns
//! ([`utility::scalar::Scalar`]). The crate orders and selects them, and it
//! draws the random ones; it rounds nothing, so that whatever it hands back
//! is, bit for bit, what double-precision arithmetic would have given.

pub mod camera;
pub mod color;
pub mod hittable;
pub mod image;
pub mod point3;
pub mod ray;
pub mod timer;
pub mod utility;
pub mod vec3;

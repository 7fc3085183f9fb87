//! How surfaces answer light.

use vstd::prelude::*;
use crate::hittable::material::dielectric::Dielectric;
use crate::hittable::material::lambertian::Lambertian;
use crate::hittable::material::metal::Metal;

pub mod dielectric;
pub mod lambertian;
pub mod metal;

verus! {

/// The surface of a shape: diffuse, mirror-like or transparent.
#[derive(Clone, Copy, Debug, PartialEq, Eq, Structural)]
pub enum Material {
    Lambertian(Lambertian),
    Metal(Metal),
    Dielectric(Dielectric),
}

} // verus!

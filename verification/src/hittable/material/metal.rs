//! Mirror-like surfaces.

use vstd::prelude::*;
use crate::hittable::Scattering;
use crate::point3::Point3;
use crate::ray::Ray;
use crate::utility::scalar::Scalar;
use crate::utility::scalar::ONE_BITS;
use crate::vec3::Vec3;

verus! {

/// A polished surface that reflects the fraction `albedo` of each channel
/// and blurs its reflections by `fuzz_factor`, a number from 0 to 1.
#[derive(Clone, Copy, Debug, PartialEq, Eq, Structural)]
pub struct Metal {
    pub albedo: Vec3,
    pub fuzz_factor: Scalar,
}

impl Metal {
    /// Whether the blur lies in `[0, 1]`, as it does for every metal that
    /// [`Metal::new`] made.
    pub open spec fn wf(self) -> bool {
        (Scalar { bits: 0 }).spec_le(self.fuzz_factor) && self.fuzz_factor.spec_le(
            Scalar { bits: ONE_BITS },
        )
    }

    /// The blur a metal gets when `fuzz_factor` is asked for: the number
    /// itself when it lies in `[0, 1)`, 0 when it lies below, and 1 for
    /// everything else.
    pub open spec fn spec_fuzz(fuzz_factor: Scalar) -> Scalar {
        if fuzz_factor.spec_lt(Scalar { bits: 0 }) {
            Scalar { bits: 0 }
        } else if fuzz_factor.spec_lt(Scalar { bits: ONE_BITS }) {
            fuzz_factor
        } else {
            Scalar { bits: ONE_BITS }
        }
    }

    /// The metal with the given reflectance and blur. A blur outside
    /// `[0, 1]` is moved to the nearer end, and one that is no number
    /// becomes 1.
    pub fn new(albedo: Vec3, fuzz_factor: Scalar) -> (m: Metal)
        ensures
            m.albedo == albedo,
            m.fuzz_factor == Metal::spec_fuzz(fuzz_factor),
            m.wf(),
    {
        let fuzz = if fuzz_factor.lt(Scalar::zero()) {
            Scalar::zero()
        } else if fuzz_factor.lt(Scalar::one()) {
            fuzz_factor
        } else {
            Scalar::one()
        };
        Metal { albedo, fuzz_factor: fuzz }
    }

    /// Scatters a ray that hit the surface at `origin`. `direction` is the
    /// mirrored and blurred direction, and `cosine` its dot product with
    /// the normal that faces the ray. The ray leaves along `direction` when
    /// that points away from the surface (`cosine > 0`), and is swallowed
    /// otherwise.
    pub fn scatter(&self, origin: Point3, direction: Vec3, cosine: Scalar) -> (s: Option<
        Scattering,
    >)
        ensures
            s == if (Scalar { bits: 0 }).spec_lt(cosine) {
                Some(Scattering { attenuation: self.albedo, scattered: Ray { origin, direction } })
            } else {
                None
            },
    {
        if Scalar::zero().lt(cosine) {
            Some(Scattering { attenuation: self.albedo, scattered: Ray::new(origin, direction) })
        } else {
            None
        }
    }
}

} // verus!

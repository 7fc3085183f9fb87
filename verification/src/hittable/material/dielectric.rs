//! Transparent surfaces.

use vstd::prelude::*;
use crate::hittable::Scattering;
use crate::point3::Point3;
use crate::ray::Ray;
use crate::utility::random_double;
use crate::utility::scalar::Scalar;
use crate::utility::scalar::ONE_BITS;
use crate::vec3::Vec3;

verus! {

/// A clear medium such as glass. `refraction_index` is its refractive index
/// over that of the medium around it.
#[derive(Clone, Copy, Debug, PartialEq, Eq, Structural)]
pub struct Dielectric {
    pub refraction_index: Scalar,
}

impl Dielectric {
    /// Whether a ray is reflected rather than refracted. It must be when
    /// Snell's law has no solution, which is when `bend`, the refraction
    /// ratio times the sine of the angle of incidence, exceeds 1. Otherwise
    /// it is with probability `reflectance`: when the uniform `draw` falls
    /// below it.
    pub open spec fn spec_reflects(bend: Scalar, reflectance: Scalar, draw: Scalar) -> bool {
        (Scalar { bits: ONE_BITS }).spec_lt(bend) || draw.spec_lt(reflectance)
    }

    /// The medium with the given refractive index.
    pub fn new(index: Scalar) -> (m: Dielectric)
        ensures
            m.refraction_index == index,
    {
        Dielectric { refraction_index: index }
    }

    /// The refraction ratio for a ray: `reciprocal`, which is one over the
    /// index, for a ray that enters the medium, and the index itself for
    /// one that leaves it.
    pub fn ratio(&self, front_face: bool, reciprocal: Scalar) -> (r: Scalar)
        ensures
            r == if front_face {
                reciprocal
            } else {
                self.refraction_index
            },
    {
        if front_face {
            reciprocal
        } else {
            self.refraction_index
        }
    }

    /// Whether a ray is reflected rather than refracted.
    #[verifier::when_used_as_spec(spec_reflects)]
    pub fn reflects(bend: Scalar, reflectance: Scalar, draw: Scalar) -> (b: bool)
        ensures
            b == Dielectric::spec_reflects(bend, reflectance, draw),
    {
        Scalar::one().lt(bend) || draw.lt(reflectance)
    }

    /// What becomes of a ray that hit the surface at `origin`, when `draw`
    /// is the number drawn for it: the ray leaves along `reflected` or along
    /// `refracted`, as [`Dielectric::reflects`] decides. A clear medium
    /// swallows nothing and keeps every channel whole.
    pub open spec fn spec_scatter_with(
        origin: Point3,
        bend: Scalar,
        reflectance: Scalar,
        draw: Scalar,
        reflected: Vec3,
        refracted: Vec3,
    ) -> Option<Scattering> {
        Some(
            Scattering {
                attenuation: Vec3 {
                    e0: Scalar { bits: ONE_BITS },
                    e1: Scalar { bits: ONE_BITS },
                    e2: Scalar { bits: ONE_BITS },
                },
                scattered: Ray {
                    origin,
                    direction: if Dielectric::spec_reflects(bend, reflectance, draw) {
                        reflected
                    } else {
                        refracted
                    },
                },
            },
        )
    }

    /// Scatters a ray that hit the surface at `origin`, given the number
    /// drawn for it.
    pub fn scatter_with(
        &self,
        origin: Point3,
        bend: Scalar,
        reflectance: Scalar,
        draw: Scalar,
        reflected: Vec3,
        refracted: Vec3,
    ) -> (s: Option<Scattering>)
        ensures
            s == Dielectric::spec_scatter_with(
                origin,
                bend,
                reflectance,
                draw,
                reflected,
                refracted,
            ),
    {
        let attenuation = Vec3::new(Scalar::one(), Scalar::one(), Scalar::one());
        let direction = if Dielectric::reflects(bend, reflectance, draw) {
            reflected
        } else {
            refracted
        };
        Some(Scattering { attenuation, scattered: Ray::new(origin, direction) })
    }

    /// Scatters a ray that hit the surface at `origin`. Past the critical
    /// angle the ray is reflected, and nothing is drawn. Short of it a
    /// number is drawn from `[0, 1)`, and the ray is reflected when the
    /// number falls below `reflectance` and refracted when it does not.
    pub fn scatter(
        &self,
        rng: &mut rand::rngs::StdRng,
        origin: Point3,
        bend: Scalar,
        reflectance: Scalar,
        reflected: Vec3,
        refracted: Vec3,
    ) -> (s: Option<Scattering>)
        ensures
            exists|draw: Scalar|
                {
                    &&& (Scalar { bits: 0 }).spec_le(draw)
                    &&& draw.spec_lt(Scalar { bits: ONE_BITS })
                    &&& s == Dielectric::spec_scatter_with(
                        origin,
                        bend,
                        reflectance,
                        draw,
                        reflected,
                        refracted,
                    )
                },
    {
        let draw = if Scalar::one().lt(bend) {
            Scalar::zero()
        } else {
            random_double(rng)
        };
        let s = self.scatter_with(origin, bend, reflectance, draw, reflected, refracted);
        assert((Scalar { bits: 0 }).spec_le(draw) && draw.spec_lt(Scalar { bits: ONE_BITS }) && s
            == Dielectric::spec_scatter_with(
            origin,
            bend,
            reflectance,
            draw,
            reflected,
            refracted,
        ));
        s
    }
}

/// A surface that reflects nothing lets every ray through that can get
/// through, and one that reflects everything lets none: whatever number
/// from `[0, 1)` is drawn, a reflectance of zero or less refracts and a
/// reflectance of one or more reflects.
pub proof fn lemma_sure_reflectance_needs_no_luck(bend: Scalar, reflectance: Scalar, draw: Scalar)
    requires
        (Scalar { bits: 0 }).spec_le(draw),
        draw.spec_lt(Scalar { bits: ONE_BITS }),
    ensures
        bend.spec_le(Scalar { bits: ONE_BITS }) && reflectance.spec_le(Scalar { bits: 0 })
            ==> !Dielectric::spec_reflects(bend, reflectance, draw),
        (Scalar { bits: ONE_BITS }).spec_le(reflectance) ==> Dielectric::spec_reflects(
            bend,
            reflectance,
            draw,
        ),
{
}

/// Past the critical angle a ray is reflected whatever is drawn, and a draw
/// at or above the reflectance refracts every ray that can be refracted.
pub proof fn lemma_total_internal_reflection(bend: Scalar, reflectance: Scalar, draw: Scalar)
    ensures
        (Scalar { bits: ONE_BITS }).spec_lt(bend) ==> Dielectric::spec_reflects(
            bend,
            reflectance,
            draw,
        ),
        bend.spec_le(Scalar { bits: ONE_BITS }) && reflectance.spec_le(draw)
            ==> !Dielectric::spec_reflects(bend, reflectance, draw),
{
}

} // verus!

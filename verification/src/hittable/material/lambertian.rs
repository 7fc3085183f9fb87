//! Diffuse surfaces.

use vstd::prelude::*;
use crate::hittable::Scattering;
use crate::point3::Point3;
use crate::ray::Ray;
use crate::vec3::Vec3;

verus! {

/// A matte surface that reflects the fraction `albedo` of each channel.
#[derive(Clone, Copy, Debug, PartialEq, Eq, Structural)]
pub struct Lambertian {
    pub albedo: Vec3,
}

impl Lambertian {
    /// The direction a diffuse bounce takes: the offered one, unless it is
    /// too short to be a direction; the normal stands in for such a one.
    pub open spec fn spec_direction(normal: Vec3, offered: Vec3) -> Vec3 {
        if offered.spec_near_zero() {
            normal
        } else {
            offered
        }
    }

    /// The diffuse surface with the given reflectance.
    pub fn new(albedo: Vec3) -> (m: Lambertian)
        ensures
            m.albedo == albedo,
    {
        Lambertian { albedo }
    }

    /// Scatters a ray that hit the surface at `origin`, where the normal
    /// facing the ray is `normal`. `offered` is the normal plus a random
    /// unit vector; when the two all but cancel, the ray leaves along the
    /// normal instead. A diffuse surface never swallows a ray.
    pub fn scatter(&self, origin: Point3, normal: Vec3, offered: Vec3) -> (s: Option<Scattering>)
        ensures
            s == Some(
                Scattering {
                    attenuation: self.albedo,
                    scattered: Ray {
                        origin,
                        direction: Lambertian::spec_direction(normal, offered),
                    },
                },
            ),
    {
        let direction = if offered.near_zero() {
            normal
        } else {
            offered
        };
        Some(Scattering { attenuation: self.albedo, scattered: Ray::new(origin, direction) })
    }
}

/// A diffuse bounce off a surface whose normal is a proper direction never
/// leaves along a vector that is near zero.
pub proof fn lemma_diffuse_direction_is_proper(normal: Vec3, offered: Vec3)
    requires
        !normal.spec_near_zero(),
    ensures
        !Lambertian::spec_direction(normal, offered).spec_near_zero(),
{
}

} // verus!

//! What a ray can run into, and what is recorded when it does.

use vstd::prelude::*;
use crate::hittable::sphere::Sphere;
use crate::point3::Point3;
use crate::ray::Ray;
use crate::utility::scalar::Scalar;
use crate::vec3::Vec3;

pub mod hittable_list;
pub mod material;
pub mod sphere;

verus! {

/// The pattern of the quiet NaN that stands for any NaN the renderer makes.
pub const NAN_BITS: u64 = 0x7FF8_0000_0000_0000;

/// What a material answers to an incoming ray: how much light it keeps per
/// channel, and the ray along which the path goes on.
#[derive(Clone, Copy, Debug, PartialEq, Eq, Structural)]
pub struct Scattering {
    pub attenuation: Vec3,
    pub scattered: Ray,
}

/// One intersection of a ray with a surface.
///
/// `normal` points against the incoming ray; `front_face` remembers whether
/// the ray came from outside. `scattered` is the material's answer, and is
/// `None` where the surface swallows the ray.
#[derive(Clone, Copy, Debug, PartialEq, Eq, Structural)]
pub struct HitRecord {
    pub p: Point3,
    pub normal: Vec3,
    pub scattered: Option<Scattering>,
    pub t: Scalar,
    pub front_face: bool,
}

/// The shapes a scene can hold.
#[derive(Clone, Copy, Debug, PartialEq, Eq, Structural)]
pub enum Hittable {
    Sphere(Sphere),
}

impl HitRecord {
    /// Whether a ray meets the outside of a surface: the dot product of its
    /// direction with the outward normal is below zero.
    pub open spec fn spec_front_face(dot: Scalar) -> bool {
        dot.spec_lt(Scalar { bits: 0 })
    }

    /// The normal turned against the ray: the outward normal times the
    /// negated sign of `dot`. The sign of a number is `-1` when its sign bit
    /// is set and `+1` when it is clear; a NaN has none, and leaves a normal
    /// of NaNs.
    pub open spec fn spec_facing_normal(dot: Scalar, outward_normal: Vec3) -> Vec3 {
        if dot.nan() {
            Vec3 {
                e0: Scalar { bits: NAN_BITS },
                e1: Scalar { bits: NAN_BITS },
                e2: Scalar { bits: NAN_BITS },
            }
        } else if dot.negative() {
            outward_normal
        } else {
            outward_normal.spec_neg()
        }
    }

    /// Whether the ray came from outside, given the dot product of its
    /// direction with the outward normal.
    #[verifier::when_used_as_spec(spec_front_face)]
    pub fn front_face(dot: Scalar) -> (b: bool)
        ensures
            b == HitRecord::spec_front_face(dot),
    {
        dot.lt(Scalar::zero())
    }

    /// The surface normal that faces the incoming ray.
    #[verifier::when_used_as_spec(spec_facing_normal)]
    pub fn facing_normal(dot: Scalar, outward_normal: Vec3) -> (n: Vec3)
        ensures
            n == HitRecord::spec_facing_normal(dot, outward_normal),
    {
        if dot.is_nan() {
            let nan = Scalar::from_bits(NAN_BITS);
            Vec3::new(nan, nan, nan)
        } else if dot.is_sign_negative() {
            outward_normal
        } else {
            outward_normal.neg()
        }
    }

    /// The record of a hit at parameter `t` and point `p`, on a surface
    /// whose outward normal there makes the dot product `dot` with the ray's
    /// direction, and whose material answered `scattered`.
    pub fn new(
        p: Point3,
        t: Scalar,
        dot: Scalar,
        outward_normal: Vec3,
        scattered: Option<Scattering>,
    ) -> (rec: HitRecord)
        ensures
            rec.p == p,
            rec.t == t,
            rec.scattered == scattered,
            rec.front_face == HitRecord::spec_front_face(dot),
            rec.normal == HitRecord::spec_facing_normal(dot, outward_normal),
    {
        HitRecord {
            p,
            normal: HitRecord::facing_normal(dot, outward_normal),
            scattered,
            t,
            front_face: HitRecord::front_face(dot),
        }
    }
}

/// The facing normal is the outward normal or its opposite, so it is as long
/// as the outward normal; and a ray from outside always leaves the outward
/// normal as it is.
pub proof fn lemma_facing_normal_is_outward_or_opposite(dot: Scalar, outward_normal: Vec3)
    requires
        !dot.nan(),
    ensures
        HitRecord::spec_facing_normal(dot, outward_normal) == outward_normal
            || HitRecord::spec_facing_normal(dot, outward_normal) == outward_normal.spec_neg(),
        HitRecord::spec_facing_normal(dot, outward_normal).spec_near_zero()
            == outward_normal.spec_near_zero(),
        HitRecord::spec_front_face(dot) ==> HitRecord::spec_facing_normal(dot, outward_normal)
            == outward_normal,
{
}

} // verus!

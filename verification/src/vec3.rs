//! Directions and offsets in space.

use vstd::prelude::*;
use crate::utility::random_double;
use crate::utility::scalar::Scalar;
use crate::utility::scalar::ONE_BITS;

verus! {

/// The pattern of `1e-8`: a component smaller than this counts as zero.
pub const NEAR_ZERO_BITS: u64 = 0x3E45_798E_E230_8C3A;

/// The pattern of `1e-160`: a squared length at or below this is too small to
/// divide by.
pub const UNIT_FLOOR_BITS: u64 = 0x1EB6_7E9C_127B_6E74;

/// Three scalars: a direction, an offset, or a reflectance per colour
/// channel.
#[derive(Clone, Copy, Debug, PartialEq, Eq, Structural)]
pub struct Vec3 {
    pub e0: Scalar,
    pub e1: Scalar,
    pub e2: Scalar,
}

impl Vec3 {
    /// Whether every component is smaller than `1e-8` in magnitude. A NaN
    /// component is not small.
    pub open spec fn spec_near_zero(self) -> bool {
        &&& self.e0.spec_abs().spec_lt(Scalar { bits: NEAR_ZERO_BITS })
        &&& self.e1.spec_abs().spec_lt(Scalar { bits: NEAR_ZERO_BITS })
        &&& self.e2.spec_abs().spec_lt(Scalar { bits: NEAR_ZERO_BITS })
    }

    /// The vector with every component negated.
    pub open spec fn spec_neg(self) -> Vec3 {
        Vec3 { e0: self.e0.spec_neg(), e1: self.e1.spec_neg(), e2: self.e2.spec_neg() }
    }

    /// Whether a point drawn from the cube around the unit ball, of the given
    /// squared length, may be scaled to a unit vector: it must lie in the
    /// ball, and far enough from its centre to divide by its length.
    pub open spec fn spec_accepts_unit_sample(length_squared: Scalar) -> bool {
        (Scalar { bits: UNIT_FLOOR_BITS }).spec_lt(length_squared) && length_squared.spec_le(
            Scalar { bits: ONE_BITS },
        )
    }

    /// Whether a point drawn from the square around the unit disc, of the
    /// given squared length, lies inside the disc.
    pub open spec fn spec_accepts_disc_sample(length_squared: Scalar) -> bool {
        length_squared.spec_lt(Scalar { bits: ONE_BITS })
    }

    /// The vector itself when its dot product with a normal is above zero,
    /// and its opposite when it is not.
    pub open spec fn spec_on_hemisphere(self, dot: Scalar) -> Vec3 {
        if (Scalar { bits: 0 }).spec_lt(dot) {
            self
        } else {
            self.spec_neg()
        }
    }

    /// The vector with the given components.
    pub fn new(e0: Scalar, e1: Scalar, e2: Scalar) -> (v: Vec3)
        ensures
            v.e0 == e0,
            v.e1 == e1,
            v.e2 == e2,
    {
        Vec3 { e0, e1, e2 }
    }

    /// The first component.
    pub fn x(&self) -> (r: Scalar)
        ensures
            r == self.e0,
    {
        self.e0
    }

    /// The second component.
    pub fn y(&self) -> (r: Scalar)
        ensures
            r == self.e1,
    {
        self.e1
    }

    /// The third component.
    pub fn z(&self) -> (r: Scalar)
        ensures
            r == self.e2,
    {
        self.e2
    }

    /// Whether the vector is too short to serve as a direction: every
    /// component below `1e-8` in magnitude.
    #[verifier::when_used_as_spec(spec_near_zero)]
    pub fn near_zero(self) -> (b: bool)
        ensures
            b == self.spec_near_zero(),
    {
        let s = Scalar::from_bits(NEAR_ZERO_BITS);
        self.e0.abs().lt(s) && self.e1.abs().lt(s) && self.e2.abs().lt(s)
    }

    /// A random vector, each component the double made of one word of the
    /// generator, a whole number of `2^53`rds in `[0, 1)`; first comes first.
    pub fn random(rng: &mut rand::rngs::StdRng) -> (v: Vec3)
        ensures
            exists|k: nat| k < crate::utility::scalar::UNIT_STEPS && v.e0.is_unit_fraction(k),
            exists|k: nat| k < crate::utility::scalar::UNIT_STEPS && v.e1.is_unit_fraction(k),
            exists|k: nat| k < crate::utility::scalar::UNIT_STEPS && v.e2.is_unit_fraction(k),
            (Scalar { bits: 0 }).spec_le(v.e0) && v.e0.spec_lt(Scalar { bits: ONE_BITS }),
            (Scalar { bits: 0 }).spec_le(v.e1) && v.e1.spec_lt(Scalar { bits: ONE_BITS }),
            (Scalar { bits: 0 }).spec_le(v.e2) && v.e2.spec_lt(Scalar { bits: ONE_BITS }),
    {
        let e0 = random_double(rng);
        let ghost k0 = choose|k: nat|
            k < crate::utility::scalar::UNIT_STEPS && e0.is_unit_fraction(k);
        let e1 = random_double(rng);
        let ghost k1 = choose|k: nat|
            k < crate::utility::scalar::UNIT_STEPS && e1.is_unit_fraction(k);
        let e2 = random_double(rng);
        let ghost k2 = choose|k: nat|
            k < crate::utility::scalar::UNIT_STEPS && e2.is_unit_fraction(k);
        let v = Vec3 { e0, e1, e2 };
        assert(v.e0.is_unit_fraction(k0) && v.e1.is_unit_fraction(k1) && v.e2.is_unit_fraction(k2));
        v
    }

    /// Whether rejection sampling of a unit vector keeps a candidate of the
    /// given squared length: above `1e-160` and at most 1.
    #[verifier::when_used_as_spec(spec_accepts_unit_sample)]
    pub fn accepts_unit_sample(length_squared: Scalar) -> (b: bool)
        ensures
            b == Vec3::spec_accepts_unit_sample(length_squared),
    {
        Scalar::from_bits(UNIT_FLOOR_BITS).lt(length_squared) && length_squared.le(Scalar::one())
    }

    /// Whether rejection sampling of a point in the unit disc keeps a
    /// candidate of the given squared length: below 1.
    #[verifier::when_used_as_spec(spec_accepts_disc_sample)]
    pub fn accepts_disc_sample(length_squared: Scalar) -> (b: bool)
        ensures
            b == Vec3::spec_accepts_disc_sample(length_squared),
    {
        length_squared.lt(Scalar::one())
    }

    /// The vector turned into the hemisphere around a normal, given its dot
    /// product with that normal.
    #[verifier::when_used_as_spec(spec_on_hemisphere)]
    pub fn on_hemisphere(self, dot: Scalar) -> (v: Vec3)
        ensures
            v == self.spec_on_hemisphere(dot),
    {
        if Scalar::zero().lt(dot) {
            self
        } else {
            self.neg()
        }
    }

    /// The opposite vector.
    #[verifier::when_used_as_spec(spec_neg)]
    pub fn neg(self) -> (v: Vec3)
        ensures
            v == self.spec_neg(),
    {
        Vec3 { e0: self.e0.neg(), e1: self.e1.neg(), e2: self.e2.neg() }
    }
}

impl Default for Vec3 {
    /// The zero vector.
    fn default() -> (v: Vec3)
        ensures
            v.e0.bits == 0,
            v.e1.bits == 0,
            v.e2.bits == 0,
    {
        Vec3 { e0: Scalar::zero(), e1: Scalar::zero(), e2: Scalar::zero() }
    }
}

/// A vector and its opposite are near zero together, and negating twice
/// gives the vector back.
pub proof fn lemma_neg_keeps_length(v: Vec3)
    ensures
        v.spec_neg().spec_near_zero() == v.spec_near_zero(),
        v.spec_neg().spec_neg() == v,
{
}

/// A vector that is not near zero has a component of magnitude `1e-8` or
/// more, or a NaN component: it is never the zero vector.
pub proof fn lemma_not_near_zero_has_large_component(v: Vec3)
    requires
        !v.spec_near_zero(),
    ensures
        v.e0.magnitude() >= NEAR_ZERO_BITS || v.e1.magnitude() >= NEAR_ZERO_BITS
            || v.e2.magnitude() >= NEAR_ZERO_BITS,
{
}

} // verus!

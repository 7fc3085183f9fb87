//! Bounds on the parameter of a ray.

use vstd::prelude::*;
use crate::utility::scalar::Scalar;
use crate::utility::scalar::INFINITY_BITS;
use crate::utility::scalar::SIGN_BIT;

verus! {

/// The numbers from `min` to `max`. Whether the ends belong depends on the
/// question asked: [`Interval::contains`] counts them in,
/// [`Interval::surrounds`] leaves them out. An interval whose `min` lies above
/// its `max` holds nothing.
#[derive(Clone, Copy, Debug, PartialEq, Eq, Structural)]
pub struct Interval {
    pub min: Scalar,
    pub max: Scalar,
}

impl Interval {
    /// `min <= x <= max`.
    pub open spec fn spec_contains(self, x: Scalar) -> bool {
        self.min.spec_le(x) && x.spec_le(self.max)
    }

    /// `min < x < max`.
    pub open spec fn spec_surrounds(self, x: Scalar) -> bool {
        self.min.spec_lt(x) && x.spec_lt(self.max)
    }

    /// The interval that holds nothing: from `+inf` down to `-inf`.
    pub open spec fn spec_empty() -> Interval {
        Interval {
            min: Scalar { bits: INFINITY_BITS },
            max: Scalar { bits: (INFINITY_BITS + SIGN_BIT) as u64 },
        }
    }

    /// The interval that holds every number: from `-inf` up to `+inf`.
    pub open spec fn spec_universe() -> Interval {
        Interval {
            min: Scalar { bits: (INFINITY_BITS + SIGN_BIT) as u64 },
            max: Scalar { bits: INFINITY_BITS },
        }
    }

    /// The interval from `min` to `max`.
    pub fn new(min: Scalar, max: Scalar) -> (r: Interval)
        ensures
            r.min == min,
            r.max == max,
    {
        Interval { min, max }
    }

    /// The interval that holds nothing.
    #[verifier::when_used_as_spec(spec_empty)]
    pub fn empty() -> (r: Interval)
        ensures
            r == Interval::spec_empty(),
    {
        Interval { min: Scalar::infinity(), max: Scalar::neg_infinity() }
    }

    /// The interval that holds every number.
    #[verifier::when_used_as_spec(spec_universe)]
    pub fn universe() -> (r: Interval)
        ensures
            r == Interval::spec_universe(),
    {
        Interval { min: Scalar::neg_infinity(), max: Scalar::infinity() }
    }

    /// Whether `x` lies in the interval, ends included.
    #[verifier::when_used_as_spec(spec_contains)]
    pub fn contains(self, x: Scalar) -> (b: bool)
        ensures
            b == self.spec_contains(x),
    {
        self.min.le(x) && x.le(self.max)
    }

    /// Whether `x` lies strictly inside the interval.
    #[verifier::when_used_as_spec(spec_surrounds)]
    pub fn surrounds(self, x: Scalar) -> (b: bool)
        ensures
            b == self.spec_surrounds(x),
    {
        self.min.lt(x) && x.lt(self.max)
    }

    /// `x` moved to the nearer end when it lies outside the interval. The
    /// interval must not be empty.
    pub fn clamp(self, x: Scalar) -> (r: Scalar)
        requires
            self.min.spec_le(self.max),
        ensures
            r == x.spec_clamp(self.min, self.max),
    {
        x.clamp(self.min, self.max)
    }
}

impl Default for Interval {
    /// The default interval is the empty one.
    fn default() -> (r: Interval)
        ensures
            r == Interval::spec_empty(),
    {
        Interval::empty()
    }
}

/// What lies strictly inside an interval lies in it.
pub proof fn lemma_surrounds_implies_contains(i: Interval, x: Scalar)
    ensures
        i.spec_surrounds(x) ==> i.spec_contains(x),
{
}

/// The empty interval holds nothing, by either question.
pub proof fn lemma_empty_holds_nothing(x: Scalar)
    ensures
        !Interval::spec_empty().spec_contains(x),
        !Interval::spec_empty().spec_surrounds(x),
{
}

/// The universe holds every number, and strictly inside it lies every finite
/// one.
pub proof fn lemma_universe_holds_every_number(x: Scalar)
    ensures
        Interval::spec_universe().spec_contains(x) <==> !x.nan(),
        Interval::spec_universe().spec_surrounds(x) <==> x.magnitude() < INFINITY_BITS,
{
}

/// Lowering the upper end of an interval to `bound` keeps exactly those
/// members that lie below `bound`.
pub proof fn lemma_lowered_bound(i: Interval, bound: Scalar, x: Scalar)
    requires
        bound.spec_le(i.max),
    ensures
        (Interval { min: i.min, max: bound }).spec_surrounds(x) <==> i.spec_surrounds(x)
            && x.spec_lt(bound),
{
}

/// Clamping to a non-empty interval lands in it.
pub proof fn lemma_clamp_lands_inside(i: Interval, x: Scalar)
    requires
        i.min.spec_le(i.max),
        !x.nan(),
    ensures
        i.spec_contains(x.spec_clamp(i.min, i.max)),
        i.spec_contains(x) ==> x.spec_clamp(i.min, i.max) == x,
{
}

} // verus!

//! Spheres, and the choice between the two points where a ray pierces one.

use vstd::prelude::*;
use crate::hittable::material::Material;
use crate::point3::Point3;
use crate::utility::interval::Interval;
use crate::utility::scalar::Scalar;

verus! {

/// A sphere with a surface material. The radius is never negative.
#[derive(Clone, Copy, Debug, PartialEq, Eq, Structural)]
pub struct Sphere {
    pub center: Point3,
    pub radius: Scalar,
    pub mat: Material,
}

/// The solution of the quadratic that a ray and a sphere make: its
/// discriminant and its two roots, `near` being `(h - sqrt(d)) / a` and `far`
/// being `(h + sqrt(d)) / a`.
#[derive(Clone, Copy, Debug, PartialEq, Eq, Structural)]
pub struct Roots {
    pub discriminant: Scalar,
    pub near: Scalar,
    pub far: Scalar,
}

impl Sphere {
    /// Whether the radius is a number that is not below zero, as it is for
    /// every sphere that [`Sphere::new`] made.
    pub open spec fn wf(self) -> bool {
        (Scalar { bits: 0 }).spec_le(self.radius)
    }

    /// The sphere around `center`. A radius below zero, or one that is no
    /// number, becomes zero.
    pub fn new(center: Point3, radius: Scalar, mat: Material) -> (s: Sphere)
        ensures
            s.center == center,
            s.mat == mat,
            s.radius == radius.spec_max(Scalar { bits: 0 }),
            s.wf(),
    {
        Sphere { center, radius: radius.max(Scalar::zero()), mat }
    }
}

impl Roots {
    /// Whether the far root is not below the near one, as it never is for
    /// the two roots of one quadratic. Roots that are no numbers are in
    /// order.
    pub open spec fn in_order(self) -> bool {
        !self.far.spec_lt(self.near)
    }

    /// Where a ray whose parameter is bound to `ray_t` meets the sphere: at
    /// the near root if that lies strictly inside `ray_t`, else at the far
    /// root if that does, else nowhere. A discriminant below zero means the
    /// ray passes the sphere by.
    pub open spec fn spec_hit(self, ray_t: Interval) -> Option<Scalar> {
        if self.discriminant.spec_lt(Scalar { bits: 0 }) {
            None
        } else if ray_t.spec_surrounds(self.near) {
            Some(self.near)
        } else if ray_t.spec_surrounds(self.far) {
            Some(self.far)
        } else {
            None
        }
    }

    /// The roots of one quadratic.
    pub fn new(discriminant: Scalar, near: Scalar, far: Scalar) -> (r: Roots)
        ensures
            r.discriminant == discriminant,
            r.near == near,
            r.far == far,
    {
        Roots { discriminant, near, far }
    }

    /// The parameter at which the ray meets the sphere within `ray_t`, if it
    /// does: the near root when the ray comes from outside, the far root
    /// when it starts inside the sphere or the near root lies behind the
    /// lower bound.
    #[verifier::when_used_as_spec(spec_hit)]
    pub fn hit(self, ray_t: Interval) -> (t: Option<Scalar>)
        ensures
            t == self.spec_hit(ray_t),
    {
        if self.discriminant.lt(Scalar::zero()) {
            return None;
        }
        if ray_t.surrounds(self.near) {
            Some(self.near)
        } else if ray_t.surrounds(self.far) {
            Some(self.far)
        } else {
            None
        }
    }
}

/// A hit is one of the two roots and lies strictly inside the bounds.
pub proof fn lemma_hit_is_root_inside(roots: Roots, ray_t: Interval)
    ensures
        roots.spec_hit(ray_t) matches Some(t) ==> ray_t.spec_surrounds(t) && (t == roots.near || t
            == roots.far),
{
}

/// With the roots in order, the hit is the closest intersection inside the
/// bounds: no root inside the bounds lies below it, and there is a hit as
/// soon as the discriminant is not below zero and either root lies inside.
pub proof fn lemma_hit_is_closest_root(roots: Roots, ray_t: Interval)
    requires
        roots.in_order(),
    ensures
        roots.spec_hit(ray_t) matches Some(t) ==> {
            &&& ray_t.spec_surrounds(roots.near) ==> !roots.near.spec_lt(t)
            &&& ray_t.spec_surrounds(roots.far) ==> !roots.far.spec_lt(t)
        },
        roots.spec_hit(ray_t) is None <==> roots.discriminant.spec_lt(Scalar { bits: 0 }) || (
        !ray_t.spec_surrounds(roots.near) && !ray_t.spec_surrounds(roots.far)),
{
}

/// A ray that starts outside the sphere and heads for it (both roots ahead
/// of the lower bound, and within the upper one) hits at the near root; one
/// that starts inside (near root not ahead of the lower bound, far root
/// inside the bounds) hits at the far root.
pub proof fn lemma_outside_near_inside_far(roots: Roots, ray_t: Interval)
    requires
        !roots.discriminant.spec_lt(Scalar { bits: 0 }),
    ensures
        ray_t.spec_surrounds(roots.near) ==> roots.spec_hit(ray_t) == Some(roots.near),
        !ray_t.min.spec_lt(roots.near) && ray_t.spec_surrounds(roots.far) ==> roots.spec_hit(ray_t)
            == Some(roots.far),
{
}

/// Bounds that hold nothing strictly inside, as the empty interval and
/// every interval of a single point do, yield no hit.
pub proof fn lemma_degenerate_bounds_hit_nothing(roots: Roots, ray_t: Interval)
    requires
        !ray_t.min.spec_lt(ray_t.max),
    ensures
        roots.spec_hit(ray_t) is None,
{
}

/// Lowering the upper bound to `bound` keeps a hit exactly when it lies
/// below `bound`: with the roots in order, a scan that shrinks its bound to
/// the closest hit so far loses nothing that a scan of the full bounds
/// would have preferred.
pub proof fn lemma_hit_under_lowered_bound(roots: Roots, ray_t: Interval, bound: Scalar)
    requires
        roots.in_order(),
        bound.spec_le(ray_t.max),
    ensures
        roots.spec_hit(Interval { min: ray_t.min, max: bound }) == match roots.spec_hit(ray_t) {
            Some(t) => if t.spec_lt(bound) {
                Some(t)
            } else {
                None
            },
            None => None,
        },
{
}

} // verus!

//! Half-lines through the scene.

use vstd::prelude::*;
use crate::point3::Point3;
use crate::vec3::Vec3;

verus! {

/// The half-line `origin + t * direction`. A ray is never changed once made.
#[derive(Clone, Copy, Debug, PartialEq, Eq, Structural)]
pub struct Ray {
    pub origin: Point3,
    pub direction: Vec3,
}

impl Ray {
    /// The ray that leaves `origin` along `direction`.
    pub fn new(origin: Point3, direction: Vec3) -> (r: Ray)
        ensures
            r.origin == origin,
            r.direction == direction,
    {
        Ray { origin, direction }
    }

    /// Where the ray starts.
    pub fn origin(&self) -> (p: &Point3)
        ensures
            *p == self.origin,
    {
        &self.origin
    }

    /// Where the ray heads.
    pub fn direction(&self) -> (d: &Vec3)
        ensures
            *d == self.direction,
    {
        &self.direction
    }
}

} // verus!

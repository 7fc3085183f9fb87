//! Positions in space.

use vstd::prelude::*;
use crate::utility::scalar::Scalar;

verus! {

/// A position, by its three coordinates.
#[derive(Clone, Copy, Debug, PartialEq, Eq, Structural)]
pub struct Point3 {
    pub e0: Scalar,
    pub e1: Scalar,
    pub e2: Scalar,
}

impl Point3 {
    /// The point with the given coordinates.
    pub fn new(a: Scalar, b: Scalar, c: Scalar) -> (p: Point3)
        ensures
            p.e0 == a,
            p.e1 == b,
            p.e2 == c,
    {
        Point3 { e0: a, e1: b, e2: c }
    }

    /// The first coordinate.
    pub fn x(&self) -> (r: Scalar)
        ensures
            r == self.e0,
    {
        self.e0
    }

    /// The second coordinate.
    pub fn y(&self) -> (r: Scalar)
        ensures
            r == self.e1,
    {
        self.e1
    }

    /// The third coordinate.
    pub fn z(&self) -> (r: Scalar)
        ensures
            r == self.e2,
    {
        self.e2
    }
}

impl Default for Point3 {
    /// The origin.
    fn default() -> (p: Point3)
        ensures
            p.e0.bits == 0,
            p.e1.bits == 0,
            p.e2.bits == 0,
    {
        Point3 { e0: Scalar::zero(), e1: Scalar::zero(), e2: Scalar::zero() }
    }
}

} // verus!

//! Rays.
use crate::arithmetic::{exact, Arithmetic};
use crate::scalar::Scalar;
use crate::v3::V3;
use vstd::prelude::*;

verus! {

/// A half-line: the points `origin + t * direction`.
#[derive(Clone, Copy, PartialEq, Eq, Debug, Structural)]
pub struct Ray {
    pub origin: V3,
    pub direction: V3,
}

impl Ray {
    /// The ray from `origin` in the direction `direction`.
    pub fn new(origin: V3, direction: V3) -> (r: Ray)
        ensures
            r == (Ray { origin, direction }),
    {
        Ray { origin, direction }
    }

    /// The point at parameter `t`: `origin + t * direction`.
    pub open spec fn spec_at<A: Arithmetic>(self, ar: &A, t: Scalar) -> V3 {
        self.origin.spec_plus(ar, self.direction.spec_scaled(ar, t))
    }

    /// The point at parameter `t`: `origin + t * direction`.
    pub fn at<A: Arithmetic>(&self, ar: &A, t: Scalar) -> (r: V3)
        requires
            exact(ar),
        ensures
            r == self.spec_at(ar, t),
    {
        self.origin.plus(ar, self.direction.scaled(ar, t))
    }
}

} // verus!

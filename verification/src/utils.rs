//! Small helpers.
use crate::arithmetic::{difference, exact, minus, plus, product, sum, times, Arithmetic};
use crate::scalar::Scalar;
use vstd::prelude::*;

verus! {

/// The point a fraction `proportion` of the way from `min` to `max`:
/// `min + proportion * (max - min)`.
pub open spec fn spec_scale<A: Arithmetic>(
    ar: &A,
    proportion: Scalar,
    min: Scalar,
    max: Scalar,
) -> Scalar {
    sum(ar, min, product(ar, proportion, difference(ar, max, min)))
}

/// The point a fraction `proportion` of the way from `min` to `max`: `min +
/// proportion * (max - min)`.
pub fn scale<A: Arithmetic>(ar: &A, proportion: Scalar, min: Scalar, max: Scalar) -> (r: Scalar)
    requires
        exact(ar),
    ensures
        r == spec_scale(ar, proportion, min, max),
{
    plus(ar, min, times(ar, proportion, minus(ar, max, min)))
}

} // verus!

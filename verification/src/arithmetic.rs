//! The rounding arithmetic that the tracer is written against.
//!
//! The library decides, orders and selects on bit patterns, which it can do
//! exactly. Sums, products, quotients, roots and the trigonometric functions
//! round, and are taken from an [`Arithmetic`] that the caller brings: in
//! practice the machine's binary64 unit. The one thing the library asks of it
//! is that each operation is a function of its operands ([`exact`]). Each
//! result then has a name that contracts can speak of: [`sum`], [`product`]
//! and so on.
use crate::scalar::Scalar;
use vstd::prelude::*;

verus! {

/// Rounding operations on binary64 values. Every operation accepts every
/// operand: what has no number for an answer gives an infinity or a value
/// that is not a number.
pub trait Arithmetic {
    /// `a + b`.
    fn plus(&self, a: Scalar, b: Scalar) -> Scalar;

    /// `a - b`.
    fn minus(&self, a: Scalar, b: Scalar) -> Scalar;

    /// `a * b`.
    fn times(&self, a: Scalar, b: Scalar) -> Scalar;

    /// `a / b`.
    fn over(&self, a: Scalar, b: Scalar) -> Scalar;

    /// The four-quadrant arc tangent of `a / b`, in radians.
    fn atan2(&self, a: Scalar, b: Scalar) -> Scalar;

    /// The square root of `a`.
    fn sqrt(&self, a: Scalar) -> Scalar;

    /// The sine of `a` radians.
    fn sin(&self, a: Scalar) -> Scalar;

    /// The tangent of `a` radians.
    fn tan(&self, a: Scalar) -> Scalar;

    /// The arc cosine of `a`, in radians.
    fn acos(&self, a: Scalar) -> Scalar;

    /// `a` raised to the integer power `n`.
    fn powi(&self, a: Scalar, n: i32) -> Scalar;

    /// The value nearest to the count `n`.
    fn from_count(&self, n: u64) -> Scalar;

    /// `a` cut to a count: its integer part, 0 below zero and for a value that
    /// is not a number, `u64::MAX` above the range.
    fn to_count(&self, a: Scalar) -> u64;
}

/// What `ar` gives for the sum `a + b`.
pub open spec fn sum<A: Arithmetic>(ar: &A, a: Scalar, b: Scalar) -> Scalar {
    choose|r: Scalar| call_ensures(A::plus, (ar, a, b), r)
}

/// What `ar` gives for the difference `a - b`.
pub open spec fn difference<A: Arithmetic>(ar: &A, a: Scalar, b: Scalar) -> Scalar {
    choose|r: Scalar| call_ensures(A::minus, (ar, a, b), r)
}

/// What `ar` gives for the product `a * b`.
pub open spec fn product<A: Arithmetic>(ar: &A, a: Scalar, b: Scalar) -> Scalar {
    choose|r: Scalar| call_ensures(A::times, (ar, a, b), r)
}

/// What `ar` gives for the quotient `a / b`.
pub open spec fn quotient<A: Arithmetic>(ar: &A, a: Scalar, b: Scalar) -> Scalar {
    choose|r: Scalar| call_ensures(A::over, (ar, a, b), r)
}

/// What `ar` gives for the four-quadrant arc tangent of `a / b`.
pub open spec fn arc_tangent2<A: Arithmetic>(ar: &A, a: Scalar, b: Scalar) -> Scalar {
    choose|r: Scalar| call_ensures(A::atan2, (ar, a, b), r)
}

/// What `ar` gives for the square root of `a`.
pub open spec fn square_root<A: Arithmetic>(ar: &A, a: Scalar) -> Scalar {
    choose|r: Scalar| call_ensures(A::sqrt, (ar, a), r)
}

/// What `ar` gives for the sine of `a` radians.
pub open spec fn sine<A: Arithmetic>(ar: &A, a: Scalar) -> Scalar {
    choose|r: Scalar| call_ensures(A::sin, (ar, a), r)
}

/// What `ar` gives for the tangent of `a` radians.
pub open spec fn tangent<A: Arithmetic>(ar: &A, a: Scalar) -> Scalar {
    choose|r: Scalar| call_ensures(A::tan, (ar, a), r)
}

/// What `ar` gives for the arc cosine of `a`.
pub open spec fn arc_cosine<A: Arithmetic>(ar: &A, a: Scalar) -> Scalar {
    choose|r: Scalar| call_ensures(A::acos, (ar, a), r)
}

/// What `ar` gives for `a` raised to the integer power `n`.
pub open spec fn power<A: Arithmetic>(ar: &A, a: Scalar, n: i32) -> Scalar {
    choose|r: Scalar| call_ensures(A::powi, (ar, a, n), r)
}

/// What `ar` gives for the value nearest to the count `n`.
pub open spec fn scalar_of<A: Arithmetic>(ar: &A, n: u64) -> Scalar {
    choose|r: Scalar| call_ensures(A::from_count, (ar, n), r)
}

/// What `ar` gives for `a` cut to a count.
pub open spec fn count_of<A: Arithmetic>(ar: &A, a: Scalar) -> u64 {
    choose|r: u64| call_ensures(A::to_count, (ar, a), r)
}

/// Every operation of `ar` is a function of its operands: the same operands
/// give the same result, whenever and wherever they are asked.
///
/// An implementation whose methods each state in an `ensures` which value
/// they return has this property, and can prove it. One that is written
/// outside the reach of the verifier, as the machine's arithmetic has to be,
/// is taken to have it.
pub open spec fn exact<A: Arithmetic>(ar: &A) -> bool {
    &&& forall|a: Scalar, b: Scalar, r: Scalar|
        call_ensures(A::plus, (ar, a, b), r) ==> r == sum(ar, a, b)
    &&& forall|a: Scalar, b: Scalar, r: Scalar|
        call_ensures(A::minus, (ar, a, b), r) ==> r == difference(ar, a, b)
    &&& forall|a: Scalar, b: Scalar, r: Scalar|
        call_ensures(A::times, (ar, a, b), r) ==> r == product(ar, a, b)
    &&& forall|a: Scalar, b: Scalar, r: Scalar|
        call_ensures(A::over, (ar, a, b), r) ==> r == quotient(ar, a, b)
    &&& forall|a: Scalar, b: Scalar, r: Scalar|
        call_ensures(A::atan2, (ar, a, b), r) ==> r == arc_tangent2(ar, a, b)
    &&& forall|a: Scalar, r: Scalar| call_ensures(A::sqrt, (ar, a), r) ==> r == square_root(ar, a)
    &&& forall|a: Scalar, r: Scalar| call_ensures(A::sin, (ar, a), r) ==> r == sine(ar, a)
    &&& forall|a: Scalar, r: Scalar| call_ensures(A::tan, (ar, a), r) ==> r == tangent(ar, a)
    &&& forall|a: Scalar, r: Scalar| call_ensures(A::acos, (ar, a), r) ==> r == arc_cosine(ar, a)
    &&& forall|a: Scalar, n: i32, r: Scalar|
        call_ensures(A::powi, (ar, a, n), r) ==> r == power(ar, a, n)
    &&& forall|n: u64, r: Scalar| call_ensures(A::from_count, (ar, n), r) ==> r == scalar_of(ar, n)
    &&& forall|a: Scalar, r: u64| call_ensures(A::to_count, (ar, a), r) ==> r == count_of(ar, a)
}

/// The sum `a + b`, computed by `ar`.
pub fn plus<A: Arithmetic>(ar: &A, a: Scalar, b: Scalar) -> (r: Scalar)
    requires
        exact(ar),
    ensures
        r == sum(ar, a, b),
        call_ensures(A::plus, (ar, a, b), r),
{
    ar.plus(a, b)
}

/// The difference `a - b`, computed by `ar`.
pub fn minus<A: Arithmetic>(ar: &A, a: Scalar, b: Scalar) -> (r: Scalar)
    requires
        exact(ar),
    ensures
        r == difference(ar, a, b),
        call_ensures(A::minus, (ar, a, b), r),
{
    ar.minus(a, b)
}

/// The product `a * b`, computed by `ar`.
pub fn times<A: Arithmetic>(ar: &A, a: Scalar, b: Scalar) -> (r: Scalar)
    requires
        exact(ar),
    ensures
        r == product(ar, a, b),
        call_ensures(A::times, (ar, a, b), r),
{
    ar.times(a, b)
}

/// The quotient `a / b`, computed by `ar`.
pub fn over<A: Arithmetic>(ar: &A, a: Scalar, b: Scalar) -> (r: Scalar)
    requires
        exact(ar),
    ensures
        r == quotient(ar, a, b),
        call_ensures(A::over, (ar, a, b), r),
{
    ar.over(a, b)
}

/// The four-quadrant arc tangent of `a / b`, computed by `ar`.
pub fn atan2<A: Arithmetic>(ar: &A, a: Scalar, b: Scalar) -> (r: Scalar)
    requires
        exact(ar),
    ensures
        r == arc_tangent2(ar, a, b),
        call_ensures(A::atan2, (ar, a, b), r),
{
    ar.atan2(a, b)
}

/// The square root of `a`, computed by `ar`.
pub fn sqrt<A: Arithmetic>(ar: &A, a: Scalar) -> (r: Scalar)
    requires
        exact(ar),
    ensures
        r == square_root(ar, a),
        call_ensures(A::sqrt, (ar, a), r),
{
    ar.sqrt(a)
}

/// The sine of `a` radians, computed by `ar`.
pub fn sin<A: Arithmetic>(ar: &A, a: Scalar) -> (r: Scalar)
    requires
        exact(ar),
    ensures
        r == sine(ar, a),
        call_ensures(A::sin, (ar, a), r),
{
    ar.sin(a)
}

/// The tangent of `a` radians, computed by `ar`.
pub fn tan<A: Arithmetic>(ar: &A, a: Scalar) -> (r: Scalar)
    requires
        exact(ar),
    ensures
        r == tangent(ar, a),
        call_ensures(A::tan, (ar, a), r),
{
    ar.tan(a)
}

/// The arc cosine of `a`, computed by `ar`.
pub fn acos<A: Arithmetic>(ar: &A, a: Scalar) -> (r: Scalar)
    requires
        exact(ar),
    ensures
        r == arc_cosine(ar, a),
        call_ensures(A::acos, (ar, a), r),
{
    ar.acos(a)
}

/// `a` raised to the integer power `n`, computed by `ar`.
pub fn powi<A: Arithmetic>(ar: &A, a: Scalar, n: i32) -> (r: Scalar)
    requires
        exact(ar),
    ensures
        r == power(ar, a, n),
        call_ensures(A::powi, (ar, a, n), r),
{
    ar.powi(a, n)
}

/// The value nearest to the count `n`, computed by `ar`.
pub fn from_count<A: Arithmetic>(ar: &A, n: u64) -> (r: Scalar)
    requires
        exact(ar),
    ensures
        r == scalar_of(ar, n),
        call_ensures(A::from_count, (ar, n), r),
{
    ar.from_count(n)
}

/// `a` cut to a count, computed by `ar`.
pub fn to_count<A: Arithmetic>(ar: &A, a: Scalar) -> (r: u64)
    requires
        exact(ar),
    ensures
        r == count_of(ar, a),
        call_ensures(A::to_count, (ar, a), r),
{
    ar.to_count(a)
}

} // verus!

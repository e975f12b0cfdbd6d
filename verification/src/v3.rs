//! Three-dimensional vectors.
use crate::arithmetic::{
    difference, minus, over, plus, product, quotient, sqrt, square_root, sum, times, exact,
    Arithmetic,
};
use crate::random::{may_draw, may_draw_in_sphere, RandomSource};
use crate::scalar::{Scalar, NEAR_ZERO, ONE, TWO, ZERO};
use crate::utils::{scale, spec_scale};
use vstd::prelude::*;

verus! {

/// One of the three coordinate axes.
#[derive(Clone, Copy, PartialEq, Eq, Debug, Structural)]
pub enum Axis {
    X,
    Y,
    Z,
}

/// A vector of three scalars. Operations build new vectors and leave their
/// operands as they were.
#[derive(Clone, Copy, PartialEq, Eq, Debug, Structural)]
pub struct V3 {
    pub x: Scalar,
    pub y: Scalar,
    pub z: Scalar,
}

impl V3 {
    /// The vector with the given components.
    pub fn new(x: Scalar, y: Scalar, z: Scalar) -> (r: V3)
        ensures
            r == (V3 { x, y, z }),
    {
        V3 { x, y, z }
    }

    /// The component along `axis`.
    pub open spec fn spec_get(self, axis: Axis) -> Scalar {
        match axis {
            Axis::X => self.x,
            Axis::Y => self.y,
            Axis::Z => self.z,
        }
    }

    /// The component along `axis`.
    pub fn get(self, axis: Axis) -> (r: Scalar)
        ensures
            r == self.spec_get(axis),
    {
        match axis {
            Axis::X => self.x,
            Axis::Y => self.y,
            Axis::Z => self.z,
        }
    }

    /// `x*x + y*y + z*z`, summed from the left.
    pub open spec fn spec_length_squared<A: Arithmetic>(self, ar: &A) -> Scalar {
        sum(
            ar,
            sum(ar, product(ar, self.x, self.x), product(ar, self.y, self.y)),
            product(ar, self.z, self.z),
        )
    }

    /// `x*x + y*y + z*z`, summed from the left.
    pub fn length_squared<A: Arithmetic>(self, ar: &A) -> (r: Scalar)
        requires
            exact(ar),
        ensures
            r == self.spec_length_squared(ar),
    {
        let xx: Scalar = times(ar, self.x, self.x);
        let yy: Scalar = times(ar, self.y, self.y);
        let zz: Scalar = times(ar, self.z, self.z);
        plus(ar, plus(ar, xx, yy), zz)
    }

    /// The square root of the squared length.
    pub open spec fn spec_length<A: Arithmetic>(self, ar: &A) -> Scalar {
        square_root(ar, self.spec_length_squared(ar))
    }

    /// The square root of the squared length.
    pub fn length<A: Arithmetic>(self, ar: &A) -> (r: Scalar)
        requires
            exact(ar),
        ensures
            r == self.spec_length(ar),
    {
        sqrt(ar, self.length_squared(ar))
    }

    /// The vector divided by its length.
    pub open spec fn spec_unit_vector<A: Arithmetic>(self, ar: &A) -> V3 {
        self.spec_over(ar, self.spec_length(ar))
    }

    /// The vector divided by its length.
    pub fn unit_vector<A: Arithmetic>(self, ar: &A) -> (r: V3)
        requires
            exact(ar),
        ensures
            r == self.spec_unit_vector(ar),
    {
        self.over(ar, self.length(ar))
    }

    /// `a.x*b.x + a.y*b.y + a.z*b.z`, summed from the left.
    pub open spec fn spec_dot<A: Arithmetic>(ar: &A, a: V3, b: V3) -> Scalar {
        sum(
            ar,
            sum(ar, product(ar, a.x, b.x), product(ar, a.y, b.y)),
            product(ar, a.z, b.z),
        )
    }

    /// `a.x*b.x + a.y*b.y + a.z*b.z`, summed from the left.
    pub fn dot<A: Arithmetic>(ar: &A, a: V3, b: V3) -> (r: Scalar)
        requires
            exact(ar),
        ensures
            r == V3::spec_dot(ar, a, b),
    {
        let xx: Scalar = times(ar, a.x, b.x);
        let yy: Scalar = times(ar, a.y, b.y);
        let zz: Scalar = times(ar, a.z, b.z);
        plus(ar, plus(ar, xx, yy), zz)
    }

    /// The cross product `a x b`.
    pub open spec fn spec_cross<A: Arithmetic>(ar: &A, a: V3, b: V3) -> V3 {
        V3 {
            x: difference(ar, product(ar, a.y, b.z), product(ar, a.z, b.y)),
            y: difference(ar, product(ar, a.z, b.x), product(ar, a.x, b.z)),
            z: difference(ar, product(ar, a.x, b.y), product(ar, a.y, b.x)),
        }
    }

    /// The cross product `a x b`.
    pub fn cross<A: Arithmetic>(ar: &A, a: V3, b: V3) -> (r: V3)
        requires
            exact(ar),
        ensures
            r == V3::spec_cross(ar, a, b),
    {
        V3 {
            x: minus(ar, times(ar, a.y, b.z), times(ar, a.z, b.y)),
            y: minus(ar, times(ar, a.z, b.x), times(ar, a.x, b.z)),
            z: minus(ar, times(ar, a.x, b.y), times(ar, a.y, b.x)),
        }
    }

    /// Every component is smaller than `1e-8` in magnitude. A component that
    /// is not a number is not small.
    pub open spec fn spec_near_zero(self) -> bool {
        let threshold = Scalar { bits: NEAR_ZERO };
        &&& self.x.spec_abs().spec_lt(threshold)
        &&& self.y.spec_abs().spec_lt(threshold)
        &&& self.z.spec_abs().spec_lt(threshold)
    }

    /// Whether every component is smaller than `1e-8` in magnitude.
    pub fn near_zero(self) -> (r: bool)
        ensures
            r == self.spec_near_zero(),
    {
        let threshold: Scalar = Scalar { bits: NEAR_ZERO };
        self.x.abs().lt(threshold) && self.y.abs().lt(threshold) && self.z.abs().lt(threshold)
    }

    /// The squared length is below one: the test by which a point drawn from
    /// the cube `[-1, 1)^3` is kept as a point of the unit ball.
    pub open spec fn spec_inside_unit_sphere<A: Arithmetic>(self, ar: &A) -> bool {
        self.spec_length_squared(ar).spec_lt(Scalar { bits: ONE })
    }

    /// Whether the squared length is below one.
    pub fn inside_unit_sphere<A: Arithmetic>(self, ar: &A) -> (r: bool)
        requires
            exact(ar),
        ensures
            r == self.spec_inside_unit_sphere(ar),
    {
        self.length_squared(ar).lt(Scalar { bits: ONE })
    }

    /// Each component with its sign flipped.
    pub open spec fn spec_neg(self) -> V3 {
        V3 { x: self.x.spec_neg(), y: self.y.spec_neg(), z: self.z.spec_neg() }
    }

    /// Each component with its sign flipped.
    pub fn neg(self) -> (r: V3)
        ensures
            r == self.spec_neg(),
    {
        V3 { x: self.x.neg(), y: self.y.neg(), z: self.z.neg() }
    }

    /// The component-wise sum.
    pub open spec fn spec_plus<A: Arithmetic>(self, ar: &A, other: V3) -> V3 {
        V3 {
            x: sum(ar, self.x, other.x),
            y: sum(ar, self.y, other.y),
            z: sum(ar, self.z, other.z),
        }
    }

    /// The component-wise sum.
    pub fn plus<A: Arithmetic>(self, ar: &A, other: V3) -> (r: V3)
        requires
            exact(ar),
        ensures
            r == self.spec_plus(ar, other),
    {
        V3 {
            x: plus(ar, self.x, other.x),
            y: plus(ar, self.y, other.y),
            z: plus(ar, self.z, other.z),
        }
    }

    /// The component-wise difference.
    pub open spec fn spec_minus<A: Arithmetic>(self, ar: &A, other: V3) -> V3 {
        V3 {
            x: difference(ar, self.x, other.x),
            y: difference(ar, self.y, other.y),
            z: difference(ar, self.z, other.z),
        }
    }

    /// The component-wise difference.
    pub fn minus<A: Arithmetic>(self, ar: &A, other: V3) -> (r: V3)
        requires
            exact(ar),
        ensures
            r == self.spec_minus(ar, other),
    {
        V3 {
            x: minus(ar, self.x, other.x),
            y: minus(ar, self.y, other.y),
            z: minus(ar, self.z, other.z),
        }
    }

    /// The vector with each component multiplied by `s`.
    pub open spec fn spec_scaled<A: Arithmetic>(self, ar: &A, s: Scalar) -> V3 {
        V3 { x: product(ar, self.x, s), y: product(ar, self.y, s), z: product(ar, self.z, s) }
    }

    /// The vector with each component multiplied by `s`.
    pub fn scaled<A: Arithmetic>(self, ar: &A, s: Scalar) -> (r: V3)
        requires
            exact(ar),
        ensures
            r == self.spec_scaled(ar, s),
    {
        V3 { x: times(ar, self.x, s), y: times(ar, self.y, s), z: times(ar, self.z, s) }
    }

    /// The vector with each component divided by `s`.
    pub open spec fn spec_over<A: Arithmetic>(self, ar: &A, s: Scalar) -> V3 {
        V3 { x: quotient(ar, self.x, s), y: quotient(ar, self.y, s), z: quotient(ar, self.z, s) }
    }

    /// The vector with each component divided by `s`.
    pub fn over<A: Arithmetic>(self, ar: &A, s: Scalar) -> (r: V3)
        requires
            exact(ar),
        ensures
            r == self.spec_over(ar, s),
    {
        V3 { x: over(ar, self.x, s), y: over(ar, self.y, s), z: over(ar, self.z, s) }
    }
}

/// `v` divided by its length.
pub fn unit_vector<A: Arithmetic>(ar: &A, v: V3) -> (r: V3)
    requires
        exact(ar),
    ensures
        r == v.spec_unit_vector(ar),
{
    v.over(ar, v.length(ar))
}

/// The vector whose components lie the fractions `u.x`, `u.y`, `u.z` of the
/// way from `min` to `max`.
pub open spec fn spec_vector_between<A: Arithmetic>(
    ar: &A,
    u: V3,
    min: Scalar,
    max: Scalar,
) -> V3 {
    V3 {
        x: spec_scale(ar, u.x, min, max),
        y: spec_scale(ar, u.y, min, max),
        z: spec_scale(ar, u.z, min, max),
    }
}

/// The vector whose components lie the fractions `u.x`, `u.y`, `u.z` of the way
/// from `min` to `max`.
pub fn vector_between<A: Arithmetic>(ar: &A, u: V3, min: Scalar, max: Scalar) -> (r: V3)
    requires
        exact(ar),
    ensures
        r == spec_vector_between(ar, u, min, max),
{
    V3 { x: scale(ar, u.x, min, max), y: scale(ar, u.y, min, max), z: scale(ar, u.z, min, max) }
}

/// What becomes of three uniform draws `u` when a point of the unit ball is
/// wanted: the point of the cube `[-1, 1)^3` that they select, if it lies
/// inside the ball, and nothing otherwise. Who wants a point draws until there
/// is one.
pub open spec fn spec_unit_ball_candidate<A: Arithmetic>(ar: &A, u: V3) -> Option<V3> {
    let one = Scalar { bits: ONE };
    let candidate = spec_vector_between(ar, u, one.spec_neg(), one);
    if candidate.spec_inside_unit_sphere(ar) {
        Some(candidate)
    } else {
        None
    }
}

/// The point of the unit ball that the three uniform draws `u` select, if
/// they select one.
pub fn unit_ball_candidate<A: Arithmetic>(ar: &A, u: V3) -> (r: Option<V3>)
    requires
        exact(ar),
    ensures
        r == spec_unit_ball_candidate(ar, u),
        r matches Some(p) ==> p.spec_inside_unit_sphere(ar),
{
    let one: Scalar = Scalar { bits: ONE };
    let candidate: V3 = vector_between(ar, u, one.neg(), one);
    if candidate.inside_unit_sphere(ar) {
        Some(candidate)
    } else {
        None
    }
}

/// What becomes of two uniform draws `u.x` and `u.y` when a point of the unit
/// disk in the plane `z = 0` is wanted: the point of the square `[-1, 1)^2`
/// that they select, if it lies inside the disk, and nothing otherwise.
pub open spec fn spec_unit_disk_candidate<A: Arithmetic>(ar: &A, u: V3) -> Option<V3> {
    let one = Scalar { bits: ONE };
    let candidate = V3 {
        x: spec_scale(ar, u.x, one.spec_neg(), one),
        y: spec_scale(ar, u.y, one.spec_neg(), one),
        z: Scalar { bits: ZERO },
    };
    if candidate.spec_inside_unit_sphere(ar) {
        Some(candidate)
    } else {
        None
    }
}

/// The point of the unit disk that the uniform draws `u.x` and `u.y` select,
/// if they select one.
pub fn unit_disk_candidate<A: Arithmetic>(ar: &A, u: V3) -> (r: Option<V3>)
    requires
        exact(ar),
    ensures
        r == spec_unit_disk_candidate(ar, u),
        r matches Some(p) ==> p.spec_inside_unit_sphere(ar) && p.z == (Scalar { bits: ZERO }),
{
    let one: Scalar = Scalar { bits: ONE };
    let candidate: V3 = V3 {
        x: scale(ar, u.x, one.neg(), one),
        y: scale(ar, u.y, one.neg(), one),
        z: Scalar { bits: ZERO },
    };
    if candidate.inside_unit_sphere(ar) {
        Some(candidate)
    } else {
        None
    }
}

/// A vector with each component drawn between `min` and `max`: three uniform
/// draws, for x, y and z in that order, each placed by [`scale`].
pub fn random_vector<A: Arithmetic, S: RandomSource>(
    ar: &A,
    source: &S,
    min: Scalar,
    max: Scalar,
) -> (r: V3)
    requires
        exact(ar),
    ensures
        exists|u: V3|
            {
                &&& may_draw(source, u.x)
                &&& may_draw(source, u.y)
                &&& may_draw(source, u.z)
                &&& r == spec_vector_between(ar, u, min, max)
            },
{
    let x: Scalar = source.uniform();
    let y: Scalar = source.uniform();
    let z: Scalar = source.uniform();
    let u: V3 = V3 { x, y, z };
    let r: V3 = vector_between(ar, u, min, max);
    assert(may_draw(source, u.x) && may_draw(source, u.y) && may_draw(source, u.z) && r
        == spec_vector_between(ar, u, min, max));
    r
}

/// A point of the unit ball, as the source draws it. Nothing is known of the
/// point but that the source gave it; a source that keeps to
/// [`unit_ball_candidate`] gives points inside the ball.
pub fn random_in_unit_sphere<S: RandomSource>(source: &S) -> (r: V3)
    ensures
        may_draw_in_sphere(source, r),
{
    source.in_unit_sphere()
}

/// A direction: a point drawn from the unit ball, divided by its length.
pub fn random_unit_vector<A: Arithmetic, S: RandomSource>(ar: &A, source: &S) -> (r: V3)
    requires
        exact(ar),
    ensures
        exists|p: V3| may_draw_in_sphere(source, p) && r == p.spec_unit_vector(ar),
{
    let p: V3 = source.in_unit_sphere();
    unit_vector(ar, p)
}

/// `v` mirrored about the plane with normal `n`: `v - 2 (v . n) n`.
pub open spec fn spec_reflect<A: Arithmetic>(ar: &A, v: V3, n: V3) -> V3 {
    v.spec_minus(ar, n.spec_scaled(ar, product(ar, Scalar { bits: TWO }, V3::spec_dot(ar, v, n))))
}

/// `v` mirrored about the plane with normal `n`: `v - 2 (v . n) n`.
pub fn reflect<A: Arithmetic>(ar: &A, v: V3, n: V3) -> (r: V3)
    requires
        exact(ar),
    ensures
        r == spec_reflect(ar, v, n),
{
    let twice: Scalar = times(ar, Scalar { bits: TWO }, V3::dot(ar, v, n));
    v.minus(ar, n.scaled(ar, twice))
}

} // verus!

//! Axis-aligned bounding boxes.
use crate::arithmetic::{difference, exact, minus, over, quotient, Arithmetic};
use crate::ray::Ray;
use crate::scalar::{Scalar, INFINITY, ZERO};
use crate::v3::{Axis, V3};
use vstd::prelude::*;

verus! {

/// The box of all points between two corners.
#[derive(Clone, Copy, PartialEq, Eq, Debug, Structural)]
pub struct AABB {
    pub minimum: V3,
    pub maximum: V3,
}

/// An interval of ray parameters, from `near` to `far`.
#[derive(Clone, Copy, PartialEq, Eq, Debug, Structural)]
pub struct Interval {
    pub near: Scalar,
    pub far: Scalar,
}

impl Interval {
    /// The interval cut down to what it shares with `slab`: the near end is
    /// the larger of the two near ends, the far end the smaller of the two far
    /// ends.
    pub open spec fn spec_narrow(self, slab: Interval) -> Interval {
        Interval { near: self.near.spec_max(slab.near), far: self.far.spec_min(slab.far) }
    }

    /// The interval cut down to what it shares with `slab`: the near end is the
    /// larger of the two near ends, the far end the smaller of the two far
    /// ends.
    pub fn narrow(self, slab: Interval) -> (r: Interval)
        ensures
            r == self.spec_narrow(slab),
    {
        Interval { near: self.near.max(slab.near), far: self.far.min(slab.far) }
    }

    /// Nothing lies strictly between the two ends: `far <= near`.
    pub open spec fn spec_empty(self) -> bool {
        self.far.spec_le(self.near)
    }

    /// Whether nothing lies strictly between the two ends: `far <= near`.
    pub fn empty(self) -> (r: bool)
        ensures
            r == self.spec_empty(),
    {
        self.far.le(self.near)
    }
}

/// The ray parameter at which `ray` crosses the plane that lies at the
/// coordinate `plane` along `axis`: `(plane - origin) / direction`. Where the
/// ray runs along the plane the quotient is an infinity, or not a number.
pub open spec fn crossing<A: Arithmetic>(ar: &A, ray: Ray, axis: Axis, plane: Scalar) -> Scalar {
    quotient(ar, difference(ar, plane, ray.origin.spec_get(axis)), ray.direction.spec_get(axis))
}

/// As the near end of a slab, `first` cuts no more off a window than
/// `second` does: it is not a number, and so cuts nothing; or it is before
/// every number; or it is no later than `second`.
pub open spec fn enters_no_later(first: Scalar, second: Scalar) -> bool {
    ||| first.nan()
    ||| first.key() == -(INFINITY as int)
    ||| !second.nan() && first.key() <= second.key()
}

/// As the far end of a slab, `first` cuts no more off a window than `second`
/// does: it is not a number, and so cuts nothing; or it is after every
/// number; or it is no sooner than `second`.
pub open spec fn leaves_no_sooner(first: Scalar, second: Scalar) -> bool {
    ||| first.nan()
    ||| first.key() == INFINITY as int
    ||| !second.nan() && second.key() <= first.key()
}

/// `ray` crosses the planes of `planes` in order. Of two of them along one
/// axis, the one that the ray reaches first, as its direction has it, is
/// entered no later and the other is left no sooner: the slab between two
/// planes holds every slab between planes that lie between them.
///
/// Exact arithmetic is like this, and so is correctly rounded arithmetic on
/// finite coordinates. A ray along an axis is no exception: it is before or
/// behind or inside every slab across that axis for all time, which the
/// infinities say, and a plane that holds the ray is crossed at no number,
/// which cuts nothing. The one exception is a direction that is a zero with
/// its sign set: the ends of its slabs are not swapped though they come in
/// falling order.
pub open spec fn orderly<A: Arithmetic>(ar: &A, ray: Ray, planes: Set<(Axis, Scalar)>) -> bool {
    forall|axis: Axis, below: Scalar, above: Scalar|
        #![trigger crossing(ar, ray, axis, below), crossing(ar, ray, axis, above)]
        planes.contains((axis, below)) && planes.contains((axis, above)) && below.spec_le(above)
            ==> {
            let first = crossing(ar, ray, axis, below);
            let second = crossing(ar, ray, axis, above);
            if ray.direction.spec_get(axis).spec_lt(Scalar { bits: ZERO }) {
                enters_no_later(second, first) && leaves_no_sooner(first, second)
            } else {
                enters_no_later(first, second) && leaves_no_sooner(second, first)
            }
        }
}

impl AABB {
    /// The box between the corners `minimum` and `maximum`.
    pub fn new(minimum: V3, maximum: V3) -> (r: AABB)
        ensures
            r == (AABB { minimum, maximum }),
    {
        AABB { minimum, maximum }
    }

    /// On every axis the minimum corner does not exceed the maximum corner.
    /// No coordinate of such a box is not a number.
    pub open spec fn well_formed(self) -> bool {
        &&& self.minimum.x.spec_le(self.maximum.x)
        &&& self.minimum.y.spec_le(self.maximum.y)
        &&& self.minimum.z.spec_le(self.maximum.z)
    }

    /// Whether the box is well formed.
    pub fn is_well_formed(&self) -> (r: bool)
        ensures
            r == self.well_formed(),
    {
        self.minimum.x.le(self.maximum.x) && self.minimum.y.le(self.maximum.y)
            && self.minimum.z.le(self.maximum.z)
    }

    /// No coordinate of the box is not a number.
    pub open spec fn numbers(self) -> bool {
        &&& !self.minimum.x.nan() && !self.minimum.y.nan() && !self.minimum.z.nan()
        &&& !self.maximum.x.nan() && !self.maximum.y.nan() && !self.maximum.z.nan()
    }

    /// The planes that bound the box: along each axis, the one through the
    /// minimum corner and the one through the maximum corner.
    pub open spec fn planes(self) -> Set<(Axis, Scalar)> {
        Set::new(
            |p: (Axis, Scalar)|
                p.1 == self.minimum.spec_get(p.0) || p.1 == self.maximum.spec_get(p.0),
        )
    }

    /// `inner` lies within this box: on every axis its minimum corner is no
    /// smaller and its maximum corner no larger.
    pub open spec fn encloses(self, inner: AABB) -> bool {
        &&& self.minimum.x.spec_le(inner.minimum.x)
        &&& self.minimum.y.spec_le(inner.minimum.y)
        &&& self.minimum.z.spec_le(inner.minimum.z)
        &&& inner.maximum.x.spec_le(self.maximum.x)
        &&& inner.maximum.y.spec_le(self.maximum.y)
        &&& inner.maximum.z.spec_le(self.maximum.z)
    }

    /// The ray parameters between which `ray` lies inside the slab of the box
    /// along `axis`: `(minimum - origin) / direction` and
    /// `(maximum - origin) / direction`, swapped where the direction is
    /// negative. A zero direction divides to infinities, which order like any
    /// other number.
    pub open spec fn spec_slab<A: Arithmetic>(self, ar: &A, ray: Ray, axis: Axis) -> Interval {
        let t0 = crossing(ar, ray, axis, self.minimum.spec_get(axis));
        let t1 = crossing(ar, ray, axis, self.maximum.spec_get(axis));
        if ray.direction.spec_get(axis).spec_lt(Scalar { bits: ZERO }) {
            Interval { near: t1, far: t0 }
        } else {
            Interval { near: t0, far: t1 }
        }
    }

    /// The ray parameters between which `ray` lies inside the slab of the box
    /// along `axis`: `(minimum - origin) / direction` and `(maximum - origin) /
    /// direction`, swapped where the direction is negative.
    pub fn slab<A: Arithmetic>(&self, ar: &A, ray: &Ray, axis: Axis) -> (r: Interval)
        requires
            exact(ar),
        ensures
            r == self.spec_slab(ar, *ray, axis),
    {
        let origin: Scalar = ray.origin.get(axis);
        let direction: Scalar = ray.direction.get(axis);
        let t0: Scalar = over(ar, minus(ar, self.minimum.get(axis), origin), direction);
        let t1: Scalar = over(ar, minus(ar, self.maximum.get(axis), origin), direction);
        if direction.lt(Scalar { bits: ZERO }) {
            Interval { near: t1, far: t0 }
        } else {
            Interval { near: t0, far: t1 }
        }
    }

    /// The slab test: the window `[t_min, t_max]` is narrowed by the slab of
    /// each axis in turn, x then y then z, and the ray misses as soon as the
    /// window is empty.
    pub open spec fn spec_does_hit<A: Arithmetic>(
        self,
        ar: &A,
        ray: Ray,
        t_min: Scalar,
        t_max: Scalar,
    ) -> bool {
        let w0 = Interval { near: t_min, far: t_max };
        let w1 = w0.spec_narrow(self.spec_slab(ar, ray, Axis::X));
        let w2 = w1.spec_narrow(self.spec_slab(ar, ray, Axis::Y));
        let w3 = w2.spec_narrow(self.spec_slab(ar, ray, Axis::Z));
        !w1.spec_empty() && !w2.spec_empty() && !w3.spec_empty()
    }

    /// Whether `ray` passes through the box within the window `[t_min, t_max]`,
    /// by the slab test.
    pub fn does_hit<A: Arithmetic>(&self, ar: &A, ray: &Ray, t_min: Scalar, t_max: Scalar) -> (r:
        bool)
        requires
            exact(ar),
        ensures
            r == self.spec_does_hit(ar, *ray, t_min, t_max),
    {
        let mut window: Interval = Interval { near: t_min, far: t_max };
        window = window.narrow(self.slab(ar, ray, Axis::X));
        if window.empty() {
            return false;
        }
        window = window.narrow(self.slab(ar, ray, Axis::Y));
        if window.empty() {
            return false;
        }
        window = window.narrow(self.slab(ar, ray, Axis::Z));
        !window.empty()
    }

    /// The overlap of the window with all three slabs, computed without
    /// regard to order: the largest of the four near ends against the
    /// smallest of the four far ends.
    pub open spec fn spec_overlaps<A: Arithmetic>(
        self,
        ar: &A,
        ray: Ray,
        t_min: Scalar,
        t_max: Scalar,
    ) -> bool {
        let x = self.spec_slab(ar, ray, Axis::X);
        let y = self.spec_slab(ar, ray, Axis::Y);
        let z = self.spec_slab(ar, ray, Axis::Z);
        let near = t_min.spec_max(x.near.spec_max(y.near.spec_max(z.near)));
        let far = t_max.spec_min(x.far.spec_min(y.far.spec_min(z.far)));
        !far.spec_le(near)
    }

    /// The smallest box that holds both: the component-wise minimum of the
    /// minimum corners and maximum of the maximum corners.
    pub open spec fn spec_add(self, other: AABB) -> AABB {
        AABB {
            minimum: V3 {
                x: self.minimum.x.spec_min(other.minimum.x),
                y: self.minimum.y.spec_min(other.minimum.y),
                z: self.minimum.z.spec_min(other.minimum.z),
            },
            maximum: V3 {
                x: self.maximum.x.spec_max(other.maximum.x),
                y: self.maximum.y.spec_max(other.maximum.y),
                z: self.maximum.z.spec_max(other.maximum.z),
            },
        }
    }

    /// The union of two boxes, the smallest box that holds both: the
    /// component-wise minimum of the minimum corners and maximum of the
    /// maximum corners.
    pub fn add(self, other: AABB) -> (r: AABB)
        ensures
            r == self.spec_add(other),
            self.numbers() && other.numbers() ==> r.numbers(),
            self.well_formed() && other.well_formed() ==> r.well_formed(),
    {
        let minimum: V3 = V3::new(
            self.minimum.x.min(other.minimum.x),
            self.minimum.y.min(other.minimum.y),
            self.minimum.z.min(other.minimum.z),
        );
        let maximum: V3 = V3::new(
            self.maximum.x.max(other.maximum.x),
            self.maximum.y.max(other.maximum.y),
            self.maximum.z.max(other.maximum.z),
        );
        AABB::new(minimum, maximum)
    }
}

/// Union does not depend on the order of its operands: of boxes whose
/// coordinates are numbers, `a.add(b)` and `b.add(a)` are the same box, bit
/// for bit.
pub proof fn lemma_add_commutative(a: AABB, b: AABB)
    requires
        a.numbers(),
        b.numbers(),
    ensures
        a.spec_add(b) == b.spec_add(a),
{
}

/// Union does not depend on how its operands are grouped: of boxes whose
/// coordinates are numbers, `a.add(b.add(c))` and `a.add(b).add(c)` are the
/// same box, bit for bit.
pub proof fn lemma_add_associative(a: AABB, b: AABB, c: AABB)
    requires
        a.numbers(),
        b.numbers(),
        c.numbers(),
    ensures
        a.spec_add(b.spec_add(c)) == a.spec_add(b).spec_add(c),
{
}

/// The union of two well-formed boxes is well formed and encloses both.
pub proof fn lemma_add_encloses(a: AABB, b: AABB)
    requires
        a.well_formed(),
        b.well_formed(),
    ensures
        a.spec_add(b).well_formed(),
        a.spec_add(b).encloses(a),
        a.spec_add(b).encloses(b),
{
}

/// The planes that bound a union are planes that bound the boxes united.
pub proof fn lemma_add_planes(a: AABB, b: AABB)
    ensures
        a.spec_add(b).planes().subset_of(a.planes().union(b.planes())),
{
    assert forall|p: (Axis, Scalar)| a.spec_add(b).planes().contains(p) implies a.planes().union(
        b.planes(),
    ).contains(p) by {
        let axis = p.0;
        assert(a.planes().contains((axis, a.minimum.spec_get(axis))));
        assert(a.planes().contains((axis, a.maximum.spec_get(axis))));
        assert(b.planes().contains((axis, b.minimum.spec_get(axis))));
        assert(b.planes().contains((axis, b.maximum.spec_get(axis))));
    }
}

/// A box encloses what a box within it encloses.
pub proof fn lemma_encloses_transitive(a: AABB, b: AABB, c: AABB)
    requires
        a.encloses(b),
        b.encloses(c),
    ensures
        a.encloses(c),
{
}

/// For a window whose ends are numbers, the slab test agrees with the overlap
/// computed without regard to order, whatever the slabs are: infinite, or not
/// numbers at all.
pub proof fn lemma_does_hit_is_overlap<A: Arithmetic>(
    aabb: AABB,
    ar: &A,
    ray: Ray,
    t_min: Scalar,
    t_max: Scalar,
)
    requires
        !t_min.nan(),
        !t_max.nan(),
    ensures
        aabb.spec_does_hit(ar, ray, t_min, t_max) == aabb.spec_overlaps(ar, ray, t_min, t_max),
{
}

/// For a ray that crosses the planes of two boxes in order, the box around
/// is hit in every window in which the box within is hit.
pub proof fn lemma_wider_box_is_hit<A: Arithmetic>(
    outer: AABB,
    inner: AABB,
    ar: &A,
    ray: Ray,
    t_min: Scalar,
    t_max: Scalar,
    planes: Set<(Axis, Scalar)>,
)
    requires
        outer.encloses(inner),
        outer.planes().subset_of(planes),
        inner.planes().subset_of(planes),
        orderly(ar, ray, planes),
        !t_min.nan(),
        !t_max.nan(),
        inner.spec_does_hit(ar, ray, t_min, t_max),
    ensures
        outer.spec_does_hit(ar, ray, t_min, t_max),
{
    lemma_wider_slab(outer, inner, ar, ray, Axis::X, planes);
    lemma_wider_slab(outer, inner, ar, ray, Axis::Y, planes);
    lemma_wider_slab(outer, inner, ar, ray, Axis::Z, planes);
}

/// The slab of a box holds the slab of a box within it, for a ray that
/// crosses the planes of the two in order.
proof fn lemma_wider_slab<A: Arithmetic>(
    outer: AABB,
    inner: AABB,
    ar: &A,
    ray: Ray,
    axis: Axis,
    planes: Set<(Axis, Scalar)>,
)
    requires
        outer.encloses(inner),
        outer.planes().subset_of(planes),
        inner.planes().subset_of(planes),
        orderly(ar, ray, planes),
    ensures
        enters_no_later(
            outer.spec_slab(ar, ray, axis).near,
            inner.spec_slab(ar, ray, axis).near,
        ),
        leaves_no_sooner(outer.spec_slab(ar, ray, axis).far, inner.spec_slab(ar, ray, axis).far),
{
    // the box within lies between the planes of the box around it
    let below = (outer.minimum.spec_get(axis), inner.minimum.spec_get(axis));
    let above = (inner.maximum.spec_get(axis), outer.maximum.spec_get(axis));
    assert(below.0.spec_le(below.1) && above.0.spec_le(above.1));
    assert(outer.planes().contains((axis, below.0)) && outer.planes().contains((axis, above.1)));
    assert(inner.planes().contains((axis, below.1)) && inner.planes().contains((axis, above.0)));
    // and planes in order are crossed in order
    let first = (crossing(ar, ray, axis, below.0), crossing(ar, ray, axis, below.1));
    let second = (crossing(ar, ray, axis, above.0), crossing(ar, ray, axis, above.1));
}

} // verus!

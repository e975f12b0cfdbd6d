//! Geometry that a ray can hit: spheres, axis-aligned rectangles, and lists
//! of whatever can be hit.
use crate::aabb::AABB;
use crate::bvh::BVHNode;
use crate::arithmetic::{
    acos, arc_cosine, arc_tangent2, atan2, difference, exact, minus, over, plus, product,
    quotient, sqrt, square_root, sum, times, Arithmetic,
};
use crate::ray::Ray;
use crate::scalar::{Scalar, ONE, PI, RECT_PADDING, TWO, ZERO};
use crate::v3::V3;
use std::sync::Arc;
use vstd::prelude::*;

verus! {

/// What is known of a ray's meeting with a surface.
#[derive(Clone, Copy, PartialEq, Eq, Debug, Structural)]
pub struct HitRecord {
    /// Where the ray meets the surface.
    pub point: V3,
    /// The surface normal, turned against the incoming ray.
    pub normal: V3,
    /// The ray parameter of the meeting.
    pub time: Scalar,
    /// Texture coordinates of the point.
    pub u: Scalar,
    pub v: Scalar,
    /// The ray arrived from outside the surface.
    pub front_face: bool,
    /// Index of the surface's material among the scene's materials.
    pub material: usize,
}

impl HitRecord {
    /// The record of a hit with outward normal `outward_normal`: the hit is on
    /// the front face where the ray runs against that normal
    /// (`ray_direction . outward_normal < 0`), and the recorded normal is the
    /// outward one on the front face and its opposite on the back.
    pub open spec fn spec_new<A: Arithmetic>(
        ar: &A,
        time: Scalar,
        u: Scalar,
        v: Scalar,
        point: V3,
        outward_normal: V3,
        ray_direction: V3,
        material: usize,
    ) -> HitRecord {
        let front_face = V3::spec_dot(ar, ray_direction, outward_normal).spec_lt(
            Scalar { bits: ZERO },
        );
        HitRecord {
            point,
            normal: if front_face {
                outward_normal
            } else {
                outward_normal.spec_neg()
            },
            time,
            u,
            v,
            front_face,
            material,
        }
    }

    /// The record of a hit with outward normal `outward_normal`: the hit is on
    /// the front face where the ray runs against that normal
    /// (`ray_direction . outward_normal < 0`), and the recorded normal is the
    /// outward one on the front face and its opposite on the back.
    pub fn new<A: Arithmetic>(
        ar: &A,
        time: Scalar,
        u: Scalar,
        v: Scalar,
        point: V3,
        outward_normal: V3,
        ray_direction: V3,
        material: usize,
    ) -> (r: HitRecord)
        requires
            exact(ar),
        ensures
            r == HitRecord::spec_new(ar, time, u, v, point, outward_normal, ray_direction, material),
    {
        let front_face: bool = V3::dot(ar, ray_direction, outward_normal).lt(Scalar { bits: ZERO });
        let normal: V3 = if front_face {
            outward_normal
        } else {
            outward_normal.neg()
        };
        HitRecord { point, normal, time, u, v, front_face, material }
    }
}

/// A sphere.
#[derive(Clone, Copy, PartialEq, Eq, Debug, Structural)]
pub struct Sphere {
    pub centre: V3,
    pub radius: Scalar,
    pub material: usize,
}

/// The two solutions of a ray's quadratic, or none.
#[derive(Clone, Copy, PartialEq, Eq, Debug, Structural)]
pub enum Roots {
    /// The discriminant is negative.
    Neither,
    /// The smaller and the larger solution.
    Both { near: Scalar, far: Scalar },
}

impl Roots {
    /// The nearer solution is not the larger of the two.
    pub open spec fn spec_ordered(self) -> bool {
        match self {
            Roots::Neither => true,
            Roots::Both { near, far } => !far.spec_lt(near),
        }
    }

    /// Whether the nearer solution is not the larger of the two.
    pub fn ordered(self) -> (r: bool)
        ensures
            r == self.spec_ordered(),
    {
        match self {
            Roots::Neither => true,
            Roots::Both { near, far } => !far.lt(near),
        }
    }

    /// The solution to take in the window `[t_min, t_max]`: the nearer one if
    /// it lies in the window, else the farther one if that does, else none.
    pub open spec fn spec_first_within(self, t_min: Scalar, t_max: Scalar) -> Option<Scalar> {
        match self {
            Roots::Neither => None,
            Roots::Both { near, far } => if near.spec_within(t_min, t_max) {
                Some(near)
            } else if far.spec_within(t_min, t_max) {
                Some(far)
            } else {
                None
            },
        }
    }

    /// The solution to take in the window `[t_min, t_max]`: the nearer one if
    /// it lies in the window, else the farther one if that does, else none.
    pub fn first_within(self, t_min: Scalar, t_max: Scalar) -> (r: Option<Scalar>)
        ensures
            r == self.spec_first_within(t_min, t_max),
            r matches Some(t) ==> t.spec_within(t_min, t_max),
    {
        match self {
            Roots::Neither => None,
            Roots::Both { near, far } => {
                if near.within(t_min, t_max) {
                    Some(near)
                } else if far.within(t_min, t_max) {
                    Some(far)
                } else {
                    None
                }
            },
        }
    }
}

impl Sphere {
    /// The sphere about `centre` with radius `radius`, of the material with index
    /// `material`.
    pub fn new(centre: V3, radius: Scalar, material: usize) -> (r: Sphere)
        ensures
            r == (Sphere { centre, radius, material }),
    {
        Sphere { centre, radius, material }
    }

    /// Texture coordinates of the point `p` of the unit sphere about the
    /// origin, by its spherical angles: `theta = acos(-p.y)`,
    /// `phi = atan2(-p.z, p.x) + pi`, and then `u = phi / (2 pi)`,
    /// `v = theta / pi`. So `u` runs once around the y axis from `x = -1`, and
    /// `v` from `y = -1` up to `y = 1`.
    pub open spec fn spec_get_sphere_uv<A: Arithmetic>(ar: &A, p: V3) -> (Scalar, Scalar) {
        let pi = Scalar { bits: PI };
        let theta = arc_cosine(ar, p.y.spec_neg());
        let phi = sum(ar, arc_tangent2(ar, p.z.spec_neg(), p.x), pi);
        (quotient(ar, phi, product(ar, Scalar { bits: TWO }, pi)), quotient(ar, theta, pi))
    }

    /// Texture coordinates of the point `p` of the unit sphere about the
    /// origin, by its spherical angles.
    pub fn get_sphere_uv<A: Arithmetic>(ar: &A, p: V3) -> (r: (Scalar, Scalar))
        requires
            exact(ar),
        ensures
            r == Sphere::spec_get_sphere_uv(ar, p),
    {
        let pi: Scalar = Scalar { bits: PI };
        let theta: Scalar = acos(ar, p.y.neg());
        let phi: Scalar = plus(ar, atan2(ar, p.z.neg(), p.x), pi);
        let u: Scalar = over(ar, phi, times(ar, Scalar { bits: TWO }, pi));
        let v: Scalar = over(ar, theta, pi);
        (u, v)
    }

    /// The solutions `t` of `|origin + t direction - centre|^2 = radius^2`.
    /// With `oc = origin - centre`, `a = |direction|^2`,
    /// `half_b = oc . direction` and `c = |oc|^2 - radius^2`, the discriminant
    /// is `half_b^2 - a c`; where it is not negative the solutions are
    /// `(-half_b - sqrt(d)) / a` and `(-half_b + sqrt(d)) / a`.
    pub open spec fn spec_roots<A: Arithmetic>(self, ar: &A, ray: Ray) -> Roots {
        let oc = ray.origin.spec_minus(ar, self.centre);
        let a = ray.direction.spec_length_squared(ar);
        let half_b = V3::spec_dot(ar, oc, ray.direction);
        let c = difference(ar, oc.spec_length_squared(ar), product(ar, self.radius, self.radius));
        let discriminant = difference(ar, product(ar, half_b, half_b), product(ar, a, c));
        if discriminant.spec_lt(Scalar { bits: ZERO }) {
            Roots::Neither
        } else {
            let sqrtd = square_root(ar, discriminant);
            Roots::Both {
                near: quotient(ar, difference(ar, half_b.spec_neg(), sqrtd), a),
                far: quotient(ar, sum(ar, half_b.spec_neg(), sqrtd), a),
            }
        }
    }

    /// The solutions `t` of `|origin + t direction - centre|^2 = radius^2`.
    pub fn roots<A: Arithmetic>(&self, ar: &A, ray: &Ray) -> (r: Roots)
        requires
            exact(ar),
        ensures
            r == self.spec_roots(ar, *ray),
    {
        let oc: V3 = ray.origin.minus(ar, self.centre);
        let a: Scalar = ray.direction.length_squared(ar);
        let half_b: Scalar = V3::dot(ar, oc, ray.direction);
        let c: Scalar = minus(ar, oc.length_squared(ar), times(ar, self.radius, self.radius));
        let discriminant: Scalar = minus(ar, times(ar, half_b, half_b), times(ar, a, c));
        if discriminant.lt(Scalar { bits: ZERO }) {
            return Roots::Neither;
        }
        let sqrtd: Scalar = sqrt(ar, discriminant);
        Roots::Both {
            near: over(ar, minus(ar, half_b.neg(), sqrtd), a),
            far: over(ar, plus(ar, half_b.neg(), sqrtd), a),
        }
    }

    /// The record of the hit at ray parameter `t`: the point `ray.at(t)`, the
    /// outward normal `(point - centre) / radius`, and the texture coordinates
    /// of that normal, which is the point brought to the unit sphere.
    pub open spec fn spec_record_at<A: Arithmetic>(self, ar: &A, ray: Ray, t: Scalar) -> HitRecord {
        let point = ray.spec_at(ar, t);
        let outward_normal = point.spec_minus(ar, self.centre).spec_over(ar, self.radius);
        let uv = Sphere::spec_get_sphere_uv(ar, outward_normal);
        HitRecord::spec_new(ar, t, uv.0, uv.1, point, outward_normal, ray.direction, self.material)
    }

    /// The nearest meeting of `ray` with the sphere in `[t_min, t_max]`.
    pub open spec fn spec_hit<A: Arithmetic>(
        self,
        ar: &A,
        ray: Ray,
        t_min: Scalar,
        t_max: Scalar,
    ) -> Option<HitRecord> {
        match self.spec_roots(ar, ray).spec_first_within(t_min, t_max) {
            Some(t) => Some(self.spec_record_at(ar, ray, t)),
            None => None,
        }
    }

    /// The nearest meeting of `ray` with the sphere in `[t_min, t_max]`.
    pub fn hit<A: Arithmetic>(&self, ar: &A, ray: &Ray, t_min: Scalar, t_max: Scalar) -> (r: Option<
        HitRecord,
    >)
        requires
            exact(ar),
        ensures
            r == self.spec_hit(ar, *ray, t_min, t_max),
    {
        match self.roots(ar, ray).first_within(t_min, t_max) {
            None => None,
            Some(t) => {
                let point: V3 = ray.at(ar, t);
                let outward_normal: V3 = point.minus(ar, self.centre).over(ar, self.radius);
                let (u, v) = Sphere::get_sphere_uv(ar, outward_normal);
                Some(
                    HitRecord::new(
                        ar,
                        t,
                        u,
                        v,
                        point,
                        outward_normal,
                        ray.direction,
                        self.material,
                    ),
                )
            },
        }
    }

    /// The box from `centre - (radius, radius, radius)` to
    /// `centre + (radius, radius, radius)`.
    pub open spec fn spec_bounding_box<A: Arithmetic>(self, ar: &A) -> AABB {
        let reach = V3 { x: self.radius, y: self.radius, z: self.radius };
        AABB {
            minimum: self.centre.spec_minus(ar, reach),
            maximum: self.centre.spec_plus(ar, reach),
        }
    }

    /// The box from `centre - (radius, radius, radius)` to `centre + (radius,
    /// radius, radius)`.
    pub fn bounding_box<A: Arithmetic>(&self, ar: &A, t_0: Scalar, t_1: Scalar) -> (r: Option<AABB>)
        requires
            exact(ar),
        ensures
            r == Some(self.spec_bounding_box(ar)),
    {
        let reach: V3 = V3::new(self.radius, self.radius, self.radius);
        let minimum: V3 = self.centre.minus(ar, reach);
        let maximum: V3 = self.centre.plus(ar, reach);
        Some(AABB::new(minimum, maximum))
    }
}

/// A rectangle in the plane `z = k`, from `(x0, y0)` to `(x1, y1)`.
#[derive(Clone, Copy, PartialEq, Eq, Debug, Structural)]
pub struct XYRect {
    pub x0: Scalar,
    pub x1: Scalar,
    pub y0: Scalar,
    pub y1: Scalar,
    /// The z-value of the rectangle's plane.
    pub k: Scalar,
    pub material: usize,
}

impl XYRect {
    /// The rectangle from `(x0, y0)` to `(x1, y1)` in the plane `z = k`, of the
    /// material with index `material`.
    pub fn new(x0: Scalar, x1: Scalar, y0: Scalar, y1: Scalar, k: Scalar, material: usize) -> (r:
        XYRect)
        ensures
            r == (XYRect { x0, x1, y0, y1, k, material }),
    {
        XYRect { x0, x1, y0, y1, k, material }
    }

    /// The point `(x, y)` of the plane lies within the rectangle's extents.
    pub open spec fn spec_covers(self, x: Scalar, y: Scalar) -> bool {
        &&& self.x0.spec_le(x)
        &&& x.spec_le(self.x1)
        &&& self.y0.spec_le(y)
        &&& y.spec_le(self.y1)
    }

    /// Whether the point `(x, y)` of the plane lies within the rectangle's
    /// extents.
    pub fn covers(&self, x: Scalar, y: Scalar) -> (r: bool)
        ensures
            r == self.spec_covers(x, y),
    {
        self.x0.le(x) && x.le(self.x1) && self.y0.le(y) && y.le(self.y1)
    }

    /// The meeting of `ray` with the rectangle in `[t_min, t_max]`. The ray
    /// crosses the plane at `t = (k - origin.z) / direction.z`; it hits where
    /// `t` lies in the window and the crossing point
    /// `(origin.x + t direction.x, origin.y + t direction.y)` within the
    /// extents. The texture coordinates are the point's fractional position in
    /// the rectangle, the outward normal is `(0, 0, 1)`.
    pub open spec fn spec_hit<A: Arithmetic>(
        self,
        ar: &A,
        ray: Ray,
        t_min: Scalar,
        t_max: Scalar,
    ) -> Option<HitRecord> {
        let t = quotient(ar, difference(ar, self.k, ray.origin.z), ray.direction.z);
        let x = sum(ar, ray.origin.x, product(ar, t, ray.direction.x));
        let y = sum(ar, ray.origin.y, product(ar, t, ray.direction.y));
        if !t.spec_within(t_min, t_max) {
            None
        } else if !self.spec_covers(x, y) {
            None
        } else {
            let u = quotient(ar, difference(ar, x, self.x0), difference(ar, self.x1, self.x0));
            let v = quotient(ar, difference(ar, y, self.y0), difference(ar, self.y1, self.y0));
            let outward_normal = V3 {
                x: Scalar { bits: ZERO },
                y: Scalar { bits: ZERO },
                z: Scalar { bits: ONE },
            };
            Some(
                HitRecord::spec_new(
                    ar,
                    t,
                    u,
                    v,
                    ray.spec_at(ar, t),
                    outward_normal,
                    ray.direction,
                    self.material,
                ),
            )
        }
    }

    /// The meeting of `ray` with the rectangle in `[t_min, t_max]`.
    pub fn hit<A: Arithmetic>(&self, ar: &A, ray: &Ray, t_min: Scalar, t_max: Scalar) -> (r: Option<
        HitRecord,
    >)
        requires
            exact(ar),
        ensures
            r == self.spec_hit(ar, *ray, t_min, t_max),
    {
        let t: Scalar = over(ar, minus(ar, self.k, ray.origin.z), ray.direction.z);
        // does the ray cross the plane within the window
        if !t.within(t_min, t_max) {
            return None;
        }
        let x: Scalar = plus(ar, ray.origin.x, times(ar, t, ray.direction.x));
        let y: Scalar = plus(ar, ray.origin.y, times(ar, t, ray.direction.y));
        // does it cross within the rectangle
        if !self.covers(x, y) {
            return None;
        }
        let u: Scalar = over(ar, minus(ar, x, self.x0), minus(ar, self.x1, self.x0));
        let v: Scalar = over(ar, minus(ar, y, self.y0), minus(ar, self.y1, self.y0));
        let outward_normal: V3 = V3::new(
            Scalar { bits: ZERO },
            Scalar { bits: ZERO },
            Scalar { bits: ONE },
        );
        let point: V3 = ray.at(ar, t);
        Some(HitRecord::new(ar, t, u, v, point, outward_normal, ray.direction, self.material))
    }

    /// The rectangle's extent, thickened by `1e-4` to either side of its
    /// plane so that the box has a volume.
    pub open spec fn spec_bounding_box<A: Arithmetic>(self, ar: &A) -> AABB {
        let padding = Scalar { bits: RECT_PADDING };
        AABB {
            minimum: V3 { x: self.x0, y: self.y0, z: difference(ar, self.k, padding) },
            maximum: V3 { x: self.x1, y: self.y1, z: sum(ar, self.k, padding) },
        }
    }

    /// The rectangle's extent, thickened by `1e-4` to either side of its plane
    /// so that the box has a volume.
    pub fn bounding_box<A: Arithmetic>(&self, ar: &A, t_0: Scalar, t_1: Scalar) -> (r: Option<AABB>)
        requires
            exact(ar),
        ensures
            r == Some(self.spec_bounding_box(ar)),
    {
        let padding: Scalar = Scalar { bits: RECT_PADDING };
        Some(
            AABB::new(
                V3::new(self.x0, self.y0, minus(ar, self.k, padding)),
                V3::new(self.x1, self.y1, plus(ar, self.k, padding)),
            ),
        )
    }
}

/// Anything that a ray can hit: a sphere, a rectangle, a list of such things,
/// or a hierarchy over them.
#[derive(PartialEq, Eq, Debug)]
pub enum Hittable {
    Sphere(Sphere),
    XYRect(XYRect),
    List(HittableList),
    Node(BVHNode),
}

/// Things in a row, with no spatial structure. Each is shared, and may stand
/// in other lists and in hierarchies as well.
#[derive(PartialEq, Eq, Debug)]
pub struct HittableList {
    pub hittables: Vec<Arc<Hittable>>,
}

/// The nearest hit among `items`, scanned from the left: each item is asked
/// for a hit no farther than the closest found so far, so that a later item
/// replaces an earlier one only with a hit that is at least as near.
pub open spec fn spec_scan<A: Arithmetic>(
    items: Seq<Arc<Hittable>>,
    ar: &A,
    ray: Ray,
    t_min: Scalar,
    closest: Scalar,
    found: Option<HitRecord>,
) -> Option<HitRecord>
    decreases items, 0int,
{
    if items.len() == 0 {
        found
    } else {
        match items[0].spec_hit(ar, ray, t_min, closest) {
            Some(h) => spec_scan(items.drop_first(), ar, ray, t_min, h.time, Some(h)),
            None => spec_scan(items.drop_first(), ar, ray, t_min, closest, found),
        }
    }
}

/// The union of `so_far` with the boxes of `items`, folded from the left;
/// none as soon as one of the items has no box.
pub open spec fn spec_enclose<A: Arithmetic>(
    items: Seq<Arc<Hittable>>,
    ar: &A,
    so_far: AABB,
) -> Option<AABB>
    decreases items, 0int,
{
    if items.len() == 0 {
        Some(so_far)
    } else {
        match items[0].spec_bounding_box(ar) {
            Some(b) => spec_enclose(items.drop_first(), ar, so_far.spec_add(b)),
            None => None,
        }
    }
}

/// Every sphere and rectangle among `items`, however deep, names a material
/// below `count`.
pub open spec fn spec_all_below(items: Seq<Arc<Hittable>>, count: usize) -> bool
    decreases items, 0int,
{
    items.len() == 0 || (items[0].materials_below(count) && spec_all_below(
        items.drop_first(),
        count,
    ))
}

impl HittableList {
    /// The empty list.
    pub fn new() -> (r: HittableList)
        ensures
            r.hittables@ == Seq::<Arc<Hittable>>::empty(),
    {
        HittableList { hittables: Vec::new() }
    }

    /// Puts `hittable` at the end of the list.
    pub fn add(&mut self, hittable: Arc<Hittable>)
        ensures
            final(self).hittables@ == old(self).hittables@.push(hittable),
    {
        self.hittables.push(hittable);
    }

    /// How many things the list holds, not counting what they hold in turn.
    pub fn len(&self) -> (r: usize)
        ensures
            r == self.hittables@.len(),
    {
        self.hittables.len()
    }

    /// The nearest hit of `ray` among the things of the list in
    /// `[t_min, t_max]`.
    pub open spec fn spec_hit<A: Arithmetic>(
        &self,
        ar: &A,
        ray: Ray,
        t_min: Scalar,
        t_max: Scalar,
    ) -> Option<HitRecord>
        decreases self, 1int,
    {
        spec_scan(self.hittables@, ar, ray, t_min, t_max, None)
    }

    /// The nearest hit of `ray` among the things of the list in `[t_min,
    /// t_max]`.
    pub fn hit<A: Arithmetic>(&self, ar: &A, ray: &Ray, t_min: Scalar, t_max: Scalar) -> (r: Option<
        HitRecord,
    >)
        requires
            exact(ar),
        ensures
            r == self.spec_hit(ar, *ray, t_min, t_max),
        decreases self,
    {
        let mut record: Option<HitRecord> = None;
        let mut closest_t: Scalar = t_max;
        let mut i: usize = 0;
        proof {
            assert(self.hittables@.skip(0) == self.hittables@);
        }
        while i < self.hittables.len()
            invariant
                exact(ar),
                i <= self.hittables.len(),
                spec_scan(self.hittables@, ar, *ray, t_min, t_max, None) == spec_scan(
                    self.hittables@.skip(i as int),
                    ar,
                    *ray,
                    t_min,
                    closest_t,
                    record,
                ),
            decreases self.hittables.len() - i,
        {
            proof {
                assert(self.hittables@.skip(i as int).drop_first() == self.hittables@.skip(
                    i as int + 1,
                ));
            }
            if let Some(hittable_record) = self.hittables[i].hit(ar, ray, t_min, closest_t) {
                record = Some(hittable_record);
                closest_t = hittable_record.time;
            }
            i = i + 1;
        }
        record
    }

    /// The box that holds everything in the list; none for the empty list,
    /// and none where something in the list has no box.
    pub open spec fn spec_bounding_box<A: Arithmetic>(&self, ar: &A) -> Option<AABB>
        decreases self, 1int,
    {
        if self.hittables@.len() == 0 {
            None
        } else {
            match self.hittables@[0].spec_bounding_box(ar) {
                Some(first) => spec_enclose(self.hittables@.drop_first(), ar, first),
                None => None,
            }
        }
    }

    /// The box that holds everything in the list; none for the empty list, and
    /// none where something in the list has no box.
    pub fn bounding_box<A: Arithmetic>(&self, ar: &A, t_0: Scalar, t_1: Scalar) -> (r: Option<AABB>)
        requires
            exact(ar),
        ensures
            r == self.spec_bounding_box(ar),
        decreases self,
    {
        if self.hittables.len() == 0 {
            return None;
        }
        let mut output_box: AABB = match self.hittables[0].bounding_box(ar, t_0, t_1) {
            Some(first) => first,
            None => {
                return None;
            },
        };
        let mut i: usize = 1;
        while i < self.hittables.len()
            invariant
                exact(ar),
                1 <= i <= self.hittables.len(),
                self.spec_bounding_box(ar) == spec_enclose(
                    self.hittables@.skip(i as int),
                    ar,
                    output_box,
                ),
            decreases self.hittables.len() - i,
        {
            proof {
                assert(self.hittables@.skip(i as int).drop_first() == self.hittables@.skip(
                    i as int + 1,
                ));
            }
            match self.hittables[i].bounding_box(ar, t_0, t_1) {
                Some(hittable_box) => {
                    output_box = output_box.add(hittable_box);
                },
                None => {
                    return None;
                },
            }
            i = i + 1;
        }
        Some(output_box)
    }

    /// Every sphere and rectangle in the list, however deep, names a material
    /// below `count`.
    pub open spec fn materials_below(&self, count: usize) -> bool
        decreases self, 1int,
    {
        spec_all_below(self.hittables@, count)
    }

    /// Whether every sphere and rectangle here, however deep, names a material
    /// below `count`.
    pub fn has_materials_below(&self, count: usize) -> (r: bool)
        ensures
            r == self.materials_below(count),
        decreases self,
    {
        let mut i: usize = 0;
        proof {
            assert(self.hittables@.skip(0) == self.hittables@);
        }
        while i < self.hittables.len()
            invariant
                i <= self.hittables.len(),
                spec_all_below(self.hittables@, count) == spec_all_below(
                    self.hittables@.skip(i as int),
                    count,
                ),
            decreases self.hittables.len() - i,
        {
            proof {
                assert(self.hittables@.skip(i as int).drop_first() == self.hittables@.skip(
                    i as int + 1,
                ));
            }
            if !self.hittables[i].has_materials_below(count) {
                return false;
            }
            i = i + 1;
        }
        true
    }
}

impl Hittable {
    /// The nearest hit of `ray` in `[t_min, t_max]`.
    pub open spec fn spec_hit<A: Arithmetic>(
        &self,
        ar: &A,
        ray: Ray,
        t_min: Scalar,
        t_max: Scalar,
    ) -> Option<HitRecord>
        decreases self, 1int,
    {
        match self {
            Hittable::Sphere(s) => s.spec_hit(ar, ray, t_min, t_max),
            Hittable::XYRect(r) => r.spec_hit(ar, ray, t_min, t_max),
            Hittable::List(l) => l.spec_hit(ar, ray, t_min, t_max),
            Hittable::Node(n) => n.spec_hit(ar, ray, t_min, t_max),
        }
    }

    /// The nearest hit of `ray` in `[t_min, t_max]`.
    pub fn hit<A: Arithmetic>(&self, ar: &A, ray: &Ray, t_min: Scalar, t_max: Scalar) -> (r: Option<
        HitRecord,
    >)
        requires
            exact(ar),
        ensures
            r == self.spec_hit(ar, *ray, t_min, t_max),
        decreases self,
    {
        match self {
            Hittable::Sphere(s) => s.hit(ar, ray, t_min, t_max),
            Hittable::XYRect(r) => r.hit(ar, ray, t_min, t_max),
            Hittable::List(l) => l.hit(ar, ray, t_min, t_max),
            Hittable::Node(n) => n.hit(ar, ray, t_min, t_max),
        }
    }

    /// The box that holds the geometry. Only an empty list, and what holds
    /// one, has none.
    pub open spec fn spec_bounding_box<A: Arithmetic>(&self, ar: &A) -> Option<AABB>
        decreases self, 1int,
    {
        match self {
            Hittable::Sphere(s) => Some(s.spec_bounding_box(ar)),
            Hittable::XYRect(r) => Some(r.spec_bounding_box(ar)),
            Hittable::List(l) => l.spec_bounding_box(ar),
            Hittable::Node(n) => Some(n.bounding_box),
        }
    }

    /// The box that holds the geometry over the time from `t_0` to `t_1`.
    /// Nothing here moves, so that the times make no difference.
    pub fn bounding_box<A: Arithmetic>(&self, ar: &A, t_0: Scalar, t_1: Scalar) -> (r: Option<AABB>)
        requires
            exact(ar),
        ensures
            r == self.spec_bounding_box(ar),
        decreases self,
    {
        match self {
            Hittable::Sphere(s) => s.bounding_box(ar, t_0, t_1),
            Hittable::XYRect(r) => r.bounding_box(ar, t_0, t_1),
            Hittable::List(l) => l.bounding_box(ar, t_0, t_1),
            Hittable::Node(n) => n.bounding_box(t_0, t_1),
        }
    }

    /// Every sphere and rectangle of the geometry, however deep, names a
    /// material below `count`.
    pub open spec fn materials_below(&self, count: usize) -> bool
        decreases self, 1int,
    {
        match self {
            Hittable::Sphere(s) => s.material < count,
            Hittable::XYRect(r) => r.material < count,
            Hittable::List(l) => l.materials_below(count),
            Hittable::Node(n) => n.materials_below(count),
        }
    }

    /// Whether every sphere and rectangle here, however deep, names a material
    /// below `count`.
    pub fn has_materials_below(&self, count: usize) -> (r: bool)
        ensures
            r == self.materials_below(count),
        decreases self,
    {
        match self {
            Hittable::Sphere(s) => s.material < count,
            Hittable::XYRect(r) => r.material < count,
            Hittable::List(l) => l.has_materials_below(count),
            Hittable::Node(n) => n.has_materials_below(count),
        }
    }
}

/// The time of a hit lies in the window that was asked for.
pub proof fn lemma_hit_in_window<A: Arithmetic>(
    hittable: &Hittable,
    ar: &A,
    ray: Ray,
    t_min: Scalar,
    t_max: Scalar,
)
    ensures
        hittable.spec_hit(ar, ray, t_min, t_max) matches Some(h) ==> h.time.spec_within(
            t_min,
            t_max,
        ),
    decreases hittable, 1int,
{
    match hittable {
        Hittable::Sphere(_) => {},
        Hittable::XYRect(_) => {},
        Hittable::List(l) => {
            lemma_scan_in_window(l.hittables@, ar, ray, t_min, t_max, t_max, None);
        },
        Hittable::Node(n) => {
            lemma_hit_in_window(&n.left, ar, ray, t_min, t_max);
            lemma_hit_in_window(&n.right, ar, ray, t_min, t_max);
            if let Some(h) = n.left.spec_hit(ar, ray, t_min, t_max) {
                lemma_hit_in_window(&n.right, ar, ray, t_min, h.time);
            }
        },
    }
}

/// A scan that goes on from a hit within the window, with its own window cut
/// no wider, ends with a hit within the window.
proof fn lemma_scan_in_window<A: Arithmetic>(
    items: Seq<Arc<Hittable>>,
    ar: &A,
    ray: Ray,
    t_min: Scalar,
    t_max: Scalar,
    closest: Scalar,
    found: Option<HitRecord>,
)
    requires
        closest == t_max || closest.spec_le(t_max),
        found matches Some(h) ==> h.time.spec_within(t_min, t_max),
    ensures
        spec_scan(items, ar, ray, t_min, closest, found) matches Some(h) ==> h.time.spec_within(
            t_min,
            t_max,
        ),
    decreases items, 0int,
{
    if items.len() > 0 {
        lemma_hit_in_window(&items[0], ar, ray, t_min, closest);
        match items[0].spec_hit(ar, ray, t_min, closest) {
            Some(h) => lemma_scan_in_window(
                items.drop_first(),
                ar,
                ray,
                t_min,
                t_max,
                h.time,
                Some(h),
            ),
            None => lemma_scan_in_window(
                items.drop_first(),
                ar,
                ray,
                t_min,
                t_max,
                closest,
                found,
            ),
        }
    }
}

/// A hit carries the material of a sphere or a rectangle of the geometry
/// that was hit.
pub proof fn lemma_hit_material<A: Arithmetic>(
    hittable: &Hittable,
    ar: &A,
    ray: Ray,
    t_min: Scalar,
    t_max: Scalar,
    count: usize,
)
    requires
        hittable.materials_below(count),
    ensures
        hittable.spec_hit(ar, ray, t_min, t_max) matches Some(h) ==> h.material < count,
    decreases hittable, 1int,
{
    match hittable {
        Hittable::Sphere(_) => {},
        Hittable::XYRect(_) => {},
        Hittable::List(l) => {
            lemma_scan_material(l.hittables@, ar, ray, t_min, t_max, None, count);
        },
        Hittable::Node(n) => {
            lemma_hit_material(&n.left, ar, ray, t_min, t_max, count);
            lemma_hit_material(&n.right, ar, ray, t_min, t_max, count);
            if let Some(h) = n.left.spec_hit(ar, ray, t_min, t_max) {
                lemma_hit_material(&n.right, ar, ray, t_min, h.time, count);
            }
        },
    }
}

/// A scan reports a hit with the material of something that was scanned, or
/// the hit it started from.
proof fn lemma_scan_material<A: Arithmetic>(
    items: Seq<Arc<Hittable>>,
    ar: &A,
    ray: Ray,
    t_min: Scalar,
    closest: Scalar,
    found: Option<HitRecord>,
    count: usize,
)
    requires
        spec_all_below(items, count),
        found matches Some(h) ==> h.material < count,
    ensures
        spec_scan(items, ar, ray, t_min, closest, found) matches Some(h) ==> h.material < count,
    decreases items, 0int,
{
    if items.len() > 0 {
        lemma_hit_material(&items[0], ar, ray, t_min, closest, count);
        match items[0].spec_hit(ar, ray, t_min, closest) {
            Some(h) => lemma_scan_material(
                items.drop_first(),
                ar,
                ray,
                t_min,
                h.time,
                Some(h),
                count,
            ),
            None => lemma_scan_material(items.drop_first(), ar, ray, t_min, closest, found, count),
        }
    }
}

} // verus!

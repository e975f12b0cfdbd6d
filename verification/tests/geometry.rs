use path_tracer::aabb::{Interval, AABB};
use path_tracer::arithmetic::Arithmetic;
use path_tracer::bvh::{axis_of, make_bvh_node, random_axis, BVHNode};
use path_tracer::hittable::{HitRecord, Hittable, HittableList, Roots, Sphere, XYRect};
use path_tracer::order::{all_sortable, box_compare, box_precedes, is_sortable};
use path_tracer::random::RandomSource;
use path_tracer::ray::Ray;
use path_tracer::scalar::Scalar;
use path_tracer::v3::{Axis, V3};
use std::cell::Cell;
use std::cmp::Ordering;
use std::sync::Arc;

struct Ieee;

fn s(x: f64) -> Scalar {
    Scalar::from_bits(x.to_bits())
}

fn f(x: Scalar) -> f64 {
    f64::from_bits(x.to_bits())
}

impl Arithmetic for Ieee {
    fn plus(&self, a: Scalar, b: Scalar) -> Scalar {
        s(f(a) + f(b))
    }
    fn minus(&self, a: Scalar, b: Scalar) -> Scalar {
        s(f(a) - f(b))
    }
    fn times(&self, a: Scalar, b: Scalar) -> Scalar {
        s(f(a) * f(b))
    }
    fn over(&self, a: Scalar, b: Scalar) -> Scalar {
        s(f(a) / f(b))
    }
    fn atan2(&self, a: Scalar, b: Scalar) -> Scalar {
        s(f64::atan2(f(a), f(b)))
    }
    fn sqrt(&self, a: Scalar) -> Scalar {
        s(f64::sqrt(f(a)))
    }
    fn sin(&self, a: Scalar) -> Scalar {
        s(f64::sin(f(a)))
    }
    fn tan(&self, a: Scalar) -> Scalar {
        s(f64::tan(f(a)))
    }
    fn acos(&self, a: Scalar) -> Scalar {
        s(f64::acos(f(a)))
    }
    fn powi(&self, a: Scalar, n: i32) -> Scalar {
        s(f64::powi(f(a), n))
    }
    fn from_count(&self, n: u64) -> Scalar {
        s(n as f64)
    }
    fn to_count(&self, a: Scalar) -> u64 {
        f(a) as u64
    }
}

fn v(x: f64, y: f64, z: f64) -> V3 {
    V3::new(s(x), s(y), s(z))
}

fn fv(p: V3) -> (f64, f64, f64) {
    (f(p.x), f(p.y), f(p.z))
}

fn ray(origin: (f64, f64, f64), direction: (f64, f64, f64)) -> Ray {
    Ray::new(v(origin.0, origin.1, origin.2), v(direction.0, direction.1, direction.2))
}

fn aabb(min: (f64, f64, f64), max: (f64, f64, f64)) -> AABB {
    AABB::new(v(min.0, min.1, min.2), v(max.0, max.1, max.2))
}

fn sphere(centre: (f64, f64, f64), radius: f64, material: usize) -> Sphere {
    Sphere::new(v(centre.0, centre.1, centre.2), s(radius), material)
}

fn ball(centre: (f64, f64, f64), radius: f64, material: usize) -> Arc<Hittable> {
    Arc::new(Hittable::Sphere(sphere(centre, radius, material)))
}

fn panel(rect: XYRect) -> Arc<Hittable> {
    Arc::new(Hittable::XYRect(rect))
}

/// A source of indices that counts up from a start; nothing else is drawn
/// from it here.
struct Counting(Cell<usize>);

impl Counting {
    fn new() -> Counting {
        Counting(Cell::new(0))
    }
    fn from(start: usize) -> Counting {
        Counting(Cell::new(start))
    }
}

impl RandomSource for Counting {
    fn uniform(&self) -> Scalar {
        unreachable!("no uniform value is drawn when a hierarchy is built")
    }
    fn in_unit_sphere(&self) -> V3 {
        unreachable!("no point is drawn when a hierarchy is built")
    }
    fn in_unit_disk(&self) -> V3 {
        unreachable!("no point is drawn when a hierarchy is built")
    }
    fn index(&self) -> usize {
        let i = self.0.get();
        self.0.set(i.wrapping_add(1));
        i
    }
}

/// A small generator of reproducible uniform values in `[0, 1)`.
struct Lcg(u64);

impl Lcg {
    fn next(&mut self) -> f64 {
        self.0 = self.0.wrapping_mul(6364136223846793005).wrapping_add(1442695040888963407);
        (self.0 >> 11) as f64 / (1u64 << 53) as f64
    }
    fn between(&mut self, lo: f64, hi: f64) -> f64 {
        lo + (hi - lo) * self.next()
    }
}

fn close(a: f64, b: f64) -> bool {
    (a - b).abs() <= 1e-12 * (1.0 + a.abs().max(b.abs()))
}

// ---------------------------------------------------------------- boxes

#[test]
fn union_takes_the_outer_corners() {
    let a = aabb((0.0, 0.0, 0.0), (1.0, 2.0, 3.0));
    let b = aabb((-1.0, 1.0, 2.0), (0.5, 5.0, 2.5));
    assert_eq!(a.add(b), aabb((-1.0, 0.0, 0.0), (1.0, 5.0, 3.0)));
}

#[test]
fn union_is_commutative_and_associative() {
    let mut rng = Lcg(7);
    let mut boxes = Vec::new();
    for _ in 0..12 {
        let lo = (rng.between(-5.0, 5.0), rng.between(-5.0, 5.0), rng.between(-5.0, 5.0));
        let hi = (
            lo.0 + rng.between(0.0, 3.0),
            lo.1 + rng.between(0.0, 3.0),
            lo.2 + rng.between(0.0, 3.0),
        );
        boxes.push(aabb(lo, hi));
    }
    boxes.push(aabb((0.0, -0.0, 0.0), (0.0, 0.0, -0.0 + 0.0)));
    boxes.push(aabb((-0.0, 0.0, -0.0), (0.0, 0.0, 0.0)));
    let well_formed = boxes.len();
    // boxes with their corners the wrong way round, and boxes without end
    boxes.push(aabb((3.0, 3.0, 3.0), (1.0, 1.0, 1.0)));
    boxes.push(aabb((0.0, 5.0, -1.0), (1.0, -5.0, -2.0)));
    boxes.push(aabb((f64::NEG_INFINITY, 0.0, 0.0), (f64::INFINITY, 1.0, f64::INFINITY)));
    for (i, a) in boxes.iter().enumerate() {
        assert_eq!(a.is_well_formed(), i < well_formed || i + 1 == boxes.len());
        for (j, b) in boxes.iter().enumerate() {
            assert_eq!(a.add(*b), b.add(*a));
            if i < well_formed && j < well_formed {
                assert!(a.add(*b).is_well_formed());
            }
            for c in boxes.iter() {
                assert_eq!(a.add(b.add(*c)), a.add(*b).add(*c));
            }
        }
    }
}

#[test]
fn a_box_with_a_corner_that_is_not_a_number_is_not_well_formed() {
    assert!(!aabb((0.0, f64::NAN, 0.0), (1.0, 1.0, 1.0)).is_well_formed());
    assert!(!aabb((0.0, 2.0, 0.0), (1.0, 1.0, 1.0)).is_well_formed());
}

#[test]
fn narrowing_keeps_the_shared_part() {
    let w = Interval { near: s(0.0), far: s(10.0) };
    let n = w.narrow(Interval { near: s(2.0), far: s(12.0) });
    assert_eq!(n, Interval { near: s(2.0), far: s(10.0) });
    assert!(!n.empty());
    let gone = n.narrow(Interval { near: s(10.0), far: s(11.0) });
    assert!(gone.empty());
}

#[test]
fn slab_swaps_its_ends_for_a_negative_direction() {
    let b = aabb((1.0, 1.0, 1.0), (3.0, 3.0, 3.0));
    let forward = ray((0.0, 2.0, 2.0), (1.0, 0.0, 0.0));
    let backward = ray((4.0, 2.0, 2.0), (-2.0, 0.0, 0.0));
    let a = b.slab(&Ieee, &forward, Axis::X);
    assert_eq!((f(a.near), f(a.far)), (1.0, 3.0));
    let c = b.slab(&Ieee, &backward, Axis::X);
    assert_eq!((f(c.near), f(c.far)), (0.5, 1.5));
    let y = b.slab(&Ieee, &forward, Axis::Y);
    assert_eq!((f(y.near), f(y.far)), (f64::NEG_INFINITY, f64::INFINITY));
}

#[test]
fn a_ray_through_a_box_hits_it_and_one_beside_it_does_not() {
    let b = aabb((1.0, 1.0, 1.0), (3.0, 3.0, 3.0));
    assert!(b.does_hit(&Ieee, &ray((0.0, 2.0, 2.0), (1.0, 0.0, 0.0)), s(0.0), s(f64::INFINITY)));
    assert!(!b.does_hit(&Ieee, &ray((0.0, 5.0, 2.0), (1.0, 0.0, 0.0)), s(0.0), s(f64::INFINITY)));
    assert!(!b.does_hit(&Ieee, &ray((0.0, 2.0, 2.0), (-1.0, 0.0, 0.0)), s(0.0), s(f64::INFINITY)));
    // the window ends before the box begins
    assert!(!b.does_hit(&Ieee, &ray((0.0, 2.0, 2.0), (1.0, 0.0, 0.0)), s(0.0), s(1.0)));
    // and begins after the box has ended
    assert!(!b.does_hit(&Ieee, &ray((0.0, 2.0, 2.0), (1.0, 0.0, 0.0)), s(3.0), s(9.0)));
    assert!(b.does_hit(&Ieee, &ray((0.0, 0.0, 0.0), (1.0, 1.0, 1.0)), s(0.0), s(f64::INFINITY)));
}

#[test]
fn a_ray_is_tested_on_all_three_axes() {
    let b = aabb((1.0, 1.0, 1.0), (3.0, 3.0, 3.0));
    // inside the x and y slabs, beside the box along z
    assert!(!b.does_hit(&Ieee, &ray((0.0, 2.0, 7.0), (1.0, 0.0, 0.0)), s(0.0), s(f64::INFINITY)));
}

/// The overlap of the window with the three slabs, straight from the
/// definition and with the machine's own arithmetic.
fn overlap_by_hand(b: &AABB, r: &Ray, t_min: f64, t_max: f64) -> bool {
    let lo = [f(b.minimum.x), f(b.minimum.y), f(b.minimum.z)];
    let hi = [f(b.maximum.x), f(b.maximum.y), f(b.maximum.z)];
    let o = [f(r.origin.x), f(r.origin.y), f(r.origin.z)];
    let d = [f(r.direction.x), f(r.direction.y), f(r.direction.z)];
    let mut near = t_min;
    let mut far = t_max;
    for a in 0..3 {
        let t0 = (lo[a] - o[a]) / d[a];
        let t1 = (hi[a] - o[a]) / d[a];
        let (n, x) = if d[a] < 0.0 { (t1, t0) } else { (t0, t1) };
        near = near.max(n);
        far = far.min(x);
    }
    near < far
}

#[test]
fn does_hit_agrees_with_the_overlap_computed_by_hand() {
    let mut rng = Lcg(2024);
    let mut hits = 0;
    let mut misses = 0;
    for case in 0..20000 {
        let lo = (rng.between(-4.0, 4.0), rng.between(-4.0, 4.0), rng.between(-4.0, 4.0));
        let b = aabb(
            lo,
            (
                lo.0 + rng.between(0.0, 4.0),
                lo.1 + rng.between(0.0, 4.0),
                lo.2 + rng.between(0.0, 4.0),
            ),
        );
        let mut d = (rng.between(-1.0, 1.0), rng.between(-1.0, 1.0), rng.between(-1.0, 1.0));
        match case % 7 {
            0 => d.0 = 0.0,
            1 => d.1 = 0.0,
            2 => d.2 = -0.0,
            3 => {
                d.0 = 0.0;
                d.1 = 0.0;
            },
            _ => {},
        }
        let mut o = (rng.between(-8.0, 8.0), rng.between(-8.0, 8.0), rng.between(-8.0, 8.0));
        if case % 2 == 0 {
            // aim at the box
            d = (
                lo.0 + rng.between(0.0, 1.0) - o.0,
                lo.1 + rng.between(0.0, 1.0) - o.1,
                lo.2 + rng.between(0.0, 1.0) - o.2,
            );
        }
        if case % 14 == 0 {
            // start inside the box and run along an axis
            o = (lo.0 + 1e-3, lo.1 + 1e-3, lo.2 + 1e-3);
            d = (0.0, 0.0, 1.0);
        }
        if case % 11 == 0 {
            // start on a face of the box
            o.0 = lo.0;
        }
        let r = ray(o, d);
        let t_min = rng.between(0.0, 0.2);
        let t_max = if case % 3 == 0 { f64::INFINITY } else { rng.between(0.2, 3.0) };
        let expected = overlap_by_hand(&b, &r, t_min, t_max);
        assert_eq!(b.does_hit(&Ieee, &r, s(t_min), s(t_max)), expected, "case {case}");
        if expected {
            hits += 1;
        } else {
            misses += 1;
        }
    }
    assert!(hits > 500 && misses > 500);
}

// -------------------------------------------------------------- spheres

#[test]
fn a_ray_fired_at_a_sphere_hits_it_at_distance_minus_radius() {
    let sp = sphere((0.0, 0.0, -5.0), 1.0, 3);
    let r = ray((0.0, 0.0, 0.0), (0.0, 0.0, -1.0));
    let h = sp.hit(&Ieee, &r, s(0.001), s(f64::INFINITY)).unwrap();
    assert_eq!(f(h.time), 4.0);
    assert!(h.front_face);
    assert_eq!(fv(h.normal), (0.0, 0.0, 1.0));
    assert_eq!(fv(h.point), (0.0, 0.0, -4.0));
    assert_eq!(h.material, 3);
}

#[test]
fn a_ray_fired_at_a_sphere_from_anywhere_hits_it_at_distance_minus_radius() {
    let mut rng = Lcg(99);
    for _ in 0..2000 {
        let c = (rng.between(-9.0, 9.0), rng.between(-9.0, 9.0), rng.between(-9.0, 9.0));
        let radius = rng.between(0.1, 2.0);
        let o = (rng.between(-9.0, 9.0), rng.between(-9.0, 9.0), rng.between(-9.0, 9.0));
        let to = (c.0 - o.0, c.1 - o.1, c.2 - o.2);
        let distance = (to.0 * to.0 + to.1 * to.1 + to.2 * to.2).sqrt();
        if distance < radius + 0.5 {
            continue;
        }
        let d = (to.0 / distance, to.1 / distance, to.2 / distance);
        let h = sphere(c, radius, 0).hit(&Ieee, &ray(o, d), s(0.001), s(f64::INFINITY)).unwrap();
        assert!((f(h.time) - (distance - radius)).abs() < 1e-9);
        assert!(h.front_face);
        let n = fv(h.normal);
        // the normal points back toward the origin of the ray
        assert!((n.0 + d.0).abs() < 1e-6 && (n.1 + d.1).abs() < 1e-6 && (n.2 + d.2).abs() < 1e-6);
    }
}

#[test]
fn from_inside_a_sphere_the_far_root_is_hit_on_the_back_face() {
    let sp = sphere((0.0, 0.0, 0.0), 2.0, 0);
    let r = ray((0.0, 0.0, 0.0), (1.0, 0.0, 0.0));
    let h = sp.hit(&Ieee, &r, s(0.001), s(f64::INFINITY)).unwrap();
    assert_eq!(f(h.time), 2.0);
    assert!(!h.front_face);
    assert_eq!(fv(h.normal), (-1.0, 0.0, 0.0));
}

#[test]
fn a_sphere_is_missed_beside_it_behind_it_and_outside_the_window() {
    let sp = sphere((0.0, 0.0, -5.0), 1.0, 0);
    let inf = s(f64::INFINITY);
    assert!(sp.hit(&Ieee, &ray((0.0, 3.0, 0.0), (0.0, 0.0, -1.0)), s(0.001), inf).is_none());
    assert!(sp.hit(&Ieee, &ray((0.0, 0.0, 0.0), (0.0, 0.0, 1.0)), s(0.001), inf).is_none());
    assert!(sp.hit(&Ieee, &ray((0.0, 0.0, 0.0), (0.0, 0.0, -1.0)), s(0.001), s(3.5)).is_none());
    assert!(sp.hit(&Ieee, &ray((0.0, 0.0, 0.0), (0.0, 0.0, -1.0)), s(6.5), inf).is_none());
    // the near root lies before the window, the far one inside it
    let h = sp.hit(&Ieee, &ray((0.0, 0.0, 0.0), (0.0, 0.0, -1.0)), s(4.5), inf).unwrap();
    assert_eq!(f(h.time), 6.0);
    // a hit at the very end of the window counts
    let h = sp.hit(&Ieee, &ray((0.0, 0.0, 0.0), (0.0, 0.0, -1.0)), s(0.001), s(4.0)).unwrap();
    assert_eq!(f(h.time), 4.0);
}

#[test]
fn a_ray_without_direction_hits_nothing() {
    let sp = sphere((0.0, 0.0, 0.0), 1.0, 0);
    let still = ray((0.0, 0.0, 0.0), (0.0, 0.0, 0.0));
    assert!(sp.hit(&Ieee, &still, s(0.001), s(f64::INFINITY)).is_none());
}

#[test]
fn a_sphere_of_no_radius_is_a_point_that_can_be_hit() {
    let point = sphere((0.0, 0.0, -5.0), 0.0, 2);
    let r = ray((0.0, 0.0, 0.0), (0.0, 0.0, -1.0));
    let h = point.hit(&Ieee, &r, s(0.001), s(f64::INFINITY)).unwrap();
    assert_eq!((f(h.time), h.material), (5.0, 2));
    assert_eq!(fv(h.point), (0.0, 0.0, -5.0));
    // it has no surface, and so no normal
    assert!(f(h.normal.x).is_nan() && f(h.normal.y).is_nan() && f(h.normal.z).is_nan());
    let beside = ray((0.0, 0.0, 0.0), (0.0, 1e-3, -1.0));
    assert!(point.hit(&Ieee, &beside, s(0.001), s(f64::INFINITY)).is_none());
    // its box is the point itself, which is well formed
    let b = point.bounding_box(&Ieee, s(0.0), s(1.0)).unwrap();
    assert_eq!(b, aabb((0.0, 0.0, -5.0), (0.0, 0.0, -5.0)));
    assert!(b.is_well_formed());
    // and a hierarchy can be built over such points
    let points: Vec<Arc<Hittable>> = (0..5).map(|i| ball((i as f64, 0.0, -5.0), 0.0, i)).collect();
    assert!(all_sortable(&Ieee, &points));
    let tree = BVHNode::new(&Ieee, &Counting::new(), points, s(0.0), s(1.0));
    assert_eq!(tree.bounding_box, aabb((0.0, 0.0, -5.0), (4.0, 0.0, -5.0)));
}

#[test]
fn the_roots_of_a_sphere_are_those_of_its_quadratic() {
    let sp = sphere((0.0, 0.0, -5.0), 1.0, 0);
    let r = ray((0.0, 0.0, 0.0), (0.0, 0.0, -1.0));
    assert_eq!(sp.roots(&Ieee, &r), Roots::Both { near: s(4.0), far: s(6.0) });
    let beside = ray((0.0, 3.0, 0.0), (0.0, 0.0, -1.0));
    assert_eq!(sp.roots(&Ieee, &beside), Roots::Neither);
    assert_eq!(Roots::Neither.first_within(s(0.0), s(9.0)), None);
    let both = Roots::Both { near: s(4.0), far: s(6.0) };
    assert_eq!(both.first_within(s(0.0), s(9.0)), Some(s(4.0)));
    assert_eq!(both.first_within(s(5.0), s(9.0)), Some(s(6.0)));
    assert_eq!(both.first_within(s(7.0), s(9.0)), None);
    assert_eq!(both.first_within(s(0.0), s(3.0)), None);
}

#[test]
fn sphere_texture_coordinates_follow_the_angles() {
    let cases = [
        ((1.0, 0.0, 0.0), (0.5, 0.5)),
        ((-1.0, 0.0, 0.0), (0.0, 0.5)),
        ((0.0, 1.0, 0.0), (0.5, 1.0)),
        ((0.0, -1.0, 0.0), (0.5, 0.0)),
        ((0.0, 0.0, 1.0), (0.25, 0.5)),
        ((0.0, 0.0, -1.0), (0.75, 0.5)),
    ];
    for (p, (u, v_expected)) in cases {
        let (gu, gv) = Sphere::get_sphere_uv(&Ieee, v(p.0, p.1, p.2));
        let gu = f(gu);
        // the seam: an angle of a full turn is the angle zero
        assert!(close(gu, u) || close((gu - u).abs(), 1.0), "u of {p:?}: {gu}");
        assert!(close(f(gv), v_expected), "v of {p:?}");
    }
}

#[test]
fn a_hit_gets_the_texture_coordinates_of_its_place_on_the_sphere() {
    let inf = s(f64::INFINITY);
    // hit at the side that faces the ray: the outward normal is (0, 0, 1)
    let sp = sphere((0.0, 0.0, -5.0), 1.0, 0);
    let h = sp.hit(&Ieee, &ray((0.0, 0.0, 0.0), (0.0, 0.0, -1.0)), s(0.001), inf).unwrap();
    assert!(close(f(h.u), 0.25) && close(f(h.v), 0.5), "{} {}", f(h.u), f(h.v));
    // a large sphere far from the origin, hit on top: the normal is (0, 1, 0)
    let big = sphere((100.0, -50.0, 30.0), 8.0, 0);
    let h = big.hit(&Ieee, &ray((100.0, 0.0, 30.0), (0.0, -1.0, 0.0)), s(0.001), inf).unwrap();
    assert_eq!(f(h.time), 42.0);
    assert!(close(f(h.u), 0.5) && close(f(h.v), 1.0), "{} {}", f(h.u), f(h.v));
    // and from the side of rising x: the normal is (1, 0, 0)
    let h = big.hit(&Ieee, &ray((200.0, -50.0, 30.0), (-1.0, 0.0, 0.0)), s(0.001), inf).unwrap();
    assert!(close(f(h.u), 0.5) && close(f(h.v), 0.5), "{} {}", f(h.u), f(h.v));
    // from inside, the coordinates are still those of the outward normal
    let h = big.hit(&Ieee, &ray((100.0, -50.0, 30.0), (0.0, 0.0, -2.0)), s(0.001), inf).unwrap();
    assert!(!h.front_face);
    assert!(close(f(h.u), 0.75) && close(f(h.v), 0.5), "{} {}", f(h.u), f(h.v));
}

#[test]
fn every_hit_on_a_sphere_has_texture_coordinates_between_zero_and_one() {
    let mut rng = Lcg(4242);
    let mut hits = 0;
    for _ in 0..4000 {
        let c = (rng.between(-50.0, 50.0), rng.between(-50.0, 50.0), rng.between(-50.0, 50.0));
        let sp = sphere(c, rng.between(0.1, 9.0), 0);
        let o = (rng.between(-60.0, 60.0), rng.between(-60.0, 60.0), rng.between(-60.0, 60.0));
        let d = (
            c.0 + rng.between(-5.0, 5.0) - o.0,
            c.1 + rng.between(-5.0, 5.0) - o.1,
            c.2 + rng.between(-5.0, 5.0) - o.2,
        );
        if let Some(h) = sp.hit(&Ieee, &ray(o, d), s(0.001), s(f64::INFINITY)) {
            hits += 1;
            assert!((0.0..=1.0).contains(&f(h.u)), "u = {}", f(h.u));
            assert!((0.0..=1.0).contains(&f(h.v)), "v = {}", f(h.v));
        }
    }
    assert!(hits > 1000);
}

#[test]
fn a_sphere_is_boxed_by_its_radius() {
    let sp = sphere((1.0, 2.0, 3.0), 0.5, 0);
    assert_eq!(
        sp.bounding_box(&Ieee, s(0.0), s(1.0)),
        Some(aabb((0.5, 1.5, 2.5), (1.5, 2.5, 3.5)))
    );
}

// ----------------------------------------------------------- rectangles

fn rect() -> XYRect {
    XYRect::new(s(3.0), s(5.0), s(1.0), s(3.0), s(-2.0), 4)
}

#[test]
fn a_ray_through_a_rectangle_hits_it() {
    let h = rect().hit(&Ieee, &ray((4.0, 2.0, 0.0), (0.0, 0.0, -1.0)), s(0.001), s(f64::INFINITY));
    let h = h.unwrap();
    assert_eq!(f(h.time), 2.0);
    assert_eq!(fv(h.point), (4.0, 2.0, -2.0));
    assert_eq!((f(h.u), f(h.v)), (0.5, 0.5));
    // the ray runs against the outward normal (0, 0, 1)
    assert!(h.front_face);
    assert_eq!(fv(h.normal), (0.0, 0.0, 1.0));
    assert_eq!(h.material, 4);
}

#[test]
fn a_rectangle_hit_from_behind_turns_its_normal() {
    let h = rect().hit(&Ieee, &ray((3.5, 2.5, -4.0), (0.0, 0.0, 2.0)), s(0.001), s(f64::INFINITY));
    let h = h.unwrap();
    assert_eq!(f(h.time), 1.0);
    assert!(!h.front_face);
    assert_eq!(fv(h.normal), (-0.0, -0.0, -1.0));
    assert_eq!((f(h.u), f(h.v)), (0.25, 0.75));
}

#[test]
fn a_rectangle_is_missed_beside_it_and_outside_the_window() {
    let inf = s(f64::INFINITY);
    let r = rect();
    assert!(r.hit(&Ieee, &ray((6.0, 2.0, 0.0), (0.0, 0.0, -1.0)), s(0.001), inf).is_none());
    assert!(r.hit(&Ieee, &ray((4.0, 0.0, 0.0), (0.0, 0.0, -1.0)), s(0.001), inf).is_none());
    assert!(r.hit(&Ieee, &ray((4.0, 2.0, 0.0), (0.0, 0.0, 1.0)), s(0.001), inf).is_none());
    assert!(r.hit(&Ieee, &ray((4.0, 2.0, 0.0), (0.0, 0.0, -1.0)), s(0.001), s(1.5)).is_none());
    assert!(r.hit(&Ieee, &ray((4.0, 2.0, 0.0), (0.0, 0.0, -1.0)), s(2.5), inf).is_none());
    // on the edge counts
    assert!(r.hit(&Ieee, &ray((3.0, 1.0, 0.0), (0.0, 0.0, -1.0)), s(0.001), inf).is_some());
}

#[test]
fn a_ray_parallel_to_a_rectangle_hits_nothing() {
    let inf = s(f64::INFINITY);
    let r = rect();
    // beside the plane: the crossing lies at infinity
    assert!(r.hit(&Ieee, &ray((4.0, 2.0, 0.0), (1.0, 0.0, 0.0)), s(0.001), inf).is_none());
    // in the plane: the crossing is not a number
    assert!(r.hit(&Ieee, &ray((4.0, 2.0, -2.0), (1.0, 0.0, 0.0)), s(0.001), inf).is_none());
    assert!(r.hit(&Ieee, &ray((4.0, 2.0, -2.0), (0.0, 0.0, 0.0)), s(0.001), inf).is_none());
}

#[test]
fn a_rectangle_is_boxed_with_some_thickness() {
    let b = rect().bounding_box(&Ieee, s(0.0), s(1.0)).unwrap();
    assert_eq!(b, aabb((3.0, 1.0, -2.0 - 0.0001), (5.0, 3.0, -2.0 + 0.0001)));
    assert!(b.is_well_formed());
    assert!(f(b.minimum.z) < f(b.maximum.z));
    // a ray straight through the rectangle passes the slab test of its box
    assert!(b.does_hit(&Ieee, &ray((4.0, 2.0, 0.0), (0.0, 0.0, -1.0)), s(0.001), s(f64::INFINITY)));
}

#[test]
fn covers_takes_the_extents_with_their_edges() {
    let r = rect();
    assert!(r.covers(s(3.0), s(1.0)));
    assert!(r.covers(s(5.0), s(3.0)));
    assert!(!r.covers(s(5.1), s(2.0)));
    assert!(!r.covers(s(4.0), s(0.9)));
    assert!(!r.covers(s(f64::NAN), s(2.0)));
}

// ----------------------------------------------------------- hit records

#[test]
fn a_hit_record_turns_the_normal_against_the_ray() {
    let n = v(0.0, 1.0, 0.0);
    let p = v(1.0, 2.0, 3.0);
    let front = HitRecord::new(&Ieee, s(2.0), s(0.1), s(0.2), p, n, v(1.0, -1.0, 0.0), 7);
    assert!(front.front_face);
    assert_eq!(front.normal, n);
    assert_eq!((front.time, front.u, front.v, front.point, front.material), (s(2.0), s(0.1), s(0.2), p, 7));
    let back = HitRecord::new(&Ieee, s(2.0), s(0.1), s(0.2), p, n, v(1.0, 1.0, 0.0), 7);
    assert!(!back.front_face);
    assert_eq!(back.normal, v(-0.0, -1.0, -0.0));
    // a grazing ray counts as hitting the back
    let grazing = HitRecord::new(&Ieee, s(2.0), s(0.1), s(0.2), p, n, v(1.0, 0.0, 0.0), 7);
    assert!(!grazing.front_face);
}

// ---------------------------------------------------------------- lists

#[test]
fn an_empty_list_is_hit_nowhere_and_has_no_box() {
    let list = HittableList::new();
    assert_eq!(list.len(), 0);
    let r = ray((0.0, 0.0, 0.0), (0.0, 0.0, -1.0));
    assert!(list.hit(&Ieee, &r, s(0.001), s(f64::INFINITY)).is_none());
    assert!(list.bounding_box(&Ieee, s(0.0), s(1.0)).is_none());
}

#[test]
fn a_list_reports_its_nearest_hit() {
    let mut list = HittableList::new();
    list.add(ball((0.0, 0.0, -9.0), 1.0, 0));
    list.add(ball((0.0, 0.0, -3.0), 1.0, 1));
    list.add(ball((0.0, 0.0, -6.0), 1.0, 2));
    list.add(panel(XYRect::new(s(-1.0), s(1.0), s(-1.0), s(1.0), s(-12.0), 3)));
    assert_eq!(list.len(), 4);
    let r = ray((0.0, 0.0, 0.0), (0.0, 0.0, -1.0));
    let h = list.hit(&Ieee, &r, s(0.001), s(f64::INFINITY)).unwrap();
    assert_eq!((f(h.time), h.material), (2.0, 1));
    // with the nearest sphere cut out of the window, the next one is hit
    let h = list.hit(&Ieee, &r, s(4.5), s(f64::INFINITY)).unwrap();
    assert_eq!((f(h.time), h.material), (5.0, 2));
    let h = list.hit(&Ieee, &r, s(10.5), s(f64::INFINITY)).unwrap();
    assert_eq!((f(h.time), h.material), (12.0, 3));
    assert!(list.hit(&Ieee, &r, s(0.001), s(1.5)).is_none());
}

#[test]
fn of_two_hits_at_the_same_time_a_list_reports_the_later_primitive() {
    let mut list = HittableList::new();
    list.add(ball((0.0, 0.0, -3.0), 1.0, 0));
    list.add(ball((0.0, 0.0, -3.0), 1.0, 1));
    let r = ray((0.0, 0.0, 0.0), (0.0, 0.0, -1.0));
    let h = list.hit(&Ieee, &r, s(0.001), s(f64::INFINITY)).unwrap();
    assert_eq!((f(h.time), h.material), (2.0, 1));
}

#[test]
fn a_list_is_boxed_by_the_union_of_its_boxes() {
    let mut list = HittableList::new();
    list.add(ball((0.0, 0.0, 0.0), 1.0, 0));
    assert_eq!(
        list.bounding_box(&Ieee, s(0.0), s(1.0)),
        Some(aabb((-1.0, -1.0, -1.0), (1.0, 1.0, 1.0)))
    );
    list.add(ball((4.0, 0.0, 0.0), 2.0, 0));
    list.add(panel(XYRect::new(s(0.0), s(1.0), s(-7.0), s(1.0), s(0.0), 0)));
    assert_eq!(
        list.bounding_box(&Ieee, s(0.0), s(1.0)),
        Some(aabb((-1.0, -7.0, -2.0), (6.0, 2.0, 2.0)))
    );
}

#[test]
fn material_indices_are_checked_against_a_count() {
    let mut list = HittableList::new();
    list.add(ball((0.0, 0.0, 0.0), 1.0, 0));
    list.add(ball((0.0, 0.0, 0.0), 1.0, 2));
    assert!(list.has_materials_below(3));
    assert!(!list.has_materials_below(2));
    let world = Hittable::List(list);
    assert!(world.has_materials_below(3));
    assert!(!world.has_materials_below(2));
    assert!(Hittable::Sphere(sphere((0.0, 0.0, 0.0), 1.0, 5)).has_materials_below(6));
    assert!(!Hittable::Sphere(sphere((0.0, 0.0, 0.0), 1.0, 5)).has_materials_below(5));
    assert!(!Hittable::XYRect(rect()).has_materials_below(4));
    assert!(Hittable::XYRect(rect()).has_materials_below(5));
    let tree = BVHNode::new(
        &Ieee,
        &Counting::new(),
        vec![
            ball((0.0, 0.0, 0.0), 1.0, 1),
            ball((3.0, 0.0, 0.0), 1.0, 4),
            ball((6.0, 0.0, 0.0), 1.0, 2),
        ],
        s(0.0),
        s(1.0),
    );
    assert!(tree.has_materials_below(5));
    assert!(!tree.has_materials_below(4));
    // a list in a list, and a hierarchy beside it
    let mut outer = HittableList::new();
    outer.add(Arc::new(world));
    outer.add(Arc::new(Hittable::Node(tree)));
    assert!(outer.has_materials_below(5));
    assert!(!outer.has_materials_below(4));
    assert!(HittableList::new().has_materials_below(0));
}

#[test]
fn lists_and_hierarchies_nest() {
    let r = ray((0.0, 0.0, 0.0), (0.0, 0.0, -1.0));
    let inf = s(f64::INFINITY);
    let mut near = HittableList::new();
    near.add(ball((0.0, 0.0, -6.0), 1.0, 0));
    near.add(ball((0.0, 0.0, -3.0), 1.0, 1));
    let far = BVHNode::new(
        &Ieee,
        &Counting::new(),
        vec![ball((0.0, 0.0, -20.0), 1.0, 2), ball((0.0, 0.0, -12.0), 1.0, 3), ball((9.0, 0.0, 0.0), 1.0, 4)],
        s(0.0),
        s(1.0),
    );
    let mut world = HittableList::new();
    world.add(Arc::new(Hittable::Node(far)));
    world.add(Arc::new(Hittable::List(near)));
    world.add(panel(XYRect::new(s(-1.0), s(1.0), s(-1.0), s(1.0), s(-9.0), 5)));
    let h = world.hit(&Ieee, &r, s(0.001), inf).unwrap();
    assert_eq!((f(h.time), h.material), (2.0, 1));
    let h = world.hit(&Ieee, &r, s(7.5), inf).unwrap();
    assert_eq!((f(h.time), h.material), (9.0, 5));
    let h = world.hit(&Ieee, &r, s(9.5), inf).unwrap();
    assert_eq!((f(h.time), h.material), (11.0, 3));
    assert_eq!(
        world.bounding_box(&Ieee, s(0.0), s(1.0)),
        Some(aabb((-1.0, -1.0, -21.0), (10.0, 1.0, 1.0)))
    );
    // a hierarchy over the three of them
    let tree = BVHNode::new(&Ieee, &Counting::new(), world.hittables.clone(), s(0.0), s(1.0));
    assert_eq!(tree.hit(&Ieee, &r, s(0.001), inf), world.hit(&Ieee, &r, s(0.001), inf));
    assert_eq!(tree.hit(&Ieee, &r, s(9.5), inf), world.hit(&Ieee, &r, s(9.5), inf));
    assert_eq!(tree.bounding_box, aabb((-1.0, -1.0, -21.0), (10.0, 1.0, 1.0)));
}

#[test]
fn a_list_that_holds_an_empty_list_has_no_box() {
    let mut list = HittableList::new();
    list.add(ball((0.0, 0.0, 0.0), 1.0, 0));
    list.add(Arc::new(Hittable::List(HittableList::new())));
    list.add(ball((5.0, 0.0, 0.0), 1.0, 0));
    assert_eq!(list.bounding_box(&Ieee, s(0.0), s(1.0)), None);
    assert!(!is_sortable(&Ieee, &Hittable::List(list)));
    assert!(!is_sortable(&Ieee, &Hittable::List(HittableList::new())));
    // the ray still finds what is there
    let mut list = HittableList::new();
    list.add(Arc::new(Hittable::List(HittableList::new())));
    list.add(ball((0.0, 0.0, -5.0), 1.0, 7));
    let r = ray((0.0, 0.0, 0.0), (0.0, 0.0, -1.0));
    assert_eq!(list.hit(&Ieee, &r, s(0.001), s(f64::INFINITY)).unwrap().material, 7);
}

// ------------------------------------------------------------ hierarchy

#[test]
fn the_axis_follows_the_remainder_on_division_by_three() {
    assert_eq!(axis_of(0), Axis::X);
    assert_eq!(axis_of(1), Axis::Y);
    assert_eq!(axis_of(2), Axis::Z);
    assert_eq!(axis_of(3), Axis::X);
    assert_eq!(axis_of(100), Axis::Y);
    assert_eq!(axis_of(usize::MAX), axis_of(usize::MAX % 3));
}

#[test]
fn a_random_axis_is_one_of_the_three() {
    let source = Counting::new();
    let mut seen = [false; 3];
    for _ in 0..300 {
        match random_axis(&source) {
            Axis::X => seen[0] = true,
            Axis::Y => seen[1] = true,
            Axis::Z => seen[2] = true,
        }
    }
    assert_eq!(seen, [true; 3]);
}

#[test]
fn things_compare_by_the_minimum_corner_of_their_boxes() {
    let a = ball((0.0, 5.0, 0.0), 1.0, 0);
    let b = ball((2.0, 0.0, 0.0), 1.0, 0);
    let wide = ball((2.0, 0.0, 0.0), 3.0, 0);
    assert_eq!(box_compare(&Ieee, Axis::X, &a, &b), Ordering::Less);
    assert_eq!(box_compare(&Ieee, Axis::X, &b, &a), Ordering::Greater);
    assert_eq!(box_compare(&Ieee, Axis::Y, &a, &b), Ordering::Greater);
    assert_eq!(box_compare(&Ieee, Axis::Z, &a, &b), Ordering::Equal);
    // it is the corner that counts, not the centre
    assert_eq!(box_compare(&Ieee, Axis::X, &wide, &a), Ordering::Equal);
    assert!(box_precedes(&Ieee, Axis::X, &a, &b));
    assert!(!box_precedes(&Ieee, Axis::X, &b, &a));
    assert!(!box_precedes(&Ieee, Axis::Z, &a, &b));
}

#[test]
fn things_with_a_corner_that_is_not_a_number_cannot_be_sorted() {
    let fine = vec![ball((0.0, 5.0, 0.0), 1.0, 0), panel(rect())];
    assert!(all_sortable(&Ieee, &fine));
    let broken = vec![ball((0.0, 5.0, 0.0), 1.0, 0), ball((0.0, f64::NAN, 0.0), 1.0, 0)];
    assert!(!all_sortable(&Ieee, &broken));
    assert!(all_sortable(&Ieee, &Vec::new()));
    assert!(is_sortable(&Ieee, &Hittable::Sphere(sphere((0.0, 5.0, 0.0), 1.0, 0))));
    assert!(!is_sortable(&Ieee, &Hittable::Sphere(sphere((0.0, 5.0, 0.0), f64::NAN, 0))));
}

fn subtree(child: &Arc<Hittable>) -> &BVHNode {
    match &**child {
        Hittable::Node(n) => n,
        other => panic!("a subtree was expected, not {other:?}"),
    }
}

fn material_of(h: &Arc<Hittable>) -> usize {
    match &**h {
        Hittable::Sphere(sp) => sp.material,
        Hittable::XYRect(r) => r.material,
        other => panic!("a sphere or a rectangle was expected, not {other:?}"),
    }
}

/// Spheres on the diagonal: along every axis they stand in the same order.
fn on_the_diagonal(i: usize) -> Arc<Hittable> {
    let at = 3.0 * i as f64;
    ball((at, at, at), 1.0, i)
}

#[test]
fn the_hierarchy_over_one_thing_has_it_on_both_sides() {
    let p = on_the_diagonal(2);
    let node = BVHNode::new(&Ieee, &Counting::new(), vec![p.clone()], s(0.0), s(1.0));
    assert_eq!(node.left, p);
    assert_eq!(node.right, p);
    // the two sides share the one sphere
    assert!(Arc::ptr_eq(&node.left, &p) && Arc::ptr_eq(&node.right, &p));
    assert_eq!(node.bounding_box, aabb((5.0, 5.0, 5.0), (7.0, 7.0, 7.0)));
    assert_eq!(node.bounding_box(s(0.0), s(1.0)), Some(node.bounding_box));
    let r = ray((6.0, 6.0, 0.0), (0.0, 0.0, 1.0));
    let h = node.hit(&Ieee, &r, s(0.001), s(f64::INFINITY)).unwrap();
    assert_eq!((f(h.time), h.material), (5.0, 2));
}

#[test]
fn the_hierarchy_over_two_things_puts_the_smaller_on_the_left() {
    for _ in 0..20 {
        let node =
            BVHNode::new(&Ieee, &Counting::new(), vec![on_the_diagonal(4), on_the_diagonal(1)], s(0.0), s(1.0));
        assert_eq!(node.left, on_the_diagonal(1));
        assert_eq!(node.right, on_the_diagonal(4));
        assert_eq!(node.bounding_box, aabb((2.0, 2.0, 2.0), (13.0, 13.0, 13.0)));
    }
}

#[test]
fn of_two_equal_things_the_second_goes_to_the_left() {
    let a = ball((0.0, 0.0, 0.0), 1.0, 0);
    let b = ball((0.0, 0.0, 0.0), 1.0, 1);
    let node = BVHNode::new(&Ieee, &Counting::new(), vec![a.clone(), b.clone()], s(0.0), s(1.0));
    assert_eq!(node.left, b);
    assert_eq!(node.right, a);
}

#[test]
fn building_sorts_the_row_and_splits_it_in_the_middle() {
    for _ in 0..20 {
        let mut objects: Vec<Arc<Hittable>> =
            [6usize, 2, 5, 0, 4, 1, 3].iter().map(|&i| on_the_diagonal(i)).collect();
        let before = on_the_diagonal(9);
        let after = on_the_diagonal(8);
        objects.insert(0, before.clone());
        objects.push(after.clone());
        let node = make_bvh_node(&Ieee, &Counting::new(), &mut objects, 1, 8, s(0.0), s(1.0));
        // outside the range nothing has moved
        assert_eq!(objects[0], before);
        assert_eq!(objects[8], after);
        // inside, the spheres now ascend
        let sorted: Vec<Arc<Hittable>> = (0..7).map(on_the_diagonal).collect();
        assert_eq!(&objects[1..8], &sorted[..]);
        // seven split into three and four, three into one and two
        let left = subtree(&node.left);
        let right = subtree(&node.right);
        let ll = subtree(&left.left);
        assert_eq!((&ll.left, &ll.right), (&sorted[0], &sorted[0]));
        let lr = subtree(&left.right);
        assert_eq!((&lr.left, &lr.right), (&sorted[1], &sorted[2]));
        let rl = subtree(&right.left);
        assert_eq!((&rl.left, &rl.right), (&sorted[3], &sorted[4]));
        let rr = subtree(&right.right);
        assert_eq!((&rr.left, &rr.right), (&sorted[5], &sorted[6]));
        // the leaves are the very spheres of the row
        assert!(Arc::ptr_eq(&lr.left, &objects[2]));
        // every box is the union of the two below it
        assert_eq!(node.bounding_box, aabb((-1.0, -1.0, -1.0), (19.0, 19.0, 19.0)));
        assert_eq!(left.bounding_box, aabb((-1.0, -1.0, -1.0), (7.0, 7.0, 7.0)));
        assert_eq!(right.bounding_box, aabb((8.0, 8.0, 8.0), (19.0, 19.0, 19.0)));
        assert_eq!(lr.bounding_box, aabb((2.0, 2.0, 2.0), (7.0, 7.0, 7.0)));
    }
}

#[test]
fn the_same_draws_build_the_same_hierarchy() {
    let mut rng = Lcg(77);
    let spheres = random_spheres(&mut rng, 40);
    let mut shapes = Vec::new();
    for start in 0..3 {
        let first = BVHNode::new(&Ieee, &Counting::from(start), spheres.clone(), s(0.0), s(1.0));
        let second = BVHNode::new(&Ieee, &Counting::from(start), spheres.clone(), s(0.0), s(1.0));
        assert_eq!(first, second);
        shapes.push(first);
    }
    // draws that select other axes build another hierarchy
    assert_ne!(shapes[0], shapes[1]);
    assert_ne!(shapes[1], shapes[2]);
    // one draw is taken for each node
    fn nodes(things: usize) -> usize {
        if things <= 2 {
            1
        } else {
            1 + nodes(things / 2) + nodes(things - things / 2)
        }
    }
    let source = Counting::new();
    let _ = BVHNode::new(&Ieee, &source, spheres, s(0.0), s(1.0));
    assert_eq!(nodes(40), 47);
    assert_eq!(source.index(), nodes(40));
}

#[test]
fn the_drawn_axis_decides_which_of_two_things_goes_left() {
    // two rectangles in one plane that overlap: the first begins earlier along
    // x, the second along y
    let a = panel(XYRect::new(s(0.0), s(2.0), s(1.0), s(3.0), s(-4.0), 0));
    let b = panel(XYRect::new(s(1.0), s(3.0), s(0.0), s(2.0), s(-4.0), 1));
    let along_x = BVHNode::new(&Ieee, &Counting::from(0), vec![a.clone(), b.clone()], s(0.0), s(1.0));
    assert_eq!((&along_x.left, &along_x.right), (&a, &b));
    let along_y = BVHNode::new(&Ieee, &Counting::from(1), vec![a.clone(), b.clone()], s(0.0), s(1.0));
    assert_eq!((&along_y.left, &along_y.right), (&b, &a));
    // along z neither begins earlier, and the second goes left
    let along_z = BVHNode::new(&Ieee, &Counting::from(2), vec![a.clone(), b.clone()], s(0.0), s(1.0));
    assert_eq!((&along_z.left, &along_z.right), (&b, &a));
    // where they overlap both are hit at the same time, and the right side,
    // which is asked later, wins
    let r = ray((1.5, 1.5, 0.0), (0.0, 0.0, -1.0));
    let inf = s(f64::INFINITY);
    assert_eq!(along_x.hit(&Ieee, &r, s(0.001), inf).unwrap().material, 1);
    assert_eq!(along_y.hit(&Ieee, &r, s(0.001), inf).unwrap().material, 0);
}

#[test]
fn equal_things_keep_their_order_when_sorted() {
    // five spheres with the same box, told apart by their material
    let mut objects: Vec<Arc<Hittable>> = (0..5).map(|i| ball((1.0, 1.0, 1.0), 1.0, i)).collect();
    let node = make_bvh_node(&Ieee, &Counting::new(), &mut objects, 0, 5, s(0.0), s(1.0));
    let order: Vec<usize> = objects.iter().map(material_of).collect();
    assert_eq!(order, vec![0, 1, 2, 3, 4]);
    assert_eq!(node.bounding_box, aabb((0.0, 0.0, 0.0), (2.0, 2.0, 2.0)));
}

/// The leaves of the hierarchy over `count` things, from left to right.
fn leaves(node: &BVHNode, count: usize, into: &mut Vec<Arc<Hittable>>) {
    if count <= 2 {
        into.push(node.left.clone());
        into.push(node.right.clone());
    } else {
        leaves(subtree(&node.left), count / 2, into);
        leaves(subtree(&node.right), count - count / 2, into);
    }
}

fn random_spheres(rng: &mut Lcg, count: usize) -> Vec<Arc<Hittable>> {
    (0..count)
        .map(|i| {
            let c = (rng.between(-10.0, 10.0), rng.between(-10.0, 10.0), rng.between(-10.0, 10.0));
            ball(c, rng.between(0.2, 1.5), i)
        })
        .collect()
}

#[test]
fn the_hierarchy_holds_everything_it_was_built_over() {
    let mut rng = Lcg(5);
    for count in [3usize, 4, 5, 8, 16, 33, 64] {
        let spheres = random_spheres(&mut rng, count);
        let node = BVHNode::new(&Ieee, &Counting::new(), spheres.clone(), s(0.0), s(1.0));
        let mut found = Vec::new();
        leaves(&node, count, &mut found);
        let mut materials: Vec<usize> = found.iter().map(material_of).collect();
        materials.sort();
        materials.dedup();
        assert_eq!(materials, (0..count).collect::<Vec<usize>>());
        for p in found.iter() {
            assert!(Arc::ptr_eq(p, &spheres[material_of(p)]));
        }
    }
}

#[test]
fn the_hierarchy_finds_the_same_nearest_hit_as_the_list() {
    let mut rng = Lcg(31337);
    let spheres = random_spheres(&mut rng, 80);
    let mut list = HittableList::new();
    for p in spheres.iter() {
        list.add(p.clone());
    }
    let tree = BVHNode::new(&Ieee, &Counting::new(), spheres.clone(), s(0.0), s(f64::INFINITY));
    let world = Hittable::Node(BVHNode::new(&Ieee, &Counting::new(), spheres, s(0.0), s(f64::INFINITY)));
    let mut hits = 0;
    for case in 0..5000 {
        let o = (rng.between(-15.0, 15.0), rng.between(-15.0, 15.0), rng.between(-15.0, 15.0));
        let mut d = (rng.between(-1.0, 1.0), rng.between(-1.0, 1.0), rng.between(-1.0, 1.0));
        if case % 9 == 4 {
            // along an axis
            match case % 27 {
                4 => d = (1.0, 0.0, 0.0),
                13 => d = (0.0, -1.0, 0.0),
                _ => d = (d.0, 0.0, d.2),
            }
        } else if case % 3 != 0 {
            // aim near the middle of the scene
            d = (
                rng.between(-6.0, 6.0) - o.0,
                rng.between(-6.0, 6.0) - o.1,
                rng.between(-6.0, 6.0) - o.2,
            );
        }
        let r = ray(o, d);
        let t_max = if case % 2 == 0 { f64::INFINITY } else { rng.between(0.5, 3.0) };
        // the roots of every sphere come in order, which keeps each of them to
        // one answer however the window is cut, and a sphere that is hit is hit
        // within its box
        for p in list.hittables.iter() {
            if let Hittable::Sphere(sp) = &**p {
                assert!(sp.roots(&Ieee, &r).ordered());
                if sp.hit(&Ieee, &r, s(0.001), s(t_max)).is_some() {
                    let b = sp.bounding_box(&Ieee, s(0.0), s(1.0)).unwrap();
                    assert!(b.does_hit(&Ieee, &r, s(0.001), s(t_max)));
                }
            }
        }
        let scanned = list.hit(&Ieee, &r, s(0.001), s(t_max));
        let walked = tree.hit(&Ieee, &r, s(0.001), s(t_max));
        assert_eq!(walked, scanned, "case {case}");
        assert_eq!(world.hit(&Ieee, &r, s(0.001), s(t_max)), scanned, "case {case}");
        if let Some(h) = scanned {
            hits += 1;
            assert!(f(h.time) >= 0.001 && f(h.time) <= t_max);
        }
    }
    assert!(hits > 1000);
}

#[test]
fn of_two_spheres_in_one_place_the_list_and_the_hierarchy_report_different_ones() {
    let a = ball((0.0, 0.0, -3.0), 1.0, 0);
    let b = ball((0.0, 0.0, -3.0), 1.0, 1);
    let mut list = HittableList::new();
    list.add(a.clone());
    list.add(b.clone());
    let tree = BVHNode::new(&Ieee, &Counting::new(), vec![a, b], s(0.0), s(1.0));
    let r = ray((0.0, 0.0, 0.0), (0.0, 0.0, -1.0));
    let scanned = list.hit(&Ieee, &r, s(0.001), s(f64::INFINITY)).unwrap();
    let walked = tree.hit(&Ieee, &r, s(0.001), s(f64::INFINITY)).unwrap();
    // the hit is at the same time, and in both the later asked wins the tie
    assert_eq!(f(scanned.time), 2.0);
    assert_eq!(f(walked.time), 2.0);
    assert_eq!(scanned.material, 1);
    assert_eq!(walked.material, 0);
}

#[test]
fn a_box_without_volume_is_never_hit() {
    // a point has a box without volume, which no window overlaps
    let point = ball((0.0, 0.0, -5.0), 0.0, 0);
    let r = ray((0.0, 0.0, 0.0), (0.0, 0.0, -1.0));
    let inf = s(f64::INFINITY);
    assert!(point.hit(&Ieee, &r, s(0.001), inf).is_some());
    let b = point.bounding_box(&Ieee, s(0.0), s(1.0)).unwrap();
    assert!(!b.does_hit(&Ieee, &r, s(0.001), inf));
    // so that a hierarchy over the point does not find it
    let tree = BVHNode::new(&Ieee, &Counting::new(), vec![point], s(0.0), s(1.0));
    assert!(tree.hit(&Ieee, &r, s(0.001), inf).is_none());
}

#[test]
fn a_ray_along_an_axis_is_inside_a_slab_or_outside_it() {
    let b = aabb((1.0, 1.0, 1.0), (3.0, 3.0, 3.0));
    let inf = s(f64::INFINITY);
    // inside the y and z slabs for all time
    assert!(b.does_hit(&Ieee, &ray((0.0, 2.0, 2.0), (1.0, 0.0, 0.0)), s(0.0), inf));
    // outside the y slab for all time
    assert!(!b.does_hit(&Ieee, &ray((0.0, 4.0, 2.0), (1.0, 0.0, 0.0)), s(0.0), inf));
    // a zero with its sign set is not less than zero: the ends of the slab are
    // not swapped, and the ray counts as outside
    assert!(!b.does_hit(&Ieee, &ray((0.0, 2.0, 2.0), (1.0, -0.0, 0.0)), s(0.0), inf));
}

#[test]
fn the_world_answers_as_the_geometry_it_holds() {
    let sp = sphere((0.0, 0.0, -5.0), 1.0, 3);
    let r = ray((0.0, 0.0, 0.0), (0.0, 0.0, -1.0));
    let inf = s(f64::INFINITY);
    assert_eq!(Hittable::Sphere(sp).hit(&Ieee, &r, s(0.001), inf), sp.hit(&Ieee, &r, s(0.001), inf));
    assert_eq!(Hittable::Sphere(sp).bounding_box(&Ieee, s(0.0), s(1.0)), sp.bounding_box(&Ieee, s(0.0), s(1.0)));
    let through = ray((4.0, 2.0, 0.0), (0.0, 0.0, -1.0));
    assert_eq!(
        Hittable::XYRect(rect()).hit(&Ieee, &through, s(0.001), inf),
        rect().hit(&Ieee, &through, s(0.001), inf)
    );
    assert_eq!(Hittable::XYRect(rect()).bounding_box(&Ieee, s(0.0), s(1.0)), rect().bounding_box(&Ieee, s(0.0), s(1.0)));
    assert_eq!(Hittable::List(HittableList::new()).bounding_box(&Ieee, s(0.0), s(1.0)), None);
    let mut list = HittableList::new();
    list.add(Arc::new(Hittable::Sphere(sp)));
    assert_eq!(Hittable::List(list).hit(&Ieee, &r, s(0.001), inf), sp.hit(&Ieee, &r, s(0.001), inf));
}

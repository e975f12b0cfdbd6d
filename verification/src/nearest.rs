//! The nearest hit, and why a walk of the hierarchy finds the same one as a
//! scan of the list.
//!
//! Both searches are correct for geometry that behaves: things whose answer
//! does not jump when the far end of the window is pulled in ([`steady`]) and
//! that lie in their boxes ([`boxed_safely`]), met by a ray that crosses the
//! planes of those boxes in order ([`orderly`]). Exact geometry behaves so,
//! rays along an axis included. Rounded arithmetic can break a condition by
//! the last bit of a result, which is why they are stated of the geometry at
//! hand and not proved of all geometry. What is proved without condition is
//! that a rectangle is steady, that a sphere is steady as soon as its two
//! roots come in order, that lists and hierarchies of steady things are
//! steady in turn, and that the boxes of a hierarchy hold what is below them
//! and are bounded by planes of what is below them.
use crate::aabb::{lemma_wider_box_is_hit, orderly};
use crate::arithmetic::Arithmetic;
use crate::bvh::{lemma_built_over_encloses, planes_of, BVHNode};
use crate::hittable::{lemma_hit_in_window, spec_scan, HitRecord, Hittable, Sphere, XYRect};
use crate::random::RandomSource;
use crate::ray::Ray;
use crate::scalar::Scalar;
use crate::v3::Axis;
use std::sync::Arc;
use vstd::prelude::*;

verus! {

/// `narrow` is what a search that answered `wide` may answer once the far end
/// of its window is pulled in to `far`: the same hit where that hit is no
/// farther than `far`, and nothing otherwise.
pub open spec fn narrowed(wide: Option<HitRecord>, far: Scalar, narrow: Option<HitRecord>) -> bool {
    match wide {
        Some(h) => if h.time.spec_le(far) {
            narrow == Some(h)
        } else {
            narrow is None
        },
        None => narrow is None,
    }
}

/// Pulling the far end of the window in never changes which hit `h` reports,
/// it only loses the hit once the window ends before it.
pub open spec fn steady<A: Arithmetic>(ar: &A, ray: Ray, t_min: Scalar, h: Hittable) -> bool {
    forall|far: Scalar, nearer: Scalar|
        #![trigger h.spec_hit(ar, ray, t_min, far), h.spec_hit(ar, ray, t_min, nearer)]
        nearer.spec_le(far) ==> narrowed(
            h.spec_hit(ar, ray, t_min, far),
            nearer,
            h.spec_hit(ar, ray, t_min, nearer),
        )
}

/// A rectangle is steady, whatever the arithmetic: the ray crosses its plane
/// at one parameter, which a narrower window either still holds or not.
pub proof fn lemma_rect_is_steady<A: Arithmetic>(ar: &A, ray: Ray, t_min: Scalar, rect: XYRect)
    ensures
        steady(ar, ray, t_min, Hittable::XYRect(rect)),
{
}

/// A sphere is steady for a ray whose two roots come in order.
pub proof fn lemma_sphere_is_steady<A: Arithmetic>(
    ar: &A,
    ray: Ray,
    t_min: Scalar,
    sphere: Sphere,
)
    requires
        sphere.spec_roots(ar, ray).spec_ordered(),
    ensures
        steady(ar, ray, t_min, Hittable::Sphere(sphere)),
{
}

/// Two scans of the same things in step, one in a window that ends at
/// `nearer` and one in a window that ends no earlier: where the wide scan has
/// found a hit no farther than `nearer` the narrow scan has found the same
/// one, and else the narrow scan has found nothing yet.
spec fn in_step(
    nearer: Scalar,
    wide_closest: Scalar,
    wide_found: Option<HitRecord>,
    narrow_closest: Scalar,
    narrow_found: Option<HitRecord>,
) -> bool {
    match wide_found {
        Some(h) => if h.time.spec_le(nearer) {
            narrow_found == wide_found && narrow_closest == h.time && wide_closest == h.time
        } else {
            narrow_found is None && narrow_closest == nearer && nearer.spec_le(wide_closest)
                && wide_closest == h.time
        },
        None => narrow_found is None && narrow_closest == nearer && nearer.spec_le(wide_closest),
    }
}

/// Two scans in step stay in step over steady things.
proof fn lemma_scans_in_step<A: Arithmetic>(
    items: Seq<Arc<Hittable>>,
    ar: &A,
    ray: Ray,
    t_min: Scalar,
    nearer: Scalar,
    wide_closest: Scalar,
    wide_found: Option<HitRecord>,
    narrow_closest: Scalar,
    narrow_found: Option<HitRecord>,
)
    requires
        forall|i: int| 0 <= i < items.len() ==> steady(ar, ray, t_min, *#[trigger] items[i]),
        in_step(nearer, wide_closest, wide_found, narrow_closest, narrow_found),
    ensures
        narrowed(
            spec_scan(items, ar, ray, t_min, wide_closest, wide_found),
            nearer,
            spec_scan(items, ar, ray, t_min, narrow_closest, narrow_found),
        ),
    decreases items.len(),
{
    if items.len() > 0 {
        let x = items[0];
        let rest = items.drop_first();
        let wide_hit = x.spec_hit(ar, ray, t_min, wide_closest);
        let narrow_hit = x.spec_hit(ar, ray, t_min, narrow_closest);
        let (wc, wf) = match wide_hit {
            Some(h) => (h.time, Some(h)),
            None => (wide_closest, wide_found),
        };
        let (nc, nf) = match narrow_hit {
            Some(h) => (h.time, Some(h)),
            None => (narrow_closest, narrow_found),
        };
        lemma_scans_in_step(rest, ar, ray, t_min, nearer, wc, wf, nc, nf);
    }
}

/// A list of steady things is steady.
pub proof fn lemma_list_is_steady<A: Arithmetic>(ar: &A, ray: Ray, t_min: Scalar, list: &Hittable)
    requires
        list matches Hittable::List(l) && forall|i: int|
            0 <= i < l.hittables@.len() ==> steady(ar, ray, t_min, *#[trigger] l.hittables@[i]),
    ensures
        steady(ar, ray, t_min, *list),
{
    if let Hittable::List(l) = list {
        let items = l.hittables@;
        assert forall|far: Scalar, nearer: Scalar|
            #![trigger list.spec_hit(ar, ray, t_min, far), list.spec_hit(ar, ray, t_min, nearer)]
            nearer.spec_le(far) implies narrowed(
            list.spec_hit(ar, ray, t_min, far),
            nearer,
            list.spec_hit(ar, ray, t_min, nearer),
        ) by {
            lemma_scans_in_step(items, ar, ray, t_min, nearer, far, None, nearer, None);
            assert(list.spec_hit(ar, ray, t_min, far) == spec_scan(
                items,
                ar,
                ray,
                t_min,
                far,
                None,
            )) by {
                assert(l.spec_hit(ar, ray, t_min, far) == spec_scan(items, ar, ray, t_min, far, None));
            }
            assert(list.spec_hit(ar, ray, t_min, nearer) == spec_scan(
                items,
                ar,
                ray,
                t_min,
                nearer,
                None,
            )) by {
                assert(l.spec_hit(ar, ray, t_min, nearer) == spec_scan(
                    items,
                    ar,
                    ray,
                    t_min,
                    nearer,
                    None,
                ));
            }
        }
    }
}

/// `h` has a box, and `ray` hits the box in each window in which it hits `h`.
pub open spec fn boxed_safely<A: Arithmetic>(ar: &A, ray: Ray, t_min: Scalar, h: Hittable) -> bool {
    forall|t_max: Scalar|
        (#[trigger] h.spec_hit(ar, ray, t_min, t_max)) is Some ==> (h.spec_bounding_box(
            ar,
        ) matches Some(b) && b.spec_does_hit(ar, ray, t_min, t_max))
}

/// `r` is the nearest hit of `ray` in `[t_min, t_max]` among the things in
/// `among`: no hit at all where none of them is hit, and else the hit of one
/// of them than which none of them has a nearer.
pub open spec fn nearest_among<A: Arithmetic>(
    among: Set<Arc<Hittable>>,
    ar: &A,
    ray: Ray,
    t_min: Scalar,
    t_max: Scalar,
    r: Option<HitRecord>,
) -> bool {
    match r {
        None => forall|p: Arc<Hittable>|
            among.contains(p) ==> (#[trigger] p.spec_hit(ar, ray, t_min, t_max)) is None,
        Some(h) => {
            &&& exists|p: Arc<Hittable>|
                among.contains(p) && #[trigger] p.spec_hit(ar, ray, t_min, t_max) == Some(h)
            &&& forall|q: Arc<Hittable>|
                among.contains(q) ==> (#[trigger] q.spec_hit(ar, ray, t_min, t_max) matches Some(
                    other,
                ) ==> h.time.spec_le(other.time))
        },
    }
}

/// No two different things in `among` are hit at the same time.
pub open spec fn no_ties<A: Arithmetic>(
    among: Set<Arc<Hittable>>,
    ar: &A,
    ray: Ray,
    t_min: Scalar,
    t_max: Scalar,
) -> bool {
    forall|p: Arc<Hittable>, q: Arc<Hittable>|
        among.contains(p) && among.contains(q) && p != q ==> (#[trigger] p.spec_hit(
            ar,
            ray,
            t_min,
            t_max,
        ) matches Some(a) ==> (#[trigger] q.spec_hit(ar, ray, t_min, t_max) matches Some(b)
            ==> a.time.key() != b.time.key()))
}

impl BVHNode {
    /// At this node of the hierarchy over `row`, and at every node below,
    /// `ray` hits the node's box in each window in which it hits something
    /// below the node.
    pub open spec fn prunes_safely<A: Arithmetic>(
        &self,
        ar: &A,
        ray: Ray,
        t_min: Scalar,
        row: Seq<Arc<Hittable>>,
    ) -> bool
        decreases row.len(),
    {
        &&& forall|p: Arc<Hittable>, t_max: Scalar|
            row.contains(p) && (#[trigger] p.spec_hit(ar, ray, t_min, t_max)) is Some
                ==> self.bounding_box.spec_does_hit(ar, ray, t_min, t_max)
        &&& row.len() > 2 ==> {
            let mid = (row.len() / 2) as int;
            &&& *self.left matches Hittable::Node(l) ==> l.prunes_safely(
                ar,
                ray,
                t_min,
                row.subrange(0, mid),
            )
            &&& *self.right matches Hittable::Node(r) ==> r.prunes_safely(
                ar,
                ray,
                t_min,
                row.subrange(mid, row.len() as int),
            )
        }
    }
}

/// Two answers that are both the nearest hit among the same things agree on
/// whether there is a hit, and on its time; where no two things are hit at
/// the same time, they are the same answer.
pub proof fn lemma_nearest_is_unique<A: Arithmetic>(
    among: Set<Arc<Hittable>>,
    ar: &A,
    ray: Ray,
    t_min: Scalar,
    t_max: Scalar,
    r1: Option<HitRecord>,
    r2: Option<HitRecord>,
)
    requires
        nearest_among(among, ar, ray, t_min, t_max, r1),
        nearest_among(among, ar, ray, t_min, t_max, r2),
    ensures
        r1 is Some <==> r2 is Some,
        r1 matches Some(a) ==> (r2 matches Some(b) ==> a.time.key() == b.time.key()),
        no_ties(among, ar, ray, t_min, t_max) ==> r1 == r2,
{
    if let Some(a) = r1 {
        let p = choose|p: Arc<Hittable>|
            among.contains(p) && #[trigger] p.spec_hit(ar, ray, t_min, t_max) == Some(a);
        if let Some(b) = r2 {
            let q = choose|q: Arc<Hittable>|
                among.contains(q) && #[trigger] q.spec_hit(ar, ray, t_min, t_max) == Some(b);
        }
    } else if let Some(b) = r2 {
        let q = choose|q: Arc<Hittable>|
            among.contains(q) && #[trigger] q.spec_hit(ar, ray, t_min, t_max) == Some(b);
    }
}

/// What one thing answers is the nearest hit among that one thing.
proof fn lemma_alone<A: Arithmetic>(
    p: Arc<Hittable>,
    ar: &A,
    ray: Ray,
    t_min: Scalar,
    t_max: Scalar,
)
    ensures
        nearest_among(set![p], ar, ray, t_min, t_max, p.spec_hit(ar, ray, t_min, t_max)),
{
    lemma_hit_in_window(&p, ar, ray, t_min, t_max);
}

/// The hit that the right side reports in the window cut at the left side's
/// hit, or else the left side's hit, is the nearest of both sides.
proof fn lemma_combine<A: Arithmetic>(
    left: Set<Arc<Hittable>>,
    right: Set<Arc<Hittable>>,
    both: Set<Arc<Hittable>>,
    ar: &A,
    ray: Ray,
    t_min: Scalar,
    t_max: Scalar,
    hit_left: Option<HitRecord>,
    hit_right: Option<HitRecord>,
)
    requires
        forall|p: Arc<Hittable>| both.contains(p) <==> left.contains(p) || right.contains(p),
        forall|p: Arc<Hittable>| both.contains(p) ==> steady(ar, ray, t_min, *p),
        nearest_among(left, ar, ray, t_min, t_max, hit_left),
        hit_left matches Some(h) ==> nearest_among(right, ar, ray, t_min, h.time, hit_right),
        hit_left is None ==> nearest_among(right, ar, ray, t_min, t_max, hit_right),
    ensures
        nearest_among(
            both,
            ar,
            ray,
            t_min,
            t_max,
            match hit_right {
                Some(h) => Some(h),
                None => hit_left,
            },
        ),
{
    match hit_left {
        None => {
            match hit_right {
                None => {},
                Some(hr) => {
                    let p = choose|p: Arc<Hittable>|
                        right.contains(p) && #[trigger] p.spec_hit(ar, ray, t_min, t_max) == Some(
                            hr,
                        );
                },
            }
        },
        Some(hl) => {
            let pl = choose|p: Arc<Hittable>|
                left.contains(p) && #[trigger] p.spec_hit(ar, ray, t_min, t_max) == Some(hl);
            lemma_hit_in_window(&pl, ar, ray, t_min, t_max);
            match hit_right {
                None => {
                    assert forall|q: Arc<Hittable>| both.contains(q) implies (
                    #[trigger] q.spec_hit(ar, ray, t_min, t_max) matches Some(other)
                        ==> hl.time.spec_le(other.time)) by {
                        if right.contains(q) {
                            assert(steady(ar, ray, t_min, *q));
                            let wide = q.spec_hit(ar, ray, t_min, t_max);
                            let narrow = q.spec_hit(ar, ray, t_min, hl.time);
                            assert(narrowed(wide, hl.time, narrow));
                            assert(narrow is None);
                            lemma_hit_in_window(&q, ar, ray, t_min, t_max);
                        }
                    }
                },
                Some(hr) => {
                    let pr = choose|p: Arc<Hittable>|
                        right.contains(p) && #[trigger] p.spec_hit(ar, ray, t_min, hl.time)
                            == Some(hr);
                    assert(pr.spec_hit(ar, ray, t_min, t_max) == Some(hr));
                    assert forall|q: Arc<Hittable>| both.contains(q) implies (
                    #[trigger] q.spec_hit(ar, ray, t_min, t_max) matches Some(other)
                        ==> hr.time.spec_le(other.time)) by {
                        lemma_hit_in_window(&q, ar, ray, t_min, t_max);
                        if right.contains(q) {
                            assert(steady(ar, ray, t_min, *q));
                            let wide = q.spec_hit(ar, ray, t_min, t_max);
                            let narrow = q.spec_hit(ar, ray, t_min, hl.time);
                            assert(narrowed(wide, hl.time, narrow));
                        }
                    }
                },
            }
        },
    }
}

/// A walk of the hierarchy over a row finds the nearest hit among the things
/// of the row.
pub proof fn lemma_walk_finds_nearest<A: Arithmetic, S: RandomSource>(
    node: &BVHNode,
    row: Seq<Arc<Hittable>>,
    ar: &A,
    source: &S,
    ray: Ray,
    t_min: Scalar,
    t_max: Scalar,
)
    requires
        node.built_over(ar, source, row),
        node.prunes_safely(ar, ray, t_min, row),
        forall|p: Arc<Hittable>| row.contains(p) ==> steady(ar, ray, t_min, *p),
    ensures
        nearest_among(row.to_set(), ar, ray, t_min, t_max, node.spec_hit(ar, ray, t_min, t_max)),
    decreases row.len(),
{
    if node.bounding_box.spec_does_hit(ar, ray, t_min, t_max) {
        let hit_left = node.left.spec_hit(ar, ray, t_min, t_max);
        let far = match hit_left {
            Some(h) => h.time,
            None => t_max,
        };
        let hit_right = node.right.spec_hit(ar, ray, t_min, far);
        if row.len() <= 2 {
            lemma_alone(node.left, ar, ray, t_min, t_max);
            lemma_alone(node.right, ar, ray, t_min, far);
            lemma_combine(
                set![node.left],
                set![node.right],
                row.to_set(),
                ar,
                ray,
                t_min,
                t_max,
                hit_left,
                hit_right,
            );
        } else {
            let mid = (row.len() / 2) as int;
            let first = row.subrange(0, mid);
            let second = row.subrange(mid, row.len() as int);
            assert(row == first + second);
            assert forall|p: Arc<Hittable>| first.contains(p) || second.contains(
                p,
            ) implies row.contains(p) by {
                vstd::seq_lib::lemma_seq_concat_contains_all_elements(first, second, p);
            }
            if let (Hittable::Node(l), Hittable::Node(r)) = (&*node.left, &*node.right) {
                lemma_walk_finds_nearest(l, first, ar, source, ray, t_min, t_max);
                lemma_walk_finds_nearest(r, second, ar, source, ray, t_min, far);
            }
            lemma_combine(
                first.to_set(),
                second.to_set(),
                row.to_set(),
                ar,
                ray,
                t_min,
                t_max,
                hit_left,
                hit_right,
            );
        }
    }
}

/// A scan that has found `found` as the nearest hit among `done`, and goes on
/// over `rest` with the window cut at that hit, ends with the nearest hit
/// among all of them.
proof fn lemma_scan_step<A: Arithmetic>(
    done: Seq<Arc<Hittable>>,
    rest: Seq<Arc<Hittable>>,
    ar: &A,
    ray: Ray,
    t_min: Scalar,
    t_max: Scalar,
    closest: Scalar,
    found: Option<HitRecord>,
)
    requires
        forall|p: Arc<Hittable>| (done + rest).contains(p) ==> steady(ar, ray, t_min, *p),
        nearest_among(done.to_set(), ar, ray, t_min, t_max, found),
        found matches Some(h) ==> closest == h.time,
        found is None ==> closest == t_max,
    ensures
        nearest_among(
            (done + rest).to_set(),
            ar,
            ray,
            t_min,
            t_max,
            spec_scan(rest, ar, ray, t_min, closest, found),
        ),
    decreases rest.len(),
{
    if rest.len() == 0 {
    } else {
        let x = rest[0];
        let next = done.push(x);
        let hit_x = x.spec_hit(ar, ray, t_min, closest);
        assert(next + rest.drop_first() == done + rest);
        assert(next.contains(x)) by {
            assert(next[done.len() as int] == x);
        }
        assert forall|p: Arc<Hittable>| next.to_set().contains(p) <==> done.to_set().contains(p)
            || set![x].contains(p) by {
            if next.contains(p) {
                let i = choose|i: int| 0 <= i < next.len() && next[i] == p;
                if i < done.len() {
                    assert(done[i] == p);
                }
            }
            if done.contains(p) {
                let i = choose|i: int| 0 <= i < done.len() && done[i] == p;
                assert(next[i] == p);
            }
        }
        assert forall|p: Arc<Hittable>| next.to_set().contains(p) implies steady(
            ar,
            ray,
            t_min,
            *p,
        ) by {
            vstd::seq_lib::lemma_seq_concat_contains_all_elements(next, rest.drop_first(), p);
        }
        lemma_alone(x, ar, ray, t_min, closest);
        lemma_combine(
            done.to_set(),
            set![x],
            next.to_set(),
            ar,
            ray,
            t_min,
            t_max,
            found,
            hit_x,
        );
        let merged = match hit_x {
            Some(h) => Some(h),
            None => found,
        };
        let new_closest = match hit_x {
            Some(h) => h.time,
            None => closest,
        };
        lemma_scan_step(next, rest.drop_first(), ar, ray, t_min, t_max, new_closest, merged);
    }
}

/// A scan of a list finds the nearest hit among the things of the list.
pub proof fn lemma_scan_finds_nearest<A: Arithmetic>(
    items: Seq<Arc<Hittable>>,
    ar: &A,
    ray: Ray,
    t_min: Scalar,
    t_max: Scalar,
)
    requires
        forall|p: Arc<Hittable>| items.contains(p) ==> steady(ar, ray, t_min, *p),
    ensures
        nearest_among(
            items.to_set(),
            ar,
            ray,
            t_min,
            t_max,
            spec_scan(items, ar, ray, t_min, t_max, None),
        ),
{
    let done = Seq::<Arc<Hittable>>::empty();
    lemma_scan_step(done, items, ar, ray, t_min, t_max, t_max, None);
}

/// A walk of the hierarchy built over a list reports a hit exactly when a scan
/// of the list does, and at the same time; where no two things of the list are
/// hit at the same time it reports the same hit, with the same material.
pub proof fn lemma_walk_agrees_with_scan<A: Arithmetic, S: RandomSource>(
    node: &BVHNode,
    row: Seq<Arc<Hittable>>,
    list: Seq<Arc<Hittable>>,
    ar: &A,
    source: &S,
    ray: Ray,
    t_min: Scalar,
    t_max: Scalar,
)
    requires
        node.built_over(ar, source, row),
        row.to_multiset() == list.to_multiset(),
        node.prunes_safely(ar, ray, t_min, row),
        forall|p: Arc<Hittable>| list.contains(p) ==> steady(ar, ray, t_min, *p),
    ensures
        ({
            let walked = node.spec_hit(ar, ray, t_min, t_max);
            let scanned = spec_scan(list, ar, ray, t_min, t_max, None);
            &&& walked is Some <==> scanned is Some
            &&& walked matches Some(a) ==> (scanned matches Some(b) ==> a.time.key()
                == b.time.key())
            &&& no_ties(list.to_set(), ar, ray, t_min, t_max) ==> walked == scanned
        }),
{
    broadcast use vstd::seq_lib::group_to_multiset_ensures;

    assert forall|p: Arc<Hittable>| row.contains(p) <==> list.contains(p) by {
        assert(row.contains(p) <==> row.to_multiset().count(p) > 0);
        assert(list.contains(p) <==> list.to_multiset().count(p) > 0);
    }
    // both searches find the nearest hit among the same things
    assert(row.to_set() == list.to_set());
    lemma_walk_finds_nearest(node, row, ar, source, ray, t_min, t_max);
    lemma_scan_finds_nearest(list, ar, ray, t_min, t_max);
    lemma_nearest_is_unique(
        list.to_set(),
        ar,
        ray,
        t_min,
        t_max,
        node.spec_hit(ar, ray, t_min, t_max),
        spec_scan(list, ar, ray, t_min, t_max, None),
    );
}

/// The hierarchy over things that each lie safely in a well-formed box of
/// their own prunes safely, for a ray that crosses the planes of those boxes
/// in order: the boxes of the hierarchy are unions, and a union is hit
/// wherever a box that it unites is hit.
pub proof fn lemma_built_over_prunes_safely<A: Arithmetic, S: RandomSource>(
    node: &BVHNode,
    row: Seq<Arc<Hittable>>,
    ar: &A,
    source: &S,
    ray: Ray,
    t_min: Scalar,
)
    requires
        node.built_over(ar, source, row),
        forall|i: int|
            0 <= i < row.len() ==> (#[trigger] row[i].spec_bounding_box(ar) matches Some(b)
                && b.well_formed()),
        forall|p: Arc<Hittable>| row.contains(p) ==> boxed_safely(ar, ray, t_min, *p),
        orderly(ar, ray, planes_of(ar, row)),
    ensures
        node.prunes_safely(ar, ray, t_min, row),
    decreases row.len(),
{
    lemma_built_over_encloses(node, ar, source, row);
    assert forall|p: Arc<Hittable>, t_max: Scalar|
        row.contains(p) && (#[trigger] p.spec_hit(
            ar,
            ray,
            t_min,
            t_max,
        )) is Some implies node.bounding_box.spec_does_hit(ar, ray, t_min, t_max) by {
        let i = choose|i: int| 0 <= i < row.len() && row[i] == p;
        assert(boxed_safely(ar, ray, t_min, *p));
        lemma_hit_in_window(&p, ar, ray, t_min, t_max);
        assert(row[i].spec_bounding_box(ar) is Some);
        assert(p.spec_bounding_box(ar)->0.planes().subset_of(planes_of(ar, row)));
        lemma_wider_box_is_hit(
            node.bounding_box,
            p.spec_bounding_box(ar)->0,
            ar,
            ray,
            t_min,
            t_max,
            planes_of(ar, row),
        );
    }
    if row.len() > 2 {
        let mid = (row.len() / 2) as int;
        let first = row.subrange(0, mid);
        let second = row.subrange(mid, row.len() as int);
        assert forall|p: Arc<Hittable>| first.contains(p) || second.contains(p) implies row.contains(
            p,
        ) by {
            vstd::seq_lib::lemma_seq_concat_contains_all_elements(first, second, p);
        }
        if let (Hittable::Node(l), Hittable::Node(r)) = (&*node.left, &*node.right) {
            lemma_built_over_prunes_safely(l, first, ar, source, ray, t_min);
            lemma_built_over_prunes_safely(r, second, ar, source, ray, t_min);
        }
    }
}

/// A walk of the hierarchy built over a list finds what a scan of the list
/// finds, wherever the geometry behaves: each thing of the list is steady and
/// lies safely in a well-formed box of its own, and the ray crosses the planes
/// of those boxes in order. The walk then reports a hit exactly when the scan
/// does, and at the same time; where no two things of the list are hit at the
/// same time it reports the same hit, with the same material.
pub proof fn lemma_hierarchy_agrees_with_list<A: Arithmetic, S: RandomSource>(
    node: &BVHNode,
    row: Seq<Arc<Hittable>>,
    list: Seq<Arc<Hittable>>,
    ar: &A,
    source: &S,
    ray: Ray,
    t_min: Scalar,
    t_max: Scalar,
)
    requires
        node.built_over(ar, source, row),
        row.to_multiset() == list.to_multiset(),
        forall|i: int|
            0 <= i < list.len() ==> (#[trigger] list[i].spec_bounding_box(ar) matches Some(b)
                && b.well_formed()),
        forall|p: Arc<Hittable>| list.contains(p) ==> steady(ar, ray, t_min, *p),
        forall|p: Arc<Hittable>| list.contains(p) ==> boxed_safely(ar, ray, t_min, *p),
        orderly(ar, ray, planes_of(ar, list)),
    ensures
        ({
            let walked = node.spec_hit(ar, ray, t_min, t_max);
            let scanned = spec_scan(list, ar, ray, t_min, t_max, None);
            &&& walked is Some <==> scanned is Some
            &&& walked matches Some(a) ==> (scanned matches Some(b) ==> a.time.key()
                == b.time.key())
            &&& no_ties(list.to_set(), ar, ray, t_min, t_max) ==> walked == scanned
        }),
{
    broadcast use vstd::seq_lib::group_to_multiset_ensures;

    assert forall|p: Arc<Hittable>| row.contains(p) <==> list.contains(p) by {
        assert(row.contains(p) <==> row.to_multiset().count(p) > 0);
        assert(list.contains(p) <==> list.to_multiset().count(p) > 0);
    }
    assert forall|i: int| 0 <= i < row.len() implies (#[trigger] row[i].spec_bounding_box(
        ar,
    ) matches Some(b) && b.well_formed()) by {
        assert(row.contains(row[i]));
        assert(list.contains(row[i]));
        let j = choose|j: int| 0 <= j < list.len() && list[j] == row[i];
        assert(list[j].spec_bounding_box(ar) is Some);
    }
    // the row holds what the list holds, bounded by the same planes
    assert forall|p: (Axis, Scalar)| planes_of(ar, row).contains(p) implies planes_of(
        ar,
        list,
    ).contains(p) by {
        let i = choose|i: int|
            0 <= i < row.len() && (#[trigger] row[i]).spec_bounding_box(ar) is Some && (
            row[i].spec_bounding_box(ar)->0).planes().contains(p);
        assert(list.contains(row[i]));
        let j = choose|j: int| 0 <= j < list.len() && list[j] == row[i];
        assert(list[j].spec_bounding_box(ar) is Some);
    }
    lemma_built_over_prunes_safely(node, row, ar, source, ray, t_min);
    lemma_walk_agrees_with_scan(node, row, list, ar, source, ray, t_min, t_max);
}

/// What one side of a node answers in the window that ends at `far`, and what
/// it answers once the window is pulled in to `nearer`, are in step, and an
/// answer is the answer of a thing of the row.
proof fn lemma_side_in_step<A: Arithmetic, S: RandomSource>(
    node: &BVHNode,
    row: Seq<Arc<Hittable>>,
    left: bool,
    ar: &A,
    source: &S,
    ray: Ray,
    t_min: Scalar,
    far: Scalar,
    nearer: Scalar,
)
    requires
        node.built_over(ar, source, row),
        node.prunes_safely(ar, ray, t_min, row),
        forall|p: Arc<Hittable>| row.contains(p) ==> steady(ar, ray, t_min, *p),
        nearer.spec_le(far),
    ensures
        ({
            let side = if left {
                node.left
            } else {
                node.right
            };
            &&& narrowed(
                side.spec_hit(ar, ray, t_min, far),
                nearer,
                side.spec_hit(ar, ray, t_min, nearer),
            )
            &&& side.spec_hit(ar, ray, t_min, far) is Some ==> exists|p: Arc<Hittable>|
                row.contains(p) && #[trigger] p.spec_hit(ar, ray, t_min, far) == side.spec_hit(
                    ar,
                    ray,
                    t_min,
                    far,
                )
        }),
    decreases row.len(), 0int,
{
    let side = if left {
        node.left
    } else {
        node.right
    };
    if row.len() <= 2 {
        // the side is a thing of the row
        assert(row.contains(side));
    } else {
        let mid = (row.len() / 2) as int;
        let first = row.subrange(0, mid);
        let second = row.subrange(mid, row.len() as int);
        assert forall|p: Arc<Hittable>| first.contains(p) || second.contains(p) implies row.contains(
            p,
        ) by {
            vstd::seq_lib::lemma_seq_concat_contains_all_elements(first, second, p);
        }
        if let (Hittable::Node(l), Hittable::Node(r)) = (&*node.left, &*node.right) {
            if left {
                lemma_walks_in_step(l, first, ar, source, ray, t_min, far, nearer);
                lemma_walk_finds_nearest(l, first, ar, source, ray, t_min, far);
            } else {
                lemma_walks_in_step(r, second, ar, source, ray, t_min, far, nearer);
                lemma_walk_finds_nearest(r, second, ar, source, ray, t_min, far);
            }
        }
    }
}

/// What a walk answers in the window that ends at `far`, and what it answers
/// once the window is pulled in to `nearer`, are in step.
proof fn lemma_walks_in_step<A: Arithmetic, S: RandomSource>(
    node: &BVHNode,
    row: Seq<Arc<Hittable>>,
    ar: &A,
    source: &S,
    ray: Ray,
    t_min: Scalar,
    far: Scalar,
    nearer: Scalar,
)
    requires
        node.built_over(ar, source, row),
        node.prunes_safely(ar, ray, t_min, row),
        forall|p: Arc<Hittable>| row.contains(p) ==> steady(ar, ray, t_min, *p),
        nearer.spec_le(far),
    ensures
        narrowed(
            node.spec_hit(ar, ray, t_min, far),
            nearer,
            node.spec_hit(ar, ray, t_min, nearer),
        ),
    decreases row.len(), 1int,
{
    let left_wide = node.left.spec_hit(ar, ray, t_min, far);
    let left_narrow = node.left.spec_hit(ar, ray, t_min, nearer);
    let cut_wide = match left_wide {
        Some(h) => h.time,
        None => far,
    };
    let cut_narrow = match left_narrow {
        Some(h) => h.time,
        None => nearer,
    };
    let right_wide = node.right.spec_hit(ar, ray, t_min, cut_wide);
    let right_narrow = node.right.spec_hit(ar, ray, t_min, cut_narrow);
    // each side is in step with itself, and whatever it answers is the answer
    // of a thing below, so that the ray hits the box of the node in the
    // window of the answer
    lemma_side_in_step(node, row, true, ar, source, ray, t_min, far, nearer);
    lemma_side_in_step(node, row, true, ar, source, ray, t_min, nearer, nearer);
    if cut_narrow != cut_wide {
        lemma_side_in_step(node, row, false, ar, source, ray, t_min, cut_wide, nearer);
    }
    lemma_side_in_step(node, row, false, ar, source, ray, t_min, cut_narrow, cut_narrow);
}

/// A hierarchy over steady things that prunes safely is steady.
pub proof fn lemma_hierarchy_is_steady<A: Arithmetic, S: RandomSource>(
    ar: &A,
    source: &S,
    ray: Ray,
    t_min: Scalar,
    hierarchy: &Hittable,
    row: Seq<Arc<Hittable>>,
)
    requires
        hierarchy matches Hittable::Node(n) && n.built_over(ar, source, row) && n.prunes_safely(
            ar,
            ray,
            t_min,
            row,
        ),
        forall|p: Arc<Hittable>| row.contains(p) ==> steady(ar, ray, t_min, *p),
    ensures
        steady(ar, ray, t_min, *hierarchy),
{
    if let Hittable::Node(n) = hierarchy {
        assert forall|far: Scalar, nearer: Scalar|
            #![trigger
                hierarchy.spec_hit(ar, ray, t_min, far),
                hierarchy.spec_hit(ar, ray, t_min, nearer)
            ]
            nearer.spec_le(far) implies narrowed(
            hierarchy.spec_hit(ar, ray, t_min, far),
            nearer,
            hierarchy.spec_hit(ar, ray, t_min, nearer),
        ) by {
            lemma_walks_in_step(n, row, ar, source, ray, t_min, far, nearer);
        }
    }
}

} // verus!

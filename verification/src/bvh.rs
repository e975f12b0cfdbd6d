//! The bounding-volume hierarchy: a binary tree of boxes over what can be
//! hit, built by recursive splitting and walked with pruning.
use crate::aabb::{lemma_encloses_transitive, lemma_add_encloses, lemma_add_planes, AABB};
use crate::arithmetic::{exact, Arithmetic};
use crate::hittable::{HitRecord, Hittable};
use crate::order::{
    ascending, bounded, box_before, box_key, box_precedes, rearranged, share, sort_by_axis,
    sortable,
};
use crate::random::{may_draw_index, settled, RandomSource};
use crate::ray::Ray;
use crate::scalar::Scalar;
use crate::v3::Axis;
use std::sync::Arc;
use vstd::pervasive::unreached;
use vstd::prelude::*;

verus! {

/// A node of the hierarchy: two children, each a leaf or a subtree, and a box
/// that holds both.
#[derive(PartialEq, Eq, Debug)]
pub struct BVHNode {
    pub left: Arc<Hittable>,
    pub right: Arc<Hittable>,
    pub bounding_box: AABB,
}

/// The axis that the random value `i` selects.
pub open spec fn spec_axis_of(i: usize) -> Axis {
    if i % 3 == 0 {
        Axis::X
    } else if i % 3 == 1 {
        Axis::Y
    } else {
        Axis::Z
    }
}

/// The axis that the random value `i` selects: x, y or z as `i` leaves the
/// remainder 0, 1 or 2 on division by three.
pub fn axis_of(i: usize) -> (r: Axis)
    ensures
        r == spec_axis_of(i),
{
    let m: usize = i % 3;
    if m == 0 {
        Axis::X
    } else if m == 1 {
        Axis::Y
    } else {
        Axis::Z
    }
}

/// `axis` is an axis that a draw from `source` may select.
pub open spec fn may_pick<S: RandomSource>(source: &S, axis: Axis) -> bool {
    exists|i: usize| may_draw_index(source, i) && axis == #[trigger] spec_axis_of(i)
}

/// One of the three axes, drawn afresh at each call: the axis that a fresh
/// index from `source` selects.
pub fn random_axis<S: RandomSource>(source: &S) -> (r: Axis)
    ensures
        may_pick(source, r),
{
    let i: usize = source.index();
    axis_of(i)
}

/// Along `axis`, nothing of `s` before position `mid` comes after anything at
/// or behind it.
pub open spec fn partitioned<A: Arithmetic>(
    ar: &A,
    axis: Axis,
    s: Seq<Arc<Hittable>>,
    mid: int,
) -> bool {
    forall|i: int, j: int|
        0 <= i < mid <= j < s.len() ==> box_key(ar, *s[i], axis).key() <= box_key(
            ar,
            *s[j],
            axis,
        ).key()
}

impl BVHNode {
    /// The tree is the hierarchy over the row `s`.
    ///
    /// Over a row of one, both sides are that one thing. Over a row of two,
    /// each side is one of the two, the one that comes first along the axis
    /// drawn for the node on the left. A longer row is split in the middle:
    /// the left side is the hierarchy over the first half and the right side
    /// the hierarchy over the rest, and along the axis drawn for the node
    /// nothing of the first half comes after anything of the rest. Each axis
    /// is one that a draw from `source` may select. At every node the box is
    /// the union of the boxes of its two sides.
    pub open spec fn built_over<A: Arithmetic, S: RandomSource>(
        &self,
        ar: &A,
        source: &S,
        s: Seq<Arc<Hittable>>,
    ) -> bool
        decreases s.len(),
    {
        &&& self.left.spec_bounding_box(ar) is Some
        &&& self.right.spec_bounding_box(ar) is Some
        &&& self.bounding_box == (self.left.spec_bounding_box(ar)->0).spec_add(
            self.right.spec_bounding_box(ar)->0,
        )
        &&& if s.len() < 1 {
            false
        } else if s.len() == 1 {
            self.left == s[0] && self.right == s[0]
        } else if s.len() == 2 {
            exists|axis: Axis|
                #![trigger may_pick(source, axis)]
                may_pick(source, axis) && if box_before(ar, axis, *s[0], *s[1]) {
                    self.left == s[0] && self.right == s[1]
                } else {
                    self.left == s[1] && self.right == s[0]
                }
        } else {
            let mid = (s.len() / 2) as int;
            &&& *self.left matches Hittable::Node(l) && l.built_over(ar, source, s.subrange(0, mid))
            &&& *self.right matches Hittable::Node(r) && r.built_over(
                ar,
                source,
                s.subrange(mid, s.len() as int),
            )
            &&& exists|axis: Axis|
                #![trigger may_pick(source, axis)]
                may_pick(source, axis) && partitioned(ar, axis, s, mid)
        }
    }

    /// The hierarchy over `hittable_list`, with its axes drawn from `source`.
    /// The list must not be empty and everything in it must have a box; from
    /// two things on, the minimum corner of each box must be made of numbers.
    pub fn new<A: Arithmetic, S: RandomSource>(
        ar: &A,
        source: &S,
        hittable_list: Vec<Arc<Hittable>>,
        t_0: Scalar,
        t_1: Scalar,
    ) -> (r: BVHNode)
        requires
            exact(ar),
            hittable_list@.len() >= 1,
            forall|i: int| 0 <= i < hittable_list@.len() ==> bounded(ar, #[trigger] *hittable_list@[i]),
            hittable_list@.len() >= 2 ==> forall|i: int|
                0 <= i < hittable_list@.len() ==> sortable(ar, #[trigger] *hittable_list@[i]),
        ensures
            exists|row: Seq<Arc<Hittable>>|
                row.to_multiset() == hittable_list@.to_multiset() && r.built_over(ar, source, row),
    {
        let mut objects: Vec<Arc<Hittable>> = hittable_list;
        let length: usize = objects.len();
        let node: BVHNode = make_bvh_node(ar, source, &mut objects, 0, length, t_0, t_1);
        proof {
            assert(hittable_list@.subrange(0, length as int) == hittable_list@);
        }
        node
    }

    /// The nearest hit of `ray` in `[t_min, t_max]`, found by walking the
    /// tree. A ray that misses the node's box hits nothing below it. Else the
    /// left side is asked first; the right side is then asked for a hit no
    /// farther than the left one, and its answer is taken where it has one.
    pub open spec fn spec_hit<A: Arithmetic>(
        &self,
        ar: &A,
        ray: Ray,
        t_min: Scalar,
        t_max: Scalar,
    ) -> Option<HitRecord>
        decreases self, 1int,
    {
        if !self.bounding_box.spec_does_hit(ar, ray, t_min, t_max) {
            None
        } else {
            match self.left.spec_hit(ar, ray, t_min, t_max) {
                Some(hit_left) => match self.right.spec_hit(ar, ray, t_min, hit_left.time) {
                    Some(hit_right) => Some(hit_right),
                    None => Some(hit_left),
                },
                None => self.right.spec_hit(ar, ray, t_min, t_max),
            }
        }
    }

    /// The nearest hit of `ray` in `[t_min, t_max]`, found by walking the tree.
    pub fn hit<A: Arithmetic>(&self, ar: &A, ray: &Ray, t_min: Scalar, t_max: Scalar) -> (r: Option<
        HitRecord,
    >)
        requires
            exact(ar),
        ensures
            r == self.spec_hit(ar, *ray, t_min, t_max),
        decreases self,
    {
        if !self.bounding_box.does_hit(ar, ray, t_min, t_max) {
            return None;
        }
        let hit_left: Option<HitRecord> = self.left.hit(ar, ray, t_min, t_max);
        if let Some(hit_record) = hit_left {
            match self.right.hit(ar, ray, t_min, hit_record.time) {
                Some(nearer) => Some(nearer),
                None => Some(hit_record),
            }
        } else {
            self.right.hit(ar, ray, t_min, t_max)
        }
    }

    /// The box that the node stores.
    pub fn bounding_box(&self, t_0: Scalar, t_1: Scalar) -> (r: Option<AABB>)
        ensures
            r == Some(self.bounding_box),
    {
        Some(self.bounding_box)
    }

    /// Every sphere and rectangle below, however deep, names a material below
    /// `count`.
    pub open spec fn materials_below(&self, count: usize) -> bool
        decreases self, 1int,
    {
        self.left.materials_below(count) && self.right.materials_below(count)
    }

    /// Whether every sphere and rectangle here, however deep, names a material
    /// below `count`.
    pub fn has_materials_below(&self, count: usize) -> (r: bool)
        ensures
            r == self.materials_below(count),
        decreases self,
    {
        self.left.has_materials_below(count) && self.right.has_materials_below(count)
    }
}

/// Builds the hierarchy over what stands at the positions from `start` up to
/// `end` of `objects`, rearranging it among those positions on the way. At
/// each node a fresh axis, drawn from `source`, decides the order: one draw
/// for the node, then the draws of the left side, then those of the right.
pub fn make_bvh_node<A: Arithmetic, S: RandomSource>(
    ar: &A,
    source: &S,
    objects: &mut Vec<Arc<Hittable>>,
    start: usize,
    end: usize,
    t_0: Scalar,
    t_1: Scalar,
) -> (node: BVHNode)
    requires
        exact(ar),
        start < end <= old(objects)@.len(),
        forall|i: int| start <= i < end ==> bounded(ar, #[trigger] *old(objects)@[i]),
        end - start >= 2 ==> forall|i: int|
            start <= i < end ==> sortable(ar, #[trigger] *old(objects)@[i]),
    ensures
        rearranged(old(objects)@, final(objects)@, start, end),
        node.built_over(ar, source, final(objects)@.subrange(start as int, end as int)),
    decreases end - start,
{
    let axis: Axis = random_axis(source);
    let object_span: usize = end - start;

    let (left, right): (Arc<Hittable>, Arc<Hittable>) = if object_span == 1 {
        (share(&objects[start]), share(&objects[start]))
    } else if object_span == 2 {
        if box_precedes(ar, axis, &objects[start], &objects[start + 1]) {
            (share(&objects[start]), share(&objects[start + 1]))
        } else {
            (share(&objects[start + 1]), share(&objects[start]))
        }
    } else {
        sort_by_axis(ar, axis, objects, start, end);
        let ghost sorted = objects@;
        let mid: usize = start + object_span / 2;
        proof {
            lemma_rearranged_keeps(ar, old(objects)@, sorted, start, end);
        }
        let left: BVHNode = make_bvh_node(ar, source, objects, start, mid, t_0, t_1);
        let ghost halfway = objects@;
        let right: BVHNode = make_bvh_node(ar, source, objects, mid, end, t_0, t_1);
        proof {
            let done = objects@;
            let row_done = done.subrange(start as int, end as int);
            let m = (mid - start) as int;
            assert(row_done.subrange(0, m) == done.subrange(start as int, mid as int));
            assert(row_done.subrange(m, row_done.len() as int) == done.subrange(
                mid as int,
                end as int,
            ));
            assert(done.subrange(start as int, mid as int) == halfway.subrange(
                start as int,
                mid as int,
            ));
            lemma_rearranged_halves(old(objects)@, sorted, halfway, done, start, mid, end);
            lemma_partition_survives(ar, axis, sorted, halfway, done, start, mid, end);
        }
        (Arc::new(Hittable::Node(left)), Arc::new(Hittable::Node(right)))
    };
    let bounding_box: AABB = match (
        left.bounding_box(ar, t_0, t_1),
        right.bounding_box(ar, t_0, t_1),
    ) {
        (Some(left_box), Some(right_box)) => left_box.add(right_box),
        _ => unreached(),
    };
    BVHNode { left, right, bounding_box }
}

/// What can be sorted at the positions from `start` up to `end` can still be
/// sorted after those positions are rearranged.
proof fn lemma_rearranged_keeps<A: Arithmetic>(
    ar: &A,
    before: Seq<Arc<Hittable>>,
    after: Seq<Arc<Hittable>>,
    start: usize,
    end: usize,
)
    requires
        start <= end <= before.len(),
        rearranged(before, after, start, end),
        forall|i: int| start <= i < end ==> sortable(ar, #[trigger] *before[i]),
    ensures
        forall|i: int| start <= i < end ==> sortable(ar, #[trigger] *after[i]),
{
    broadcast use vstd::seq_lib::group_to_multiset_ensures;

    let b = before.subrange(start as int, end as int);
    let a = after.subrange(start as int, end as int);
    assert forall|i: int| start <= i < end implies sortable(ar, #[trigger] *after[i]) by {
        let p = after[i];
        assert(a[i - start] == p);
        assert(a.contains(p));
        assert(a.to_multiset().count(p) > 0);
        assert(b.to_multiset().count(p) > 0);
        assert(b.contains(p));
        let j = choose|j: int| 0 <= j < b.len() && b[j] == p;
        assert(before[start + j] == p);
    }
}

/// Rearranging the first half of a range and then the second rearranges the
/// range.
proof fn lemma_rearranged_halves(
    at_first: Seq<Arc<Hittable>>,
    sorted: Seq<Arc<Hittable>>,
    halfway: Seq<Arc<Hittable>>,
    done: Seq<Arc<Hittable>>,
    start: usize,
    mid: usize,
    end: usize,
)
    requires
        start <= mid <= end <= at_first.len(),
        rearranged(at_first, sorted, start, end),
        rearranged(sorted, halfway, start, mid),
        rearranged(halfway, done, mid, end),
    ensures
        rearranged(at_first, done, start, end),
{
    broadcast use vstd::seq_lib::lemma_multiset_commutative;

    let (s, m, e) = (start as int, mid as int, end as int);
    assert(sorted.subrange(s, e) == sorted.subrange(s, m) + sorted.subrange(m, e));
    assert(done.subrange(s, e) == done.subrange(s, m) + done.subrange(m, e));
    assert(done.subrange(s, m) == halfway.subrange(s, m));
    assert(halfway.subrange(m, e) == sorted.subrange(m, e));
}

/// A range that ascends along an axis is partitioned at `mid`, and stays so
/// when each half is rearranged within itself.
proof fn lemma_partition_survives<A: Arithmetic>(
    ar: &A,
    axis: Axis,
    sorted: Seq<Arc<Hittable>>,
    halfway: Seq<Arc<Hittable>>,
    done: Seq<Arc<Hittable>>,
    start: usize,
    mid: usize,
    end: usize,
)
    requires
        start <= mid <= end <= sorted.len(),
        ascending(ar, axis, sorted, start, end),
        rearranged(sorted, halfway, start, mid),
        rearranged(halfway, done, mid, end),
    ensures
        partitioned(ar, axis, done.subrange(start as int, end as int), mid - start),
{
    broadcast use vstd::seq_lib::group_to_multiset_ensures;

    let (s, m, e) = (start as int, mid as int, end as int);
    let row = done.subrange(s, e);
    assert forall|i: int, j: int| 0 <= i < m - s <= j < row.len() implies box_key(
        ar,
        *row[i],
        axis,
    ).key() <= box_key(ar, *row[j], axis).key() by {
        let p = row[i];
        let q = row[j];
        // p stood in the first half of the sorted range
        assert(done[s + i] == halfway[s + i]);
        let first = halfway.subrange(s, m);
        assert(first[i] == p);
        assert(first.contains(p));
        assert(first.to_multiset().count(p) > 0);
        assert(sorted.subrange(s, m).contains(p));
        let i0 = choose|k: int| 0 <= k < m - s && sorted.subrange(s, m)[k] == p;
        assert(sorted[s + i0] == p);
        // q stood in the second half
        let second = done.subrange(m, e);
        assert(second[j - (m - s)] == q);
        assert(second.contains(q));
        assert(second.to_multiset().count(q) > 0);
        assert(halfway.subrange(m, e).contains(q));
        let j0 = choose|k: int| 0 <= k < e - m && halfway.subrange(m, e)[k] == q;
        assert(halfway[m + j0] == q);
        assert(sorted[m + j0] == q);
    }
}

/// The planes that bound the boxes of the things of `row`.
pub open spec fn planes_of<A: Arithmetic>(ar: &A, row: Seq<Arc<Hittable>>) -> Set<(Axis, Scalar)> {
    Set::new(
        |p: (Axis, Scalar)|
            exists|i: int|
                0 <= i < row.len() && (#[trigger] row[i]).spec_bounding_box(ar) is Some && (
                row[i].spec_bounding_box(ar)->0).planes().contains(p),
    )
}

/// In the hierarchy over things with well-formed boxes, the box of every node
/// is well formed and encloses the box of everything below it, and the planes
/// that bound it are planes that bound a box of those things.
pub proof fn lemma_built_over_encloses<A: Arithmetic, S: RandomSource>(
    node: &BVHNode,
    ar: &A,
    source: &S,
    row: Seq<Arc<Hittable>>,
)
    requires
        node.built_over(ar, source, row),
        forall|i: int|
            0 <= i < row.len() ==> (#[trigger] row[i].spec_bounding_box(ar) matches Some(b)
                && b.well_formed()),
    ensures
        node.bounding_box.well_formed(),
        forall|i: int|
            0 <= i < row.len() ==> node.bounding_box.encloses(
                #[trigger] row[i].spec_bounding_box(ar)->0,
            ),
        node.bounding_box.planes().subset_of(planes_of(ar, row)),
    decreases row.len(),
{
    lemma_add_planes(
        node.left.spec_bounding_box(ar)->0,
        node.right.spec_bounding_box(ar)->0,
    );
    let left_box = node.left.spec_bounding_box(ar)->0;
    let right_box = node.right.spec_bounding_box(ar)->0;
    if row.len() > 2 {
        let mid = (row.len() / 2) as int;
        let first = row.subrange(0, mid);
        let second = row.subrange(mid, row.len() as int);
        if let (Hittable::Node(l), Hittable::Node(r)) = (&*node.left, &*node.right) {
            lemma_built_over_encloses(l, ar, source, first);
            lemma_built_over_encloses(r, ar, source, second);
            lemma_add_encloses(left_box, right_box);
            assert forall|i: int| 0 <= i < row.len() implies node.bounding_box.encloses(
                #[trigger] row[i].spec_bounding_box(ar)->0,
            ) by {
                let inner = row[i].spec_bounding_box(ar)->0;
                if i < mid {
                    assert(first[i] == row[i]);
                    assert(l.bounding_box.encloses(first[i].spec_bounding_box(ar)->0));
                    lemma_encloses_transitive(node.bounding_box, left_box, inner);
                } else {
                    assert(second[i - mid] == row[i]);
                    assert(r.bounding_box.encloses(second[i - mid].spec_bounding_box(ar)->0));
                    lemma_encloses_transitive(node.bounding_box, right_box, inner);
                }
            }
        }
    }
}

/// With settled draws there is one hierarchy over a row: every axis is the
/// one that the draw selects, and the row decides the rest.
pub proof fn lemma_hierarchy_is_settled<A: Arithmetic, S: RandomSource>(
    first: &BVHNode,
    second: &BVHNode,
    ar: &A,
    source: &S,
    row: Seq<Arc<Hittable>>,
)
    requires
        settled(source),
        first.built_over(ar, source, row),
        second.built_over(ar, source, row),
    ensures
        first == second,
    decreases row.len(),
{
    if row.len() == 2 {
        let a = choose|axis: Axis|
            #![trigger may_pick(source, axis)]
            may_pick(source, axis) && if box_before(ar, axis, *row[0], *row[1]) {
                first.left == row[0] && first.right == row[1]
            } else {
                first.left == row[1] && first.right == row[0]
            };
        let b = choose|axis: Axis|
            #![trigger may_pick(source, axis)]
            may_pick(source, axis) && if box_before(ar, axis, *row[0], *row[1]) {
                second.left == row[0] && second.right == row[1]
            } else {
                second.left == row[1] && second.right == row[0]
            };
        assert(a == b);
    } else if row.len() > 2 {
        let mid = (row.len() / 2) as int;
        if let (Hittable::Node(l1), Hittable::Node(r1)) = (&*first.left, &*first.right) {
            if let (Hittable::Node(l2), Hittable::Node(r2)) = (&*second.left, &*second.right) {
                lemma_hierarchy_is_settled(l1, l2, ar, source, row.subrange(0, mid));
                lemma_hierarchy_is_settled(r1, r2, ar, source, row.subrange(mid, row.len() as int));
            }
        }
    }
}

} // verus!

//! The order in which a hierarchy lines up what it is built over: by the
//! minimum corner of the boxes, along one axis.
use crate::arithmetic::{exact, Arithmetic};
use crate::hittable::Hittable;
use crate::scalar::{Scalar, ZERO};
use crate::v3::Axis;
use std::cmp::Ordering;
use std::sync::Arc;
use vstd::pervasive::unreached;
use vstd::prelude::*;

verus! {

/// `h` has a bounding box.
pub open spec fn bounded<A: Arithmetic>(ar: &A, h: Hittable) -> bool {
    h.spec_bounding_box(ar) is Some
}

/// The coordinate by which `h` is ordered along `axis`: the minimum corner of
/// its bounding box.
pub open spec fn box_key<A: Arithmetic>(ar: &A, h: Hittable, axis: Axis) -> Scalar {
    (h.spec_bounding_box(ar)->0).minimum.spec_get(axis)
}

/// `h` has a box whose minimum corner is made of numbers, so that `h` can be
/// ordered along every axis.
pub open spec fn sortable<A: Arithmetic>(ar: &A, h: Hittable) -> bool {
    &&& bounded(ar, h)
    &&& !box_key(ar, h, Axis::X).nan()
    &&& !box_key(ar, h, Axis::Y).nan()
    &&& !box_key(ar, h, Axis::Z).nan()
}

/// `a` comes strictly before `b` along `axis`.
pub open spec fn box_before<A: Arithmetic>(ar: &A, axis: Axis, a: Hittable, b: Hittable) -> bool {
    box_key(ar, a, axis).spec_lt(box_key(ar, b, axis))
}

/// How `a` stands to `b` along `axis`.
pub open spec fn box_order<A: Arithmetic>(ar: &A, axis: Axis, a: Hittable, b: Hittable) -> Ordering {
    if box_key(ar, a, axis).spec_lt(box_key(ar, b, axis)) {
        Ordering::Less
    } else if box_key(ar, a, axis).spec_gt(box_key(ar, b, axis)) {
        Ordering::Greater
    } else {
        Ordering::Equal
    }
}

/// Whether `h` can be ordered along every axis.
pub fn is_sortable<A: Arithmetic>(ar: &A, h: &Hittable) -> (r: bool)
    requires
        exact(ar),
    ensures
        r == sortable(ar, *h),
{
    let zero: Scalar = Scalar { bits: ZERO };
    match h.bounding_box(ar, zero, zero) {
        Some(b) => !b.minimum.x.is_nan() && !b.minimum.y.is_nan() && !b.minimum.z.is_nan(),
        None => false,
    }
}

/// Whether everything in `objects` can be ordered along every axis.
pub fn all_sortable<A: Arithmetic>(ar: &A, objects: &Vec<Arc<Hittable>>) -> (r: bool)
    requires
        exact(ar),
    ensures
        r == forall|i: int| 0 <= i < objects@.len() ==> sortable(ar, #[trigger] *objects@[i]),
{
    let mut i: usize = 0;
    while i < objects.len()
        invariant
            exact(ar),
            i <= objects.len(),
            forall|j: int| 0 <= j < i ==> sortable(ar, #[trigger] *objects@[j]),
        decreases objects.len() - i,
    {
        if !is_sortable(ar, &objects[i]) {
            return false;
        }
        i = i + 1;
    }
    true
}

/// Compares two things by the minimum corner of their boxes along `axis`.
/// Both must have a box, with a number for that corner.
pub fn box_compare<A: Arithmetic>(
    ar: &A,
    axis: Axis,
    a: &Arc<Hittable>,
    b: &Arc<Hittable>,
) -> (r: Ordering)
    requires
        exact(ar),
        bounded(ar, **a),
        bounded(ar, **b),
        !box_key(ar, **a, axis).nan(),
        !box_key(ar, **b, axis).nan(),
    ensures
        r == box_order(ar, axis, **a, **b),
{
    let zero: Scalar = Scalar { bits: ZERO };
    match (a.bounding_box(ar, zero, zero), b.bounding_box(ar, zero, zero)) {
        (Some(a_box), Some(b_box)) => {
            let x: Scalar = a_box.minimum.get(axis);
            let y: Scalar = b_box.minimum.get(axis);
            if x.lt(y) {
                Ordering::Less
            } else if x.gt(y) {
                Ordering::Greater
            } else {
                Ordering::Equal
            }
        },
        _ => unreached(),
    }
}

/// Whether `a` comes strictly before `b` along `axis`.
pub fn box_precedes<A: Arithmetic>(
    ar: &A,
    axis: Axis,
    a: &Arc<Hittable>,
    b: &Arc<Hittable>,
) -> (r: bool)
    requires
        exact(ar),
        bounded(ar, **a),
        bounded(ar, **b),
        !box_key(ar, **a, axis).nan(),
        !box_key(ar, **b, axis).nan(),
    ensures
        r == box_before(ar, axis, **a, **b),
{
    match box_compare(ar, axis, a, b) {
        Ordering::Less => true,
        Ordering::Equal => false,
        Ordering::Greater => false,
    }
}

/// `after` is `before` with the positions from `start` up to `end` rearranged
/// and every other position as it was.
pub open spec fn rearranged(
    before: Seq<Arc<Hittable>>,
    after: Seq<Arc<Hittable>>,
    start: usize,
    end: usize,
) -> bool {
    &&& after.len() == before.len()
    &&& forall|i: int| 0 <= i < start || end <= i < before.len() ==> after[i] == before[i]
    &&& after.subrange(start as int, end as int).to_multiset() == before.subrange(
        start as int,
        end as int,
    ).to_multiset()
}

/// The positions of `s` from `start` up to `end` ascend along `axis`.
pub open spec fn ascending<A: Arithmetic>(
    ar: &A,
    axis: Axis,
    s: Seq<Arc<Hittable>>,
    start: usize,
    end: usize,
) -> bool {
    forall|i: int, j: int|
        start <= i < j < end ==> box_key(ar, *s[i], axis).key() <= box_key(ar, *s[j], axis).key()
}

/// What compares equal along `axis` stands in `after` in the order it had in
/// `before`: some one-to-one assignment `from` of old positions to the new
/// ones keeps it so.
pub open spec fn stable<A: Arithmetic>(
    ar: &A,
    axis: Axis,
    before: Seq<Arc<Hittable>>,
    after: Seq<Arc<Hittable>>,
    start: usize,
    end: usize,
) -> bool {
    exists|from: Seq<int>|
        {
            &&& from.len() == end - start
            &&& forall|k: int|
                0 <= k < from.len() ==> start <= #[trigger] from[k] < end && after[start + k]
                    == before[from[k]]
            &&& forall|k1: int, k2: int|
                0 <= k1 < k2 < from.len() ==> #[trigger] from[k1] != #[trigger] from[k2]
            &&& forall|k1: int, k2: int|
                0 <= k1 < k2 < from.len() && box_key(ar, *before[#[trigger] from[k1]], axis).key()
                    == box_key(ar, *before[#[trigger] from[k2]], axis).key() ==> from[k1]
                    < from[k2]
        }
}

/// Sorts what stands at the positions from `start` up to `end` along `axis`,
/// in place, with `sort_by` of the standard library's slices and
/// [`box_compare`] as the comparison. Believed of `sort_by`, as documented:
/// the slice holds afterwards what it held before, in ascending order of the
/// comparison, with equal elements in their earlier order; nothing outside the
/// slice is touched. `sort_by` may panic where the comparison is not a total
/// order; over box corners that are numbers it is one.
#[verifier::external_body]
pub(crate) fn sort_by_axis<A: Arithmetic>(
    ar: &A,
    axis: Axis,
    objects: &mut Vec<Arc<Hittable>>,
    start: usize,
    end: usize,
)
    requires
        exact(ar),
        start <= end <= old(objects)@.len(),
        forall|i: int| start <= i < end ==> sortable(ar, #[trigger] *old(objects)@[i]),
    ensures
        rearranged(old(objects)@, final(objects)@, start, end),
        ascending(ar, axis, final(objects)@, start, end),
        stable(ar, axis, old(objects)@, final(objects)@, start, end),
{
    objects[start..end].sort_by(|a, b| box_compare(ar, axis, a, b));
}

/// Another handle on what `h` points to, by `Arc::clone` of the standard
/// library. Believed of it, as documented: the new handle points to the same
/// value, which is not copied.
#[verifier::external_body]
pub(crate) fn share(h: &Arc<Hittable>) -> (r: Arc<Hittable>)
    ensures
        r == *h,
{
    Arc::clone(h)
}

} // verus!

//! The random source that sampling draws from.
use crate::scalar::Scalar;
use crate::v3::V3;
use vstd::prelude::*;

verus! {

/// A generator of fresh random variables. Nothing is known of a draw but that
/// the source gave it: whatever uses one is verified for every value of it.
pub trait RandomSource {
    /// A uniform value in `[0, 1)`.
    fn uniform(&self) -> Scalar;

    /// A uniform point of the unit ball.
    fn in_unit_sphere(&self) -> V3;

    /// A uniform point of the unit disk in the plane `z = 0`.
    fn in_unit_disk(&self) -> V3;

    /// A uniform index: every `usize` may come. The hierarchy takes its axes
    /// from these.
    fn index(&self) -> usize;
}

/// `u` is a value that `source` may give for a uniform draw.
pub open spec fn may_draw<S: RandomSource>(source: &S, u: Scalar) -> bool {
    call_ensures(S::uniform, (source,), u)
}

/// `p` is a point that `source` may give for a draw from the unit ball.
pub open spec fn may_draw_in_sphere<S: RandomSource>(source: &S, p: V3) -> bool {
    call_ensures(S::in_unit_sphere, (source,), p)
}

/// `p` is a point that `source` may give for a draw from the unit disk.
pub open spec fn may_draw_in_disk<S: RandomSource>(source: &S, p: V3) -> bool {
    call_ensures(S::in_unit_disk, (source,), p)
}

/// `i` is an index that `source` may give.
pub open spec fn may_draw_index<S: RandomSource>(source: &S, i: usize) -> bool {
    call_ensures(S::index, (source,), i)
}

/// The draws of `source` are settled: of each kind of draw there is one value
/// that it may give. A generator that is seeded is settled at each point of
/// its stream; one that draws from the machine is not.
pub open spec fn settled<S: RandomSource>(source: &S) -> bool {
    &&& forall|a: Scalar, b: Scalar| may_draw(source, a) && may_draw(source, b) ==> a == b
    &&& forall|a: V3, b: V3|
        may_draw_in_sphere(source, a) && may_draw_in_sphere(source, b) ==> a == b
    &&& forall|a: V3, b: V3| may_draw_in_disk(source, a) && may_draw_in_disk(source, b) ==> a == b
    &&& forall|a: usize, b: usize| may_draw_index(source, a) && may_draw_index(source, b) ==> a == b
}

} // verus!

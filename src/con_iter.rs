use crate::puller::ChunkPuller;
use vstd::prelude::*;

verus! {

/// A thread-shared cursor over a finite, ordered sequence of items.
///
/// Every operation takes `&self`: other threads may pull between any two
/// calls, so the contracts say what holds of every outcome.
/// `holds_at(i, x)` says that `x` is the item at position `i` of the source;
/// `holds(x)` says that `x` is among the source's items; `total_len` bounds the number of items the source can ever yield.
pub trait ConcurrentIter: Sized {
    type Item;

    spec fn holds_at(&self, i: int, x: Self::Item) -> bool;

    spec fn holds(&self, x: Self::Item) -> bool;

    spec fn total_len(&self) -> int;

    spec fn completes(&self) -> bool;

    /// Reserves and returns the next unconsumed item, or `None`.
    fn next(&self) -> (r: Option<Self::Item>)
        ensures
            r matches Some(x) ==> self.holds(x),
    ;

    /// As `next`, together with the item's position.
    fn next_with_idx(&self) -> (r: Option<(usize, Self::Item)>)
        ensures
            r matches Some((i, x)) ==> self.holds_at(i as int, x) && self.holds(x),
    ;

    /// Bounds on the number of items still to come.
    fn size_hint(&self) -> (r: (usize, Option<usize>))
        ensures
            r.1 matches Some(u) ==> r.0 <= u,
    ;

    /// Whether a `None` from this source means that it is exhausted for good.
    fn is_completed_when_none_returned(&self) -> (r: bool)
        ensures
            r == self.completes(),
    ;

    /// Consumes the source and returns, in order, the items it has still to
    /// yield, for use where no concurrency is needed.
    fn into_seq_iter(self) -> (r: Vec<Self::Item>)
        ensures
            r@.len() <= self.total_len(),
            forall|j: int| 0 <= j < r@.len() ==> self.holds(#[trigger] r@[j]),
    ;

    /// Marks the source as exhausted for every thread.
    fn skip_to_end(&self);

}

/// A concurrent source that chunk pullers borrowing it for `'a` can be bound to.
pub trait ChunkPullerSource<'a>: ConcurrentIter {
    type Puller: ChunkPuller<ChunkItem = Self::Item>;

    /// Binds a new chunk puller to this source.
    fn chunk_puller(&'a self, chunk_size: usize) -> (r: Self::Puller)
        requires
            chunk_size > 0,
        ensures
            r.wf(),
            r.chunk_size_spec() == chunk_size,
            forall|b: int, s: Seq<Self::Item>| #[trigger]
                r.may_issue(b, s) ==> forall|j: int|
                    0 <= j < s.len() ==> self.holds_at(b + j, #[trigger] s[j]),
    ;
}

} // verus!

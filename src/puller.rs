use crate::chunk::ExactChunk;
use vstd::prelude::*;

verus! {

/// A single-consumer front-end bound to one concurrent source, reserving up
/// to `chunk_size` consecutive items per pull.
///
/// `may_issue(begin, items)` says that, in the puller's current state, a pull
/// may hand out a chunk holding `items` whose first position is `begin`.
/// What a puller may hand out is fixed by the source it reads: pulls leave it
/// as it was.
pub trait ChunkPuller: Sized {
    type ChunkItem;

    type Chunk: ExactChunk<Item = Self::ChunkItem>;

    spec fn wf(&self) -> bool;

    spec fn chunk_size_spec(&self) -> usize;

    spec fn may_issue(&self, begin: int, items: Seq<Self::ChunkItem>) -> bool;

    /// The nominal batch size; the last chunk of a source may be shorter.
    fn chunk_size(&self) -> (r: usize)
        requires
            self.wf(),
        ensures
            r == self.chunk_size_spec(),
    ;

    /// Reserves the next chunk, or returns `None` when the source is exhausted.
    fn pull(&mut self) -> (r: Option<Self::Chunk>)
        requires
            old(self).wf(),
        ensures
            final(self).wf(),
            final(self).chunk_size_spec() == old(self).chunk_size_spec(),
            forall|b: int, s: Seq<Self::ChunkItem>| #[trigger]
                final(self).may_issue(b, s) == old(self).may_issue(b, s),
            r matches Some(c) ==> c.wf() && 0 < c.rest().len() <= old(self).chunk_size_spec() && exists|
                b: int,
            | #[trigger] old(self).may_issue(b, c.rest()),
    ;

    /// As `pull`, and also returns the position of the chunk's first item.
    fn pull_with_idx(&mut self) -> (r: Option<(usize, Self::Chunk)>)
        requires
            old(self).wf(),
        ensures
            final(self).wf(),
            final(self).chunk_size_spec() == old(self).chunk_size_spec(),
            forall|b: int, s: Seq<Self::ChunkItem>| #[trigger]
                final(self).may_issue(b, s) == old(self).may_issue(b, s),
            r matches Some((b, c)) ==> c.wf() && 0 < c.rest().len() <= old(self).chunk_size_spec() && b
                + c.rest().len() <= usize::MAX && old(self).may_issue(b as int, c.rest()),
    ;
}

} // verus!

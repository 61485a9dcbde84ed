use crate::chunk::ExactChunk;
use crate::puller::ChunkPuller;
use vstd::prelude::*;

verus! {

/// The items of `s` paired with their positions, the first being `begin`.
pub open spec fn indexed<A>(begin: int, s: Seq<A>) -> Seq<(usize, A)> {
    Seq::new(s.len(), |j: int| ((begin + j) as usize, s[j]))
}

/// The items of `s` with their positions dropped.
pub open spec fn unindexed<A>(s: Seq<(usize, A)>) -> Seq<A> {
    s.map_values(|p: (usize, A)| p.1)
}

/// A chunk puller that attaches to each item its position in the source,
/// taken from the wrapped puller's own reservation.
pub struct EnumeratedChunkPuller<P> {
    puller: P,
}

impl<P: ChunkPuller> EnumeratedChunkPuller<P> {
    /// The wrapped puller.
    pub closed spec fn inner(&self) -> P {
        self.puller
    }

    /// Wraps `puller`.
    pub fn new(puller: P) -> (r: Self)
        ensures
            r.inner() == puller,
    {
        EnumeratedChunkPuller { puller }
    }
}

/// The view of one enumerated chunk: each item of the wrapped chunk comes
/// out with `begin_idx` plus its offset in the chunk.
pub struct EnumeratedChunk<I: ExactChunk> {
    chunk: I,
    begin_idx: usize,
    taken: usize,
}

impl<I: ExactChunk> EnumeratedChunk<I> {
    /// Exact bounds on the number of items still to come.
    pub fn size_hint(&self) -> (r: (usize, Option<usize>))
        requires
            self.wf(),
        ensures
            r == (self.rest().len() as usize, Some(self.rest().len() as usize)),
    {
        let len = self.chunk.len();
        (len, Some(len))
    }
}

impl<I: ExactChunk> ExactChunk for EnumeratedChunk<I> {
    type Item = (usize, I::Item);

    closed spec fn wf(&self) -> bool {
        self.chunk.wf() && self.begin_idx + self.taken + self.chunk.rest().len() <= usize::MAX
    }

    closed spec fn rest(&self) -> Seq<(usize, I::Item)> {
        indexed(self.begin_idx + self.taken, self.chunk.rest())
    }

    fn len(&self) -> (r: usize) {
        self.chunk.len()
    }

    fn next(&mut self) -> (r: Option<(usize, I::Item)>) {
        match self.chunk.next() {
            Some(x) => {
                let i = self.begin_idx + self.taken;
                self.taken = self.taken + 1;
                assert(self.rest() =~= old(self).rest().drop_first());
                Some((i, x))
            },
            None => None,
        }
    }
}

impl<P: ChunkPuller> ChunkPuller for EnumeratedChunkPuller<P> {
    type ChunkItem = (usize, P::ChunkItem);

    type Chunk = EnumeratedChunk<P::Chunk>;

    open spec fn wf(&self) -> bool {
        self.inner().wf()
    }

    open spec fn chunk_size_spec(&self) -> usize {
        self.inner().chunk_size_spec()
    }

    open spec fn may_issue(&self, begin: int, items: Seq<(usize, P::ChunkItem)>) -> bool {
        self.inner().may_issue(begin, unindexed(items)) && items == indexed(begin, unindexed(items))
    }

    fn chunk_size(&self) -> (r: usize) {
        self.puller.chunk_size()
    }

    fn pull(&mut self) -> (r: Option<EnumeratedChunk<P::Chunk>>) {
        match self.puller.pull_with_idx() {
            Some((begin_idx, x)) => {
                let c = EnumeratedChunk { chunk: x, begin_idx, taken: 0 };
                assert(unindexed(c.rest()) =~= x.rest());
                assert(old(self).may_issue(begin_idx as int, c.rest()));
                Some(c)
            },
            None => None,
        }
    }

    fn pull_with_idx(&mut self) -> (r: Option<(usize, EnumeratedChunk<P::Chunk>)>) {
        match self.puller.pull_with_idx() {
            Some((begin_idx, x)) => {
                let c = EnumeratedChunk { chunk: x, begin_idx, taken: 0 };
                assert(unindexed(c.rest()) =~= x.rest());
                Some((begin_idx, c))
            },
            None => None,
        }
    }
}

/// Whatever the chunk size and however other threads interleave, every
/// chunk an enumerated puller hands out at `begin` is a chunk the wrapped
/// puller itself hands out at `begin`, and its `j`-th item carries the
/// position `begin + j`.
pub proof fn lemma_enumerated_positions<P: ChunkPuller>(
    p: EnumeratedChunkPuller<P>,
    begin: int,
    items: Seq<(usize, P::ChunkItem)>,
)
    requires
        p.may_issue(begin, items),
    ensures
        p.inner().may_issue(begin, unindexed(items)),
        forall|j: int| 0 <= j < items.len() ==> #[trigger] items[j].0 == (begin + j) as usize,
{
    assert forall|j: int| 0 <= j < items.len() implies #[trigger] items[j].0 == (begin + j) as usize by {
        assert(items[j] == indexed(begin, unindexed(items))[j]);
    }
}

} // verus!

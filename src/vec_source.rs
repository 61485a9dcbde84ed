use crate::chunk::ExactChunk;
use crate::con_iter::{ChunkPullerSource, ConcurrentIter};
use crate::puller::ChunkPuller;
use crate::reserve::{reserve, reserve_spec};
use crate::sync::{lock_counter, new_counter, read_counter, write_counter};
use vstd::prelude::*;

verus! {

/// A concurrent source over the items of a vector, with one shared cursor
/// held under a lock.
pub struct ConIterVec<T> {
    data: Vec<T>,
    counter: parking_lot::Mutex<usize>,
}

impl<T> View for ConIterVec<T> {
    type V = Seq<T>;

    closed spec fn view(&self) -> Seq<T> {
        self.data@
    }
}

impl<T: Copy> ConIterVec<T> {
    /// A source whose cursor stands before the first item of `data`.
    pub fn new(data: Vec<T>) -> (r: Self)
        ensures
            r@ == data@,
    {
        ConIterVec { data, counter: new_counter(0) }
    }

    /// Takes the range for a request of up to `n` items under the lock.
    fn take_range(&self, n: usize) -> (r: Option<(usize, usize)>)
        requires
            n > 0,
        ensures
            self@.len() <= usize::MAX,
            r matches Some((b, c)) ==> 0 < c <= n && b + c <= self@.len(),
    {
        let mut guard = lock_counter(&self.counter);
        let pos = read_counter(&guard);
        let r = reserve(pos, self.data.len(), n);
        if let Some((b, c)) = r {
            write_counter(&mut guard, b + c);
        }
        r
    }
}

/// The view of one range `next .. end` of a vector source.
pub struct VecChunk<'a, T> {
    data: &'a Vec<T>,
    next: usize,
    end: usize,
}

impl<'a, T: Copy> ExactChunk for VecChunk<'a, T> {
    type Item = T;

    closed spec fn wf(&self) -> bool {
        self.next <= self.end <= self.data@.len()
    }

    closed spec fn rest(&self) -> Seq<T> {
        self.data@.subrange(self.next as int, self.end as int)
    }

    fn len(&self) -> (r: usize) {
        self.end - self.next
    }

    fn next(&mut self) -> (r: Option<T>) {
        if self.next < self.end {
            let x = self.data[self.next];
            self.next = self.next + 1;
            Some(x)
        } else {
            None
        }
    }
}

/// The chunk puller of a vector source.
pub struct VecChunkPuller<'a, T> {
    source: &'a ConIterVec<T>,
    chunk_size: usize,
}

impl<'a, T> View for VecChunkPuller<'a, T> {
    type V = Seq<T>;

    closed spec fn view(&self) -> Seq<T> {
        self.source@
    }
}

impl<'a, T: Copy> ChunkPuller for VecChunkPuller<'a, T> {
    type ChunkItem = T;

    type Chunk = VecChunk<'a, T>;

    closed spec fn wf(&self) -> bool {
        self.chunk_size > 0
    }

    closed spec fn chunk_size_spec(&self) -> usize {
        self.chunk_size
    }

    open spec fn may_issue(&self, begin: int, items: Seq<T>) -> bool {
        0 <= begin && begin + items.len() <= self@.len() && items == self@.subrange(
            begin,
            begin + items.len(),
        )
    }

    fn chunk_size(&self) -> (r: usize) {
        self.chunk_size
    }

    fn pull(&mut self) -> (r: Option<VecChunk<'a, T>>)
        ensures
            *final(self) == *old(self),
    {
        match self.pull_with_idx() {
            Some((b, c)) => Some(c),
            None => None,
        }
    }

    fn pull_with_idx(&mut self) -> (r: Option<(usize, VecChunk<'a, T>)>)
        ensures
            *final(self) == *old(self),
    {
        match self.source.take_range(self.chunk_size) {
            Some((b, c)) => {
                let chunk = VecChunk { data: &self.source.data, next: b, end: b + c };
                assert(chunk.rest() =~= self.source@.subrange(b as int, b + c));
                Some((b, chunk))
            },
            None => None,
        }
    }
}

impl<T: Copy> ConcurrentIter for ConIterVec<T> {
    type Item = T;

    open spec fn holds_at(&self, i: int, x: T) -> bool {
        0 <= i < self@.len() && x == self@[i]
    }

    open spec fn holds(&self, x: T) -> bool {
        self@.contains(x)
    }

    open spec fn total_len(&self) -> int {
        self@.len() as int
    }

    open spec fn completes(&self) -> bool {
        true
    }

    fn next(&self) -> (r: Option<T>) {
        match self.next_with_idx() {
            Some((i, x)) => {
                Some(x)
            },
            None => None,
        }
    }

    fn next_with_idx(&self) -> (r: Option<(usize, T)>) {
        match self.take_range(1) {
            Some((b, c)) => Some((b, self.data[b])),
            None => None,
        }
    }

    fn size_hint(&self) -> (r: (usize, Option<usize>))
        ensures
            r.1 == Some(r.0),
            r.0 <= self@.len(),
    {
        let guard = lock_counter(&self.counter);
        let pos = read_counter(&guard);
        let len = self.data.len();
        let rem: usize = if pos < len {
            len - pos
        } else {
            0
        };
        (rem, Some(rem))
    }

    fn is_completed_when_none_returned(&self) -> (r: bool) {
        true
    }

    fn into_seq_iter(self) -> (r: Vec<T>)
        ensures
            r@ == self@.subrange(self@.len() - r@.len(), self@.len() as int),
    {
        let pos = {
            let guard = lock_counter(&self.counter);
            read_counter(&guard)
        };
        let len = self.data.len();
        let start: usize = if pos < len {
            pos
        } else {
            len
        };
        let mut out: Vec<T> = Vec::new();
        let mut i: usize = start;
        while i < len
            invariant
                len == self@.len(),
                start <= i <= len,
                out@ == self@.subrange(start as int, i as int),
            decreases self.data@.len() - i,
        {
            out.push(self.data[i]);
            i = i + 1;
        }
        out
    }

    fn skip_to_end(&self) {
        let mut guard = lock_counter(&self.counter);
        write_counter(&mut guard, self.data.len());
    }
}

impl<'a, T: Copy + 'a> ChunkPullerSource<'a> for ConIterVec<T> {
    type Puller = VecChunkPuller<'a, T>;

    fn chunk_puller(&'a self, chunk_size: usize) -> (r: VecChunkPuller<'a, T>)
        ensures
            r@ == self@,
    {
        VecChunkPuller { source: self, chunk_size }
    }
}

} // verus!

use crate::chunk::ExactChunk;
use crate::con_iter::{ChunkPullerSource, ConcurrentIter};
use crate::puller::ChunkPuller;
use crate::sync::{lock_counter, new_counter, read_counter, write_counter};
use vstd::prelude::*;

verus! {

/// The smaller of two lengths.
pub open spec fn min_len(a: int, b: int) -> int {
    if a <= b {
        a
    } else {
        b
    }
}

/// Position by position pairs of `l` and `r`, as long as the shorter one.
pub open spec fn pairs<A, B>(l: Seq<A>, r: Seq<B>) -> Seq<(A, B)> {
    Seq::new(min_len(l.len() as int, r.len() as int) as nat, |j: int| (l[j], r[j]))
}

/// A chunk puller over two sources at once: each pull reserves one chunk
/// from each side's own puller and pairs them up.
pub struct ZippedChunkPuller<P1, P2> {
    left: P1,
    right: P2,
    index: usize,
    chunk_size: usize,
}

impl<P1: ChunkPuller, P2: ChunkPuller> ZippedChunkPuller<P1, P2> {
    pub closed spec fn left_puller(&self) -> P1 {
        self.left
    }

    pub closed spec fn right_puller(&self) -> P2 {
        self.right
    }

    /// The position this puller reports for its next chunk: the number of
    /// pairs its earlier chunks held.
    pub closed spec fn index(&self) -> int {
        self.index as int
    }

    /// Binds one chunk puller of `chunk_size` to each of the two sources.
    pub fn new<'i, I1, I2>(left: &'i I1, right: &'i I2, chunk_size: usize) -> (r: Self) where
        I1: ChunkPullerSource<'i, Puller = P1>,
        I2: ChunkPullerSource<'i, Puller = P2>,
        P1: ChunkPuller<ChunkItem = I1::Item>,
        P2: ChunkPuller<ChunkItem = I2::Item>,

        requires
            chunk_size > 0,
        ensures
            r.wf(),
            r.chunk_size_spec() == chunk_size,
            r.index() == 0,
            forall|b: int, s: Seq<P1::ChunkItem>| #[trigger]
                r.left_puller().may_issue(b, s) ==> forall|j: int|
                    0 <= j < s.len() ==> left.holds_at(b + j, #[trigger] s[j]),
            forall|b: int, s: Seq<P2::ChunkItem>| #[trigger]
                r.right_puller().may_issue(b, s) ==> forall|j: int|
                    0 <= j < s.len() ==> right.holds_at(b + j, #[trigger] s[j]),
    {
        ZippedChunkPuller {
            left: left.chunk_puller(chunk_size),
            right: right.chunk_puller(chunk_size),
            chunk_size,
            index: 0,
        }
    }
}

/// What a zipped puller may hand out depends on what its two pullers may.
proof fn lemma_may_issue_kept<P1: ChunkPuller, P2: ChunkPuller>(
    a: ZippedChunkPuller<P1, P2>,
    z: ZippedChunkPuller<P1, P2>,
)
    requires
        forall|b: int, s: Seq<P1::ChunkItem>| #[trigger]
            z.left_puller().may_issue(b, s) == a.left_puller().may_issue(b, s),
        forall|b: int, s: Seq<P2::ChunkItem>| #[trigger]
            z.right_puller().may_issue(b, s) == a.right_puller().may_issue(b, s),
    ensures
        forall|b: int, s: Seq<(P1::ChunkItem, P2::ChunkItem)>| #[trigger]
            z.may_issue(b, s) == a.may_issue(b, s),
{
    assert forall|b: int, s: Seq<(P1::ChunkItem, P2::ChunkItem)>| #[trigger]
        z.may_issue(b, s) == a.may_issue(b, s) by {
        if a.may_issue(b, s) {
            let (bl, ls, br, rs) = choose|bl: int, ls: Seq<P1::ChunkItem>, br: int, rs: Seq<P2::ChunkItem>|
                a.left_puller().may_issue(bl, ls) && a.right_puller().may_issue(br, rs) && s
                    == pairs(ls, rs);
            assert(z.left_puller().may_issue(bl, ls) && z.right_puller().may_issue(br, rs));
        }
        if z.may_issue(b, s) {
            let (bl, ls, br, rs) = choose|bl: int, ls: Seq<P1::ChunkItem>, br: int, rs: Seq<P2::ChunkItem>|
                z.left_puller().may_issue(bl, ls) && z.right_puller().may_issue(br, rs) && s
                    == pairs(ls, rs);
            assert(a.left_puller().may_issue(bl, ls) && a.right_puller().may_issue(br, rs));
        }
    }
}

impl<P1: ChunkPuller, P2: ChunkPuller> ChunkPuller for ZippedChunkPuller<P1, P2> {
    type ChunkItem = (P1::ChunkItem, P2::ChunkItem);

    type Chunk = ZippedChunk<P1::Chunk, P2::Chunk>;

    closed spec fn wf(&self) -> bool {
        &&& self.left.wf()
        &&& self.right.wf()
        &&& self.chunk_size > 0
        &&& self.left.chunk_size_spec() == self.chunk_size
        &&& self.right.chunk_size_spec() == self.chunk_size
    }

    closed spec fn chunk_size_spec(&self) -> usize {
        self.chunk_size
    }

    /// A zipped chunk pairs a chunk that the left puller may hand out with
    /// one that the right may; where it starts is the puller's running index.
    open spec fn may_issue(&self, begin: int, items: Seq<(P1::ChunkItem, P2::ChunkItem)>) -> bool {
        exists|bl: int, ls: Seq<P1::ChunkItem>, br: int, rs: Seq<P2::ChunkItem>|
            #![trigger self.left_puller().may_issue(bl, ls), self.right_puller().may_issue(br, rs)]
            self.left_puller().may_issue(bl, ls) && self.right_puller().may_issue(br, rs) && items
                == pairs(ls, rs)
    }

    fn chunk_size(&self) -> (r: usize) {
        self.chunk_size
    }

    fn pull(&mut self) -> (r: Option<ZippedChunk<P1::Chunk, P2::Chunk>>)
        ensures
            r matches Some(c) ==> final(self).index() == old(self).index() + c.rest().len(),
            r is None ==> final(self).index() == old(self).index(),
    {
        match self.pull_with_idx() {
            Some((_, chunk)) => Some(chunk),
            None => None,
        }
    }

    fn pull_with_idx(&mut self) -> (r: Option<(usize, ZippedChunk<P1::Chunk, P2::Chunk>)>)
        ensures
            r matches Some((b, c)) ==> b == old(self).index() && final(self).index() == b
                + c.rest().len(),
            r is None ==> final(self).index() == old(self).index(),
    {
        let (bl, left) = match self.left.pull_with_idx() {
            Some(x) => x,
            None => {
                proof {
                    lemma_may_issue_kept(*old(self), *self);
                }
                return None;
            },
        };
        let (br, right) = match self.right.pull_with_idx() {
            Some(x) => x,
            None => {
                proof {
                    lemma_may_issue_kept(*old(self), *self);
                }
                return None;
            },
        };
        // The running index is a usize: a pull whose pairs would carry it
        // past the largest position reports exhaustion.
        let next = match advance_index(self.index, left.len(), right.len()) {
            Some(next) => next,
            None => {
                proof {
                    lemma_may_issue_kept(*old(self), *self);
                }
                return None;
            },
        };
        let begin = self.index;
        let chunk = ZippedChunk { left, right };
        assert(old(self).left_puller().may_issue(bl as int, left.rest()));
        assert(old(self).right_puller().may_issue(br as int, right.rest()));
        self.index = next;
        proof {
            lemma_may_issue_kept(*old(self), *self);
        }
        Some((begin, chunk))
    }
}

/// The view of one zipped chunk: pairs of the two inner chunks, up to the
/// end of the shorter one.
pub struct ZippedChunk<C1: ExactChunk, C2: ExactChunk> {
    left: C1,
    right: C2,
}

impl<C1: ExactChunk, C2: ExactChunk> ZippedChunk<C1, C2> {
    /// Exact bounds on the number of pairs still to come.
    pub fn size_hint(&self) -> (r: (usize, Option<usize>))
        requires
            self.wf(),
        ensures
            r == (self.rest().len() as usize, Some(self.rest().len() as usize)),
    {
        let len = self.len();
        (len, Some(len))
    }
}

impl<C1: ExactChunk, C2: ExactChunk> ExactChunk for ZippedChunk<C1, C2> {
    type Item = (C1::Item, C2::Item);

    closed spec fn wf(&self) -> bool {
        self.left.wf() && self.right.wf()
    }

    closed spec fn rest(&self) -> Seq<(C1::Item, C2::Item)> {
        pairs(self.left.rest(), self.right.rest())
    }

    fn len(&self) -> (r: usize) {
        let (ll, rl) = (self.left.len(), self.right.len());
        if ll <= rl {
            ll
        } else {
            rl
        }
    }

    fn next(&mut self) -> (r: Option<(C1::Item, C2::Item)>)
        ensures
            old(self).rest().len() == 0 ==> *final(self) == *old(self),
    {
        // Neither side is pulled once the shorter one is drained.
        if self.left.len() == 0 || self.right.len() == 0 {
            return None;
        }
        let a = self.left.next();
        let b = self.right.next();
        assert(self.rest() =~= old(self).rest().drop_first());
        match (a, b) {
            (Some(a), Some(b)) => Some((a, b)),
            _ => None,
        }
    }
}

/// The upper bound of a zip: the smaller of the two sides' upper bounds,
/// where `None` means that a side is unbounded.
pub fn zip_upper(a: Option<usize>, b: Option<usize>) -> (r: Option<usize>)
    ensures
        r == match (a, b) {
            (Some(x), Some(y)) => Some(
                if x <= y {
                    x
                } else {
                    y
                },
            ),
            (Some(x), None) => Some(x),
            (None, Some(y)) => Some(y),
            (None, None) => None,
        },
        a matches Some(x) ==> (r matches Some(u) && u <= x),
        b matches Some(y) ==> (r matches Some(u) && u <= y),
{
    match (a, b) {
        (Some(x), Some(y)) => Some(
            if x <= y {
                x
            } else {
                y
            },
        ),
        (Some(x), None) => Some(x),
        (None, Some(y)) => Some(y),
        (None, None) => None,
    }
}

/// One locked step of the single-item zip: with the counter at `i` and the
/// two sides' results `a` and `b`, the pair at position `i` and the counter
/// moved on by one. Nothing comes out, and the counter stays, when either
/// side has ended or the counter has no position left.
pub fn zip_step<A, B>(i: usize, a: Option<A>, b: Option<B>) -> (r: (Option<(usize, (A, B))>, usize))
    ensures
        r == match (a, b) {
            (Some(x), Some(y)) => if i < usize::MAX {
                (Some((i, (x, y))), (i + 1) as usize)
            } else {
                (None, i)
            },
            _ => (None, i),
        },
{
    match (a, b) {
        (Some(x), Some(y)) => {
            if i < usize::MAX {
                (Some((i, (x, y))), i + 1)
            } else {
                (None, i)
            }
        },
        _ => (None, i),
    }
}

/// The running index of a zipped chunk puller after a chunk of the shorter
/// of `ll` and `rl` pairs, from `index`; `None` when it would pass
/// `usize::MAX`.
pub fn advance_index(index: usize, ll: usize, rl: usize) -> (r: Option<usize>)
    ensures
        r == if index + min_len(ll as int, rl as int) <= usize::MAX {
            Some((index + min_len(ll as int, rl as int)) as usize)
        } else {
            None::<usize>
        },
{
    let chunk_len = if ll <= rl {
        ll
    } else {
        rl
    };
    if chunk_len > usize::MAX - index {
        None
    } else {
        Some(index + chunk_len)
    }
}

/// Pairs `l` and `r` position by position, up to the end of the shorter.
pub fn pair_up<A, B>(l: Vec<A>, r: Vec<B>) -> (o: Vec<(A, B)>)
    ensures
        o@ == pairs(l@, r@),
{
    let ghost (l0, r0) = (l@, r@);
    let mut l = l;
    let mut r = r;
    let n = if l.len() <= r.len() {
        l.len()
    } else {
        r.len()
    };
    l.truncate(n);
    r.truncate(n);
    // Pairs come off the back, then are turned round into order.
    let mut back: Vec<(A, B)> = Vec::new();
    while l.len() > 0
        invariant
            l@.len() == r@.len(),
            back@.len() + l@.len() == n,
            n == min_len(l0.len() as int, r0.len() as int),
            l@ == l0.subrange(0, l@.len() as int),
            r@ == r0.subrange(0, r@.len() as int),
            forall|j: int|
                0 <= j < back@.len() ==> #[trigger] back@[j] == (l0[n - 1 - j], r0[n - 1 - j]),
        decreases l@.len(),
    {
        let a = l.pop().unwrap();
        let b = r.pop().unwrap();
        back.push((a, b));
    }
    let mut out: Vec<(A, B)> = Vec::new();
    while back.len() > 0
        invariant
            back@.len() + out@.len() == n,
            n == min_len(l0.len() as int, r0.len() as int),
            forall|j: int|
                0 <= j < back@.len() ==> #[trigger] back@[j] == (l0[n - 1 - j], r0[n - 1 - j]),
            forall|j: int| 0 <= j < out@.len() ==> #[trigger] out@[j] == (l0[j], r0[j]),
        decreases back@.len(),
    {
        let p = back.pop().unwrap();
        out.push(p);
    }
    assert(out@ =~= pairs(l0, r0));
    out
}

/// A concurrent source of the pairs of two sources, ending with the shorter.
pub struct ConIterZip<I1, I2> {
    left: I1,
    right: I2,
    index: parking_lot::Mutex<usize>,
}

impl<I1: ConcurrentIter, I2: ConcurrentIter> ConIterZip<I1, I2> {
    pub closed spec fn left(&self) -> I1 {
        self.left
    }

    pub closed spec fn right(&self) -> I2 {
        self.right
    }

    /// Zips `left` with `right`.
    pub fn new(left: I1, right: I2) -> (r: Self)
        ensures
            r.left() == left,
            r.right() == right,
    {
        ConIterZip { left, right, index: new_counter(0) }
    }
}

impl<I1: ConcurrentIter, I2: ConcurrentIter> ConcurrentIter for ConIterZip<I1, I2> {
    type Item = (I1::Item, I2::Item);

    open spec fn holds(&self, x: (I1::Item, I2::Item)) -> bool {
        self.left().holds(x.0) && self.right().holds(x.1)
    }

    /// Positions of a zip are its own count of pairs: each half of a pair is
    /// the item at some position of its own side.
    open spec fn holds_at(&self, i: int, x: (I1::Item, I2::Item)) -> bool {
        &&& exists|k: int| #[trigger] self.left().holds_at(k, x.0)
        &&& exists|k: int| #[trigger] self.right().holds_at(k, x.1)
    }

    open spec fn total_len(&self) -> int {
        min_len(self.left().total_len(), self.right().total_len())
    }

    open spec fn completes(&self) -> bool {
        self.left().completes() && self.right().completes()
    }

    fn next(&self) -> (r: Option<(I1::Item, I2::Item)>) {
        match self.next_with_idx() {
            Some((_, x)) => Some(x),
            None => None,
        }
    }

    fn next_with_idx(&self) -> (r: Option<(usize, (I1::Item, I2::Item))>) {
        // Left, then right, under one lock: an item already taken from the
        // left is dropped when the right side has none.
        let mut guard = lock_counter(&self.index);
        let ghost mut ka: int = 0;
        let ghost mut kb: int = 0;
        let a = match self.left.next_with_idx() {
            Some((k, a)) => {
                proof {
                    ka = k as int;
                }
                Some(a)
            },
            None => None,
        };
        let b = if a.is_some() {
            match self.right.next_with_idx() {
                Some((k, b)) => {
                    proof {
                        kb = k as int;
                    }
                    Some(b)
                },
                None => None,
            }
        } else {
            None
        };
        assert(a matches Some(x) ==> self.left().holds_at(ka, x) && self.left().holds(x));
        assert(b matches Some(y) ==> self.right().holds_at(kb, y) && self.right().holds(y));
        let i = read_counter(&guard);
        let (out, next) = zip_step(i, a, b);
        proof {
            assert(out matches Some((_, (x, y))) ==> self.left().holds_at(ka, x)
                && self.right().holds_at(kb, y));
        }
        if out.is_some() {
            write_counter(&mut guard, next);
        }
        out
    }

    fn into_seq_iter(self) -> (r: Vec<(I1::Item, I2::Item)>) {
        let ghost zip = self;
        let l = self.left.into_seq_iter();
        let r = self.right.into_seq_iter();
        let out = pair_up(l, r);
        assert forall|j: int| 0 <= j < out@.len() implies zip.holds(#[trigger] out@[j]) by {
            assert(out@[j] == (l@[j], r@[j]));
        }
        out
    }

    fn size_hint(&self) -> (r: (usize, Option<usize>))
        ensures
            r.0 == 0,
    {
        let (_, lu) = self.left.size_hint();
        let (_, ru) = self.right.size_hint();
        (0, zip_upper(lu, ru))
    }

    fn is_completed_when_none_returned(&self) -> (r: bool) {
        self.left.is_completed_when_none_returned() && self.right.is_completed_when_none_returned()
    }

    fn skip_to_end(&self) {
        self.left.skip_to_end();
        self.right.skip_to_end();
    }
}

impl<'a, I1, I2> ChunkPullerSource<'a> for ConIterZip<I1, I2> where
    I1: ChunkPullerSource<'a>,
    I2: ChunkPullerSource<'a>,
 {
    type Puller = ZippedChunkPuller<I1::Puller, I2::Puller>;

    fn chunk_puller(&'a self, chunk_size: usize) -> (r: ZippedChunkPuller<I1::Puller, I2::Puller>)
        ensures
            r.index() == 0,
    {
        let r = ZippedChunkPuller::new(&self.left, &self.right, chunk_size);
        assert forall|b: int, s: Seq<(I1::Item, I2::Item)>| #[trigger]
            r.may_issue(b, s) implies forall|j: int|
                0 <= j < s.len() ==> self.holds_at(b + j, #[trigger] s[j]) by {
            let (bl, ls, br, rs) = choose|bl: int, ls: Seq<I1::Item>, br: int, rs: Seq<I2::Item>|
                r.left_puller().may_issue(bl, ls) && r.right_puller().may_issue(br, rs) && s
                    == pairs(ls, rs);
            assert forall|j: int| 0 <= j < s.len() implies self.holds_at(b + j, #[trigger] s[j]) by {
                assert(s[j] == (ls[j], rs[j]));
                assert(self.left().holds_at(bl + j, s[j].0));
                assert(self.right().holds_at(br + j, s[j].1));
            }
        }
        r
    }
}

} // verus!

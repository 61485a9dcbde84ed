use vstd::prelude::*;

verus! {

/// The range `(begin, count)` that a request for up to `n` items takes from
/// a shared cursor standing at `pos` over `len` items: everything from `pos`
/// up to `n` items, or nothing once the cursor has reached the end.
pub open spec fn reserve_spec(pos: int, len: int, n: int) -> Option<(int, int)> {
    if pos >= len {
        None
    } else if n < len - pos {
        Some((pos, n))
    } else {
        Some((pos, len - pos))
    }
}

/// Where the shared cursor stands after the requests `reqs`, made in this
/// order by any threads, on a source of `len` items.
pub open spec fn cursor_after(len: int, reqs: Seq<int>) -> int
    decreases reqs.len(),
{
    if reqs.len() == 0 {
        0
    } else {
        let p = cursor_after(len, reqs.drop_last());
        match reserve_spec(p, len, reqs.last()) {
            None => p,
            Some((b, c)) => b + c,
        }
    }
}

/// The positions handed out by the requests `reqs`, made in this order.
pub open spec fn delivered(len: int, reqs: Seq<int>) -> Set<int>
    decreases reqs.len(),
{
    if reqs.len() == 0 {
        Set::empty()
    } else {
        let before = delivered(len, reqs.drop_last());
        match reserve_spec(cursor_after(len, reqs.drop_last()), len, reqs.last()) {
            None => before,
            Some((b, c)) => before.union(Set::new(|p: int| b <= p < b + c)),
        }
    }
}

/// Computes `reserve_spec`: the range that a request for up to `n` items
/// takes from a cursor at `pos` over `len` items.
pub fn reserve(pos: usize, len: usize, n: usize) -> (r: Option<(usize, usize)>)
    ensures
        match reserve_spec(pos as int, len as int, n as int) {
            None => r is None,
            Some((b, c)) => r == Some((b as usize, c as usize)),
        },
{
    if pos >= len {
        None
    } else if n < len - pos {
        Some((pos, n))
    } else {
        Some((pos, len - pos))
    }
}

/// Whatever the number of threads and however their requests interleave,
/// the shared cursor serialises them: the positions handed out so far are
/// exactly `0 .. cursor`, each request of at least one item takes the range
/// that starts where the previous one ended (so no two ranges overlap), and
/// once a request comes back empty every position has been handed out.
pub proof fn lemma_reservations_partition(len: int, reqs: Seq<int>)
    requires
        len >= 0,
        forall|k: int| 0 <= k < reqs.len() ==> reqs[k] >= 1,
    ensures
        0 <= cursor_after(len, reqs) <= len,
        delivered(len, reqs) == Set::new(|p: int| 0 <= p < cursor_after(len, reqs)),
        forall|k: int|
            0 <= k < reqs.len() ==> match #[trigger] reserve_spec(
                cursor_after(len, reqs.take(k)),
                len,
                reqs[k],
            ) {
                None => cursor_after(len, reqs.take(k)) == len,
                Some((b, c)) => b == cursor_after(len, reqs.take(k)) && 1 <= c && b + c
                    == cursor_after(len, reqs.take(k + 1)),
            },
    decreases reqs.len(),
{
    if reqs.len() > 0 {
        let pre = reqs.drop_last();
        lemma_reservations_partition(len, pre);
        assert(delivered(len, reqs) =~= Set::new(|p: int| 0 <= p < cursor_after(len, reqs)));
        assert forall|k: int| 0 <= k < reqs.len() implies match #[trigger] reserve_spec(
            cursor_after(len, reqs.take(k)),
            len,
            reqs[k],
        ) {
            None => cursor_after(len, reqs.take(k)) == len,
            Some((b, c)) => b == cursor_after(len, reqs.take(k)) && 1 <= c && b + c
                == cursor_after(len, reqs.take(k + 1)),
        } by {
            assert(reqs.take(k + 1).drop_last() =~= reqs.take(k));
            if k < reqs.len() - 1 {
                assert(pre.take(k) =~= reqs.take(k));
                assert(pre.take(k + 1) =~= reqs.take(k + 1));
                assert(pre[k] == reqs[k]);
            } else {
                assert(reqs.take(k) =~= pre);
                assert(reqs.take(k + 1) =~= reqs);
            }
        }
    }
}

/// Once the cursor stands at or past the end (as `skip_to_end` leaves it),
/// every later request comes back empty and leaves the cursor where it is.
pub proof fn lemma_exhausted_stays_exhausted(pos: int, len: int, n: int)
    requires
        pos >= len,
    ensures
        reserve_spec(pos, len, n) is None,
{
}

} // verus!

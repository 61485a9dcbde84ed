use con_zip::reserve::reserve;
use con_zip::zip::{advance_index, pair_up, zip_step, zip_upper};
use con_zip::{
    ChunkPuller, ChunkPullerSource, ConIterVec, ConIterZip, ConcurrentIter, EnumeratedChunkPuller,
    ExactChunk, ZippedChunkPuller,
};

fn drain<C: ExactChunk>(mut c: C) -> Vec<C::Item> {
    let mut out = Vec::new();
    while let Some(x) = c.next() {
        out.push(x);
    }
    out
}

#[test]
fn zip_single_item_pulls_stop_at_shorter_side() {
    let zip = ConIterZip::new(ConIterVec::new(vec!["a", "b", "c"]), ConIterVec::new(vec![1, 2, 3, 4, 5]));
    assert_eq!(zip.next_with_idx(), Some((0, ("a", 1))));
    assert_eq!(zip.next_with_idx(), Some((1, ("b", 2))));
    assert_eq!(zip.next_with_idx(), Some((2, ("c", 3))));
    assert_eq!(zip.next_with_idx(), None);
    assert_eq!(zip.next(), None);
}

#[test]
fn zip_single_item_next_pairs_in_order() {
    let zip = ConIterZip::new(ConIterVec::new(vec![10u8, 20]), ConIterVec::new(vec!['x', 'y', 'z']));
    assert_eq!(zip.next(), Some((10, 'x')));
    assert_eq!(zip.next(), Some((20, 'y')));
    assert_eq!(zip.next(), None);
}

#[test]
fn zip_chunked_left_longer_than_right() {
    let zip = ConIterZip::new(ConIterVec::new(vec![1, 2, 3, 4, 5]), ConIterVec::new(vec![10, 20]));
    let mut puller = zip.chunk_puller(2);
    assert_eq!(puller.chunk_size(), 2);
    let (begin, chunk) = puller.pull_with_idx().unwrap();
    assert_eq!(begin, 0);
    assert_eq!(chunk.len(), 2);
    assert_eq!(chunk.size_hint(), (2, Some(2)));
    assert_eq!(drain(chunk), vec![(1, 10), (2, 20)]);
    assert!(puller.pull_with_idx().is_none());
    assert!(puller.pull().is_none());
}

#[test]
fn zip_chunk_is_as_long_as_shorter_inner_chunk() {
    let left = ConIterVec::new(vec![1, 2, 3, 4, 5, 6, 7]);
    let right = ConIterVec::new(vec!['a', 'b', 'c', 'd', 'e']);
    let mut puller = ZippedChunkPuller::new(&left, &right, 3);
    let (b0, c0) = puller.pull_with_idx().unwrap();
    assert_eq!(b0, 0);
    assert_eq!(drain(c0), vec![(1, 'a'), (2, 'b'), (3, 'c')]);
    let (b1, c1) = puller.pull_with_idx().unwrap();
    assert_eq!(b1, 3);
    assert_eq!(c1.len(), 2);
    assert_eq!(drain(c1), vec![(4, 'd'), (5, 'e')]);
    assert!(puller.pull_with_idx().is_none());
}

#[test]
fn zip_pull_without_index() {
    let zip = ConIterZip::new(ConIterVec::new(vec![1, 2, 3]), ConIterVec::new(vec![4, 5, 6]));
    let mut puller = zip.chunk_puller(2);
    assert_eq!(drain(puller.pull().unwrap()), vec![(1, 4), (2, 5)]);
    assert_eq!(drain(puller.pull().unwrap()), vec![(3, 6)]);
    assert!(puller.pull().is_none());
}

#[test]
fn single_pulls_from_interleaved_workers_cover_every_position_once() {
    let source = ConIterVec::new((0..50u32).collect::<Vec<_>>());
    let mut seen = vec![0u32; 50];
    let mut workers_done = [false; 3];
    let mut turn: usize = 0;
    while workers_done.iter().any(|d| !d) {
        let w = turn % 3;
        if !workers_done[w] {
            match source.next_with_idx() {
                Some((i, x)) => {
                    assert_eq!(x as usize, i);
                    seen[i] += 1;
                }
                None => workers_done[w] = true,
            }
        }
        turn += 1;
    }
    assert!(seen.iter().all(|&n| n == 1));
}

#[test]
fn chunk_ranges_of_one_puller_are_contiguous() {
    let source = ConIterVec::new((0..10u64).collect::<Vec<_>>());
    let mut puller = source.chunk_puller(3);
    let mut ranges = Vec::new();
    while let Some((begin, chunk)) = puller.pull_with_idx() {
        let len = chunk.len();
        let items = drain(chunk);
        assert_eq!(items, (begin as u64..(begin + len) as u64).collect::<Vec<_>>());
        ranges.push((begin, len));
    }
    assert_eq!(ranges, vec![(0, 3), (3, 3), (6, 3), (9, 1)]);
}

#[test]
fn chunk_size_larger_than_source() {
    let source = ConIterVec::new(vec![7, 8]);
    let mut puller = source.chunk_puller(10);
    let (begin, chunk) = puller.pull_with_idx().unwrap();
    assert_eq!((begin, chunk.len()), (0, 2));
    assert!(puller.pull_with_idx().is_none());
}

#[test]
fn empty_sources_end_at_once() {
    let empty: ConIterVec<i32> = ConIterVec::new(Vec::new());
    assert_eq!(empty.next(), None);
    assert!(empty.chunk_puller(4).pull().is_none());
    let zip = ConIterZip::new(ConIterVec::new(vec![1, 2]), ConIterVec::<i32>::new(Vec::new()));
    assert_eq!(zip.next_with_idx(), None);
    assert!(zip.chunk_puller(1).pull_with_idx().is_none());
}

#[test]
fn enumerated_indices_follow_reservations() {
    let source = ConIterVec::new(vec!['a', 'b', 'c', 'd', 'e', 'f', 'g']);
    let mut first = EnumeratedChunkPuller::new(source.chunk_puller(2));
    let mut second = EnumeratedChunkPuller::new(source.chunk_puller(3));
    assert_eq!(first.chunk_size(), 2);
    let (b0, c0) = first.pull_with_idx().unwrap();
    assert_eq!(b0, 0);
    assert_eq!(c0.size_hint(), (2, Some(2)));
    assert_eq!(drain(c0), vec![(0, 'a'), (1, 'b')]);
    let c1 = second.pull().unwrap();
    assert_eq!(c1.len(), 3);
    assert_eq!(drain(c1), vec![(2, 'c'), (3, 'd'), (4, 'e')]);
    let (b2, c2) = first.pull_with_idx().unwrap();
    assert_eq!(b2, 5);
    assert_eq!(drain(c2), vec![(5, 'f'), (6, 'g')]);
    assert!(second.pull().is_none());
    assert!(first.pull_with_idx().is_none());
}

#[test]
fn skip_to_end_stops_every_later_pull() {
    let source = ConIterVec::new(vec![1, 2, 3, 4]);
    assert_eq!(source.next(), Some(1));
    source.skip_to_end();
    assert_eq!(source.next(), None);
    assert_eq!(source.next_with_idx(), None);
    assert!(source.chunk_puller(2).pull().is_none());
    assert_eq!(source.size_hint(), (0, Some(0)));
    source.skip_to_end();
    assert_eq!(source.next(), None);
}

#[test]
fn zip_skip_to_end_stops_both_sides() {
    let zip = ConIterZip::new(ConIterVec::new(vec![1, 2, 3]), ConIterVec::new(vec![4, 5, 6]));
    assert_eq!(zip.next(), Some((1, 4)));
    zip.skip_to_end();
    assert_eq!(zip.next(), None);
    assert!(zip.chunk_puller(2).pull().is_none());
}

#[test]
fn zip_size_hint_is_bounded_by_both_sides() {
    let zip = ConIterZip::new(ConIterVec::new(vec!["a", "b", "c"]), ConIterVec::new(vec![1, 2, 3, 4, 5]));
    assert_eq!(zip.size_hint(), (0, Some(3)));
    zip.next();
    assert_eq!(zip.size_hint(), (0, Some(2)));
    assert_eq!(zip_upper(Some(4), Some(9)), Some(4));
    assert_eq!(zip_upper(Some(9), Some(4)), Some(4));
    assert_eq!(zip_upper(None, Some(4)), Some(4));
    assert_eq!(zip_upper(Some(4), None), Some(4));
    assert_eq!(zip_upper(None, None), None);
}

#[test]
fn zip_discards_left_item_when_right_runs_out() {
    let left = ConIterVec::new(vec![1, 2, 3]);
    let zip = ConIterZip::new(left, ConIterVec::new(vec![9]));
    assert_eq!(zip.next(), Some((1, 9)));
    assert_eq!(zip.next(), None);
    assert_eq!(zip.next(), None);
    assert_eq!(zip.size_hint(), (0, Some(0)));
}

#[test]
fn completion_is_reported_for_finite_sources() {
    let source = ConIterVec::new(vec![1]);
    assert!(source.is_completed_when_none_returned());
    let zip = ConIterZip::new(ConIterVec::new(vec![1]), ConIterVec::new(vec![2]));
    assert!(zip.is_completed_when_none_returned());
}

#[test]
fn reserve_takes_up_to_the_request() {
    assert_eq!(reserve(0, 10, 3), Some((0, 3)));
    assert_eq!(reserve(8, 10, 3), Some((8, 2)));
    assert_eq!(reserve(10, 10, 3), None);
    assert_eq!(reserve(12, 10, 1), None);
}

#[test]
fn into_seq_iter_returns_what_is_left() {
    let source = ConIterVec::new(vec![1, 2, 3, 4]);
    assert_eq!(source.next(), Some(1));
    assert_eq!(source.into_seq_iter(), vec![2, 3, 4]);
    let skipped = ConIterVec::new(vec![1, 2]);
    skipped.skip_to_end();
    assert_eq!(skipped.into_seq_iter(), Vec::<i32>::new());
}

#[test]
fn zip_into_seq_iter_pairs_up_to_shorter_side() {
    let zip = ConIterZip::new(ConIterVec::new(vec!["a", "b", "c"]), ConIterVec::new(vec![1, 2, 3, 4, 5]));
    assert_eq!(zip.into_seq_iter(), vec![("a", 1), ("b", 2), ("c", 3)]);
    let zip = ConIterZip::new(ConIterVec::new(vec![1, 2, 3]), ConIterVec::new(vec![4, 5, 6]));
    assert_eq!(zip.next(), Some((1, 4)));
    assert_eq!(zip.into_seq_iter(), vec![(2, 5), (3, 6)]);
}

#[test]
fn interleaved_pullers_of_different_sizes_cover_every_position_once() {
    let n: usize = 1_000;
    let source = ConIterVec::new((0..n).collect::<Vec<_>>());
    let mut pullers: Vec<_> =
        (1..=4).map(|k| EnumeratedChunkPuller::new(source.chunk_puller(k))).collect();
    let mut done = vec![false; pullers.len()];
    let mut all = Vec::new();
    let mut turn: usize = 0;
    while done.iter().any(|d| !d) {
        let w = turn % pullers.len();
        if !done[w] {
            match pullers[w].pull() {
                Some(chunk) => {
                    for (i, x) in drain(chunk) {
                        assert_eq!(i, x);
                        all.push(i);
                    }
                }
                None => done[w] = true,
            }
        }
        turn += 1;
    }
    all.sort();
    assert_eq!(all, (0..n).collect::<Vec<_>>());
}

#[test]
fn interleaved_zip_pulls_keep_positions_together() {
    let n: usize = 300;
    let zip = ConIterZip::new(
        ConIterVec::new((0..n).collect::<Vec<_>>()),
        ConIterVec::new((0..n + 7).map(|x| x * 2).collect::<Vec<_>>()),
    );
    let mut got = Vec::new();
    let mut k: usize = 0;
    loop {
        let next = if k % 2 == 0 {
            zip.next_with_idx()
        } else {
            zip.next().map(|p| (usize::MAX, p))
        };
        match next {
            Some((i, (a, b))) => {
                assert_eq!(b, 2 * a);
                if i != usize::MAX {
                    assert_eq!(i, a);
                }
                got.push(a);
            }
            None => break,
        }
        k += 1;
    }
    assert_eq!(got, (0..n).collect::<Vec<_>>());
}

#[test]
fn zip_step_pairs_and_counts() {
    assert_eq!(zip_step(4, Some('a'), Some(1)), (Some((4, ('a', 1))), 5));
    assert_eq!(zip_step(4, Some('a'), None::<i32>), (None, 4));
    assert_eq!(zip_step(4, None::<char>, Some(1)), (None, 4));
    assert_eq!(zip_step(usize::MAX, Some('a'), Some(1)), (None, usize::MAX));
}

#[test]
fn advance_index_moves_by_shorter_chunk() {
    assert_eq!(advance_index(0, 2, 2), Some(2));
    assert_eq!(advance_index(6, 3, 1), Some(7));
    assert_eq!(advance_index(usize::MAX - 1, 5, 2), None);
    assert_eq!(advance_index(usize::MAX - 2, 5, 2), Some(usize::MAX));
}

#[test]
fn pair_up_keeps_order_and_stops_at_shorter() {
    assert_eq!(pair_up(vec![1, 2, 3], vec!['x', 'y']), vec![(1, 'x'), (2, 'y')]);
    assert_eq!(pair_up(vec![1], vec!['x', 'y']), vec![(1, 'x')]);
    assert_eq!(pair_up(Vec::<i32>::new(), vec!['x']), Vec::<(i32, char)>::new());
}

//! How a read-out of the accounts is shared out among workers.
//!
//! The workers only read, each its own stretch of the list of clients; what
//! is decided here is where each stretch begins and ends.

use vstd::prelude::*;

verus! {

/// The greatest number of workers that a read-out is shared among.
pub const MAX_THREAD: usize = 100;

/// The stretch of worker `i` out of `workers`, over a list of `len` items
/// with at least one item for each worker: every worker gets
/// `len / workers` items, and the last one the remainder as well.
pub open spec fn stretch(len: int, workers: int, i: int) -> (int, int) {
    let each = len / workers;
    (i * each, if i + 1 == workers { len } else { (i + 1) * each })
}

/// The stretches for a list of `len` items and at most `workers` workers:
/// none for an empty list, one stretch for a list shorter than the number of
/// workers, and otherwise one for each worker.
pub open spec fn stretches(len: int, workers: int) -> Seq<(int, int)> {
    if len < 1 {
        Seq::empty()
    } else if len < workers {
        seq![(0, len)]
    } else {
        Seq::new(workers as nat, |i: int| stretch(len, workers, i))
    }
}

/// The stretches of a non-empty list follow one another without a gap from
/// the first item to the last: together they hold every item once.
pub proof fn lemma_stretches_cover(len: int, workers: int)
    requires
        0 < len,
        0 < workers,
    ensures
        stretches(len, workers).len() > 0,
        stretches(len, workers).first().0 == 0,
        stretches(len, workers).last().1 == len,
        forall|i: int|
            0 <= i < stretches(len, workers).len() ==> (#[trigger] stretches(len, workers)[i]).0
                <= stretches(len, workers)[i].1,
        forall|i: int|
            0 <= i < stretches(len, workers).len() - 1 ==> (#[trigger] stretches(
                len,
                workers,
            )[i]).1 == stretches(len, workers)[i + 1].0,
{
    if len >= workers {
        let each = len / workers;
        assert(each * workers <= len) by (nonlinear_arith)
            requires
                each == len / workers,
                0 < workers,
                0 < len,
        ;
        assert forall|i: int| 0 <= i < workers implies (#[trigger] stretches(len, workers)[i]).0
            <= stretches(len, workers)[i].1 by {
            assert(i * each <= (i + 1) * each) by (nonlinear_arith)
                requires
                    0 <= each,
            ;
            assert(i * each <= each * workers) by (nonlinear_arith)
                requires
                    0 <= each,
                    0 <= i < workers,
            ;
        }
    }
}

/// Shares a list of `len` items out among at most `workers` workers, as
/// stretches `(from, to)` that hold the items from `from` up to, not
/// including, `to`.
pub fn partition(len: usize, workers: usize) -> (ranges: Vec<(usize, usize)>)
    requires
        0 < workers,
    ensures
        ranges@.len() == stretches(len as int, workers as int).len(),
        forall|i: int|
            0 <= i < ranges@.len() ==> (#[trigger] ranges@[i].0 as int, ranges@[i].1 as int)
                == stretches(len as int, workers as int)[i],
{
    let mut ranges: Vec<(usize, usize)> = Vec::new();
    if len < 1 {
        return ranges;
    }
    if len < workers {
        ranges.push((0, len));
        return ranges;
    }
    let nodes: usize = len / workers;
    let mut counter: usize = 0;
    let mut from: usize = 0;
    proof {
        assert(nodes * workers <= len) by (nonlinear_arith)
            requires
                nodes == len / workers,
                0 < workers,
        ;
    }
    while counter < workers
        invariant
            0 < workers <= len,
            nodes == len / workers,
            nodes * workers <= len,
            counter <= workers,
            from == if counter == workers { len as int } else { counter * nodes },
            ranges@.len() == counter,
            forall|i: int|
                0 <= i < counter ==> (#[trigger] ranges@[i].0 as int, ranges@[i].1 as int)
                    == stretch(len as int, workers as int, i),
        decreases workers - counter,
    {
        let new_count: usize = counter + 1;
        proof {
            assert(new_count * nodes <= nodes * workers) by (nonlinear_arith)
                requires
                    new_count <= workers,
                    0 <= nodes,
            ;
        }
        let mut to: usize = new_count * nodes;
        if new_count == workers {
            to = len;
        }
        ranges.push((from, to));
        counter += 1;
        from = to;
    }
    ranges
}

} // verus!

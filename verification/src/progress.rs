//! The progress of a whole transfer: the sum of what its workers have
//! written, and what a periodic observer reports of it.

use crate::range::block_size;
use crate::range::lemma_block_bounds;
use crate::range::plan_spec;
use crate::range::valid_split;
use crate::segment::progress_of;
use crate::segment::SegmentState;
use crate::segment::StreamEvent;
use vstd::prelude::*;

verus! {

/// What the observer reports at one tick.
#[derive(Clone, Copy, Debug, PartialEq, Eq, Structural)]
pub enum Observation {
    /// The transfer goes on: so many bytes of so many are there.
    Progress { done: u64, total: u64 },
    /// All bytes are there: the observer stops.
    Finished,
}

/// What a count of `bytes_done` out of `bytes_total` is reported as.
pub open spec fn observation(bytes_done: u64, bytes_total: u64) -> Observation {
    if bytes_done >= bytes_total {
        Observation::Finished
    } else {
        Observation::Progress { done: bytes_done, total: bytes_total }
    }
}

/// Says what the observer reports for the count it has just read.
pub fn observe(bytes_done: u64, bytes_total: u64) -> (o: Observation)
    ensures
        o == observation(bytes_done, bytes_total),
{
    if bytes_done >= bytes_total {
        Observation::Finished
    } else {
        Observation::Progress { done: bytes_done, total: bytes_total }
    }
}

/// The bytes that all the workers together have written.
pub open spec fn total_written(states: Seq<SegmentState>) -> int
    decreases states.len(),
{
    if states.len() == 0 {
        0
    } else {
        total_written(states.drop_last()) + states.last().bytes_written
    }
}

/// The workers of a transfer: one well-formed state for each range of the
/// plan, in the plan's order.
pub open spec fn follows_plan(
    states: Seq<SegmentState>,
    total_length: u64,
    worker_count: u64,
) -> bool {
    &&& states.len() == worker_count
    &&& forall|i: int|
        0 <= i < worker_count ==> (#[trigger] states[i]).wf() && states[i].range == plan_spec(
            total_length,
            worker_count,
        )[i]
}

/// Whether every worker has written all of its range.
pub open spec fn all_complete(states: Seq<SegmentState>) -> bool {
    forall|i: int| 0 <= i < states.len() ==> (#[trigger] states[i]).spec_is_complete()
}

/// The offset at which the ranges of the first `k` workers end.
pub open spec fn boundary(total_length: int, worker_count: int, k: int) -> int {
    if k == worker_count {
        total_length
    } else {
        k * block_size(total_length, worker_count)
    }
}

/// The first `k` workers have written no more than their ranges hold, and
/// exactly that much if each of them has written all of its range.
pub proof fn lemma_prefix_progress(
    states: Seq<SegmentState>,
    total_length: u64,
    worker_count: u64,
    k: int,
)
    requires
        valid_split(total_length, worker_count),
        follows_plan(states, total_length, worker_count),
        0 <= k <= worker_count,
    ensures
        0 <= total_written(states.subrange(0, k)) <= boundary(
            total_length as int,
            worker_count as int,
            k,
        ),
        total_written(states.subrange(0, k)) == boundary(
            total_length as int,
            worker_count as int,
            k,
        ) <==> all_complete(states.subrange(0, k)),
    decreases k,
{
    let t = total_length as int;
    let n = worker_count as int;
    let b = block_size(t, n);
    let prefix = states.subrange(0, k);
    if k == 0 {
        assert(0 * b == 0) by (nonlinear_arith);
    } else {
        let shorter = states.subrange(0, k - 1);
        let s = states[k - 1];
        assert(prefix.drop_last() =~= shorter);
        assert(prefix.last() == s);
        lemma_prefix_progress(states, total_length, worker_count, k - 1);
        lemma_block_bounds(t, n, k - 1);
        assert(s.wf());
        assert(s.range == plan_spec(total_length, worker_count)[k - 1]);
        assert(s.range.start == boundary(t, n, k - 1));
        assert(s.range.end == boundary(t, n, k));
        if all_complete(prefix) {
            assert forall|i: int| 0 <= i < shorter.len() implies (#[trigger] shorter[i]).spec_is_complete() by {
                assert(shorter[i] == prefix[i]);
            }
            assert(prefix[k - 1].spec_is_complete());
        }
        if total_written(prefix) == boundary(t, n, k) {
            assert forall|i: int| 0 <= i < prefix.len() implies (#[trigger] prefix[i]).spec_is_complete() by {
                if i < k - 1 {
                    assert(prefix[i] == shorter[i]);
                }
            }
        }
    }
}

/// The workers of a transfer have together written no more than the
/// resource holds, and exactly that much if and only if each of them has
/// written all of its range.
pub proof fn lemma_progress_bounded(
    states: Seq<SegmentState>,
    total_length: u64,
    worker_count: u64,
)
    requires
        valid_split(total_length, worker_count),
        follows_plan(states, total_length, worker_count),
    ensures
        0 <= total_written(states) <= total_length,
        total_written(states) == total_length <==> all_complete(states),
{
    lemma_prefix_progress(states, total_length, worker_count, worker_count as int);
    assert(states.subrange(0, worker_count as int) =~= states);
}

/// Putting another state in place of worker `i`'s changes the sum by the
/// difference of the two counts.
pub proof fn lemma_total_written_update(states: Seq<SegmentState>, i: int, s: SegmentState)
    requires
        0 <= i < states.len(),
    ensures
        total_written(states.update(i, s)) == total_written(states) - states[i].bytes_written
            + s.bytes_written,
    decreases states.len(),
{
    let after = states.update(i, s);
    if i == states.len() - 1 {
        assert(after.drop_last() =~= states.drop_last());
    } else {
        assert(after.drop_last() =~= states.drop_last().update(i, s));
        lemma_total_written_update(states.drop_last(), i, s);
    }
}

/// The sum never goes down: when worker `i` takes an event, the sum grows
/// by what the worker's action adds to the shared progress, and the
/// workers still follow the plan.
pub proof fn lemma_progress_monotone(
    states: Seq<SegmentState>,
    total_length: u64,
    worker_count: u64,
    i: int,
    event: StreamEvent,
)
    requires
        follows_plan(states, total_length, worker_count),
        0 <= i < worker_count,
    ensures
        follows_plan(states.update(i, states[i].next(event)), total_length, worker_count),
        total_written(states.update(i, states[i].next(event))) == total_written(states)
            + progress_of(states[i].action(event)),
        total_written(states.update(i, states[i].next(event))) >= total_written(states),
{
    let s = states[i];
    assert(s.wf());
    lemma_total_written_update(states, i, s.next(event));
    let after = states.update(i, s.next(event));
    assert forall|j: int| 0 <= j < worker_count implies (#[trigger] after[j]).wf() && after[j].range
        == plan_spec(total_length, worker_count)[j] by {
        if j != i {
            assert(after[j] == states[j]);
        }
    }
}

} // verus!

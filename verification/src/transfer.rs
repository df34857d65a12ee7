//! The steps of a transfer around its workers: learning the length,
//! setting the workers up, and the verdict when they have stopped.

use crate::decimal::decimal_value;
use crate::decimal::parse_decimal;
use crate::error::TransferError;
use crate::range::plan;
use crate::range::plan_spec;
use crate::range::valid_split;
use crate::range::lemma_plan_partitions;
use crate::range::ByteRange;
use crate::progress::follows_plan;
use crate::progress::total_written;
use crate::segment::SegmentState;
use vstd::prelude::*;

verus! {

/// The text that every request carries as its user agent.
pub const USER_AGENT: &'static str =
    "Mozilla/5.0 (Windows NT 10.0; Win64; x64) AppleWebKit/537.36 (KHTML, like Gecko) Chrome/73.0.3683.103 Safari/537.36";

/// The time between two looks of the observer at the progress, in
/// milliseconds.
pub const POLL_INTERVAL_MILLIS: u64 = 500;

/// The number of whole mebibytes in `length` bytes.
pub fn whole_mebibytes(length: u64) -> (n: u64)
    ensures
        n == length / 1048576,
{
    length / 1048576
}

/// The length that a probe response declares: `header` is the value of its
/// length header, if it has one.
pub open spec fn length_outcome(header: Option<Seq<u8>>) -> Result<u64, TransferError> {
    match header {
        None => Err(TransferError::LengthUnavailable),
        Some(text) => match decimal_value(text) {
            Some(length) => Ok(length),
            None => Err(TransferError::LengthUnparsable),
        },
    }
}

/// The value of the header as a sequence, where there is one.
pub open spec fn header_view(header: Option<&[u8]>) -> Option<Seq<u8>> {
    match header {
        Some(text) => Some(text@),
        None => None,
    }
}

/// Reads the resource's length from the value of the probe response's
/// length header.
pub fn resolve_length(header: Option<&[u8]>) -> (r: Result<u64, TransferError>)
    ensures
        r == length_outcome(header_view(header)),
{
    match header {
        None => Err(TransferError::LengthUnavailable),
        Some(text) => match parse_decimal(text) {
            Some(length) => Ok(length),
            None => Err(TransferError::LengthUnparsable),
        },
    }
}

/// One fresh worker for each range, in order.
pub open spec fn initial_states(ranges: Seq<ByteRange>) -> Seq<SegmentState> {
    Seq::new(ranges.len(), |i: int| SegmentState::initial(ranges[i]))
}

/// What `prepare` owes: the error of the length, if it has none; else
/// `InvalidWorkerCount` if the split is not valid; else one fresh worker
/// for each range of the plan.
pub open spec fn prepare_outcome(
    header: Option<Seq<u8>>,
    worker_count: u64,
    r: Result<Vec<SegmentState>, TransferError>,
) -> bool {
    match length_outcome(header) {
        Err(e) => r == Err::<Vec<SegmentState>, TransferError>(e),
        Ok(length) => if valid_split(length, worker_count) {
            r is Ok && r->Ok_0@ == initial_states(plan_spec(length, worker_count))
        } else {
            r == Err::<Vec<SegmentState>, TransferError>(TransferError::InvalidWorkerCount)
        },
    }
}

/// Sets a transfer up from the probe response's length header and the
/// number of workers. Where it fails there are no workers.
pub fn prepare(header: Option<&[u8]>, worker_count: u64) -> (r: Result<
    Vec<SegmentState>,
    TransferError,
>)
    ensures
        prepare_outcome(header_view(header), worker_count, r),
        r is Ok ==> forall|i: int| 0 <= i < r->Ok_0@.len() ==> (#[trigger] r->Ok_0@[i]).wf(),
{
    let length: u64 = match resolve_length(header) {
        Ok(length) => length,
        Err(e) => {
            return Err(e);
        },
    };
    let ranges: Vec<ByteRange> = match plan(length, worker_count) {
        Ok(ranges) => ranges,
        Err(e) => {
            return Err(e);
        },
    };
    let mut states: Vec<SegmentState> = Vec::new();
    let mut i: usize = 0;
    while i < ranges.len()
        invariant
            i <= ranges@.len(),
            states@.len() == i,
            ranges@ == plan_spec(length, worker_count),
            forall|j: int| 0 <= j < ranges@.len() ==> (#[trigger] ranges@[j]).wf(),
            forall|j: int| 0 <= j < i ==> states@[j] == SegmentState::initial(ranges@[j]),
            forall|j: int| 0 <= j < i ==> (#[trigger] states@[j]).wf(),
        decreases ranges@.len() - i,
    {
        states.push(SegmentState::new(ranges[i]));
        i += 1;
    }
    assert(states@ =~= initial_states(ranges@));
    Ok(states)
}

/// The verdict of the transfer: the first failure among the workers'
/// results, taken in the order given, or success if there is none.
pub open spec fn first_failure(results: Seq<Result<(), TransferError>>) -> Result<
    (),
    TransferError,
>
    decreases results.len(),
{
    if results.len() == 0 {
        Ok(())
    } else if results[0] is Err {
        results[0]
    } else {
        first_failure(results.skip(1))
    }
}

/// Gives the verdict of the transfer from the results of its workers, in
/// the order in which they stopped.
pub fn verdict(results: &Vec<Result<(), TransferError>>) -> (r: Result<(), TransferError>)
    ensures
        r == first_failure(results@),
        r is Ok <==> forall|i: int| 0 <= i < results@.len() ==> (#[trigger] results@[i]) is Ok,
{
    let mut i: usize = 0;
    assert(results@.skip(0) =~= results@);
    while i < results.len()
        invariant
            i <= results@.len(),
            first_failure(results@) == first_failure(results@.skip(i as int)),
            forall|j: int| 0 <= j < i ==> (#[trigger] results@[j]) is Ok,
        decreases results@.len() - i,
    {
        let ghost rest = results@.skip(i as int);
        proof {
            assert(rest[0] == results@[i as int]);
            assert(rest.skip(1) =~= results@.skip(i + 1));
        }
        match results[i] {
            Err(e) => {
                return Err(e);
            },
            Ok(_) => {},
        }
        i += 1;
    }
    Ok(())
}

/// A transfer whose length cannot be learned has no workers: `prepare`
/// then returns the error of the length, whatever the number of workers.
pub proof fn lemma_no_length_no_workers(
    header: Option<Seq<u8>>,
    worker_count: u64,
    r: Result<Vec<SegmentState>, TransferError>,
)
    requires
        length_outcome(header) is Err,
        prepare_outcome(header, worker_count, r),
    ensures
        r is Err,
        r->Err_0 == length_outcome(header)->Err_0,
        header is None ==> r->Err_0 == TransferError::LengthUnavailable,
        header is Some ==> r->Err_0 == TransferError::LengthUnparsable,
{
}

/// Where `prepare` succeeds, its workers follow the plan: there is one for
/// each range, none has written anything, and none is complete.
pub proof fn lemma_prepared_workers_follow_plan(
    header: Option<Seq<u8>>,
    worker_count: u64,
    r: Result<Vec<SegmentState>, TransferError>,
)
    requires
        prepare_outcome(header, worker_count, r),
        r is Ok,
    ensures
        length_outcome(header) is Ok,
        valid_split(length_outcome(header)->Ok_0, worker_count),
        follows_plan(r->Ok_0@, length_outcome(header)->Ok_0, worker_count),
        total_written(r->Ok_0@) == 0,
{
    let length = length_outcome(header)->Ok_0;
    lemma_plan_partitions(length, worker_count);
    lemma_nothing_written(r->Ok_0@);
}

/// Workers that have written nothing have together written nothing.
pub proof fn lemma_nothing_written(states: Seq<SegmentState>)
    requires
        forall|i: int| 0 <= i < states.len() ==> (#[trigger] states[i]).bytes_written == 0,
    ensures
        total_written(states) == 0,
    decreases states.len(),
{
    if states.len() > 0 {
        let shorter = states.drop_last();
        assert forall|i: int| 0 <= i < shorter.len() implies (#[trigger] shorter[i]).bytes_written
            == 0 by {
            assert(shorter[i] == states[i]);
        }
        lemma_nothing_written(shorter);
    }
}

} // verus!

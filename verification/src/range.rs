//! Splitting a resource into one contiguous byte range per worker.

use crate::error::TransferError;
use vstd::prelude::*;

verus! {

/// A run of bytes of the resource: `start` is the first offset in it, `end`
/// the first offset after it.
#[derive(Clone, Copy, Debug, PartialEq, Eq, Structural)]
pub struct ByteRange {
    pub start: u64,
    pub end: u64,
}

impl ByteRange {
    /// A range is well formed when it holds at least one byte.
    pub open spec fn wf(self) -> bool {
        self.start < self.end
    }

    /// The number of bytes in the range.
    pub open spec fn spec_len(self) -> int {
        self.end - self.start
    }

    /// Whether the byte at `offset` belongs to the range.
    pub open spec fn contains(self, offset: int) -> bool {
        self.start <= offset < self.end
    }

    /// Tells whether the range is well formed.
    pub fn is_wf(&self) -> (b: bool)
        ensures
            b == self.wf(),
    {
        self.start < self.end
    }

    /// The number of bytes in the range.
    pub fn len(&self) -> (n: u64)
        requires
            self.wf(),
        ensures
            n == self.spec_len(),
    {
        self.end - self.start
    }

    /// The offset of the last byte of the range, as a range request names it.
    pub fn last(&self) -> (offset: u64)
        requires
            self.wf(),
        ensures
            offset == self.end - 1,
    {
        self.end - 1
    }
}

/// A resource can be split when there is at least one worker and at least
/// one byte for each of them.
pub open spec fn valid_split(total_length: u64, worker_count: u64) -> bool {
    1 <= worker_count <= total_length
}

/// The size of every range but the last.
pub open spec fn block_size(total_length: int, worker_count: int) -> int {
    total_length / worker_count
}

/// Where the range of worker `i` begins.
pub open spec fn planned_start(total_length: int, worker_count: int, i: int) -> int {
    i * block_size(total_length, worker_count)
}

/// Where the range of worker `i` ends: the last worker takes what is left.
pub open spec fn planned_end(total_length: int, worker_count: int, i: int) -> int {
    if i == worker_count - 1 {
        total_length
    } else {
        (i + 1) * block_size(total_length, worker_count)
    }
}

/// The range of worker `i`.
pub open spec fn planned_range(total_length: u64, worker_count: u64, i: int) -> ByteRange {
    ByteRange {
        start: planned_start(total_length as int, worker_count as int, i) as u64,
        end: planned_end(total_length as int, worker_count as int, i) as u64,
    }
}

/// The ranges of all workers, in order.
pub open spec fn plan_spec(total_length: u64, worker_count: u64) -> Seq<ByteRange> {
    Seq::new(worker_count as nat, |i: int| planned_range(total_length, worker_count, i))
}

/// What `plan` owes for given arguments: the plan where the split is valid,
/// and `InvalidWorkerCount` where it is not.
pub open spec fn plan_outcome(
    total_length: u64,
    worker_count: u64,
    r: Result<Vec<ByteRange>, TransferError>,
) -> bool {
    match r {
        Ok(ranges) => valid_split(total_length, worker_count) && ranges@ == plan_spec(
            total_length,
            worker_count,
        ),
        Err(e) => !valid_split(total_length, worker_count) && e
            == TransferError::InvalidWorkerCount,
    }
}

/// Whether some range of `ranges` holds the byte at `offset`.
pub open spec fn covered(ranges: Seq<ByteRange>, offset: int) -> bool {
    exists|i: int| 0 <= i < ranges.len() && #[trigger] ranges[i].contains(offset)
}

/// Arithmetic of blocks: with at least one byte per worker a block is not
/// empty, and the blocks of workers `0..=i` fit into the resource.
pub proof fn lemma_block_bounds(total_length: int, worker_count: int, i: int)
    requires
        1 <= worker_count <= total_length,
        0 <= i < worker_count,
    ensures
        block_size(total_length, worker_count) >= 1,
        0 <= planned_start(total_length, worker_count, i),
        planned_start(total_length, worker_count, i) + block_size(total_length, worker_count) == (i
            + 1) * block_size(total_length, worker_count),
        (i + 1) * block_size(total_length, worker_count) <= total_length,
        planned_start(total_length, worker_count, i) < planned_end(total_length, worker_count, i),
        planned_end(total_length, worker_count, i) <= total_length,
        (worker_count - 1) * block_size(total_length, worker_count) + block_size(
            total_length,
            worker_count,
        ) + total_length % worker_count == total_length,
{
    let b = total_length / worker_count;
    let m = total_length % worker_count;
    vstd::arithmetic::div_mod::lemma_fundamental_div_mod(total_length, worker_count);
    assert(0 <= m < worker_count) by {
        vstd::arithmetic::div_mod::lemma_mod_pos_bound(total_length, worker_count);
    }
    assert(b >= 1) by (nonlinear_arith)
        requires
            total_length == worker_count * b + m,
            0 <= m < worker_count,
            1 <= worker_count <= total_length,
    ;
    assert(0 <= i * b && i * b + b == (i + 1) * b && (i + 1) * b <= worker_count * b) by (nonlinear_arith)
        requires
            0 <= i < worker_count,
            b >= 1,
    ;
    assert((worker_count - 1) * b + b == worker_count * b) by (nonlinear_arith);
}

/// Splits `total_length` bytes among `worker_count` workers.
pub fn plan(total_length: u64, worker_count: u64) -> (r: Result<Vec<ByteRange>, TransferError>)
    ensures
        plan_outcome(total_length, worker_count, r),
        r is Ok ==> forall|i: int| 0 <= i < r->Ok_0@.len() ==> (#[trigger] r->Ok_0@[i]).wf(),
{
    if worker_count == 0 || worker_count > total_length {
        return Err(TransferError::InvalidWorkerCount);
    }
    let block: u64 = total_length / worker_count;
    let mut ranges: Vec<ByteRange> = Vec::new();
    let mut i: u64 = 0;
    while i < worker_count
        invariant
            valid_split(total_length, worker_count),
            block == block_size(total_length as int, worker_count as int),
            i <= worker_count,
            ranges@.len() == i,
            forall|j: int| 0 <= j < i ==> ranges@[j] == planned_range(total_length, worker_count, j),
            forall|j: int| 0 <= j < i ==> (#[trigger] ranges@[j]).wf(),
        decreases worker_count - i,
    {
        proof {
            lemma_block_bounds(total_length as int, worker_count as int, i as int);
        }
        let start: u64 = i * block;
        let end: u64 = if i == worker_count - 1 {
            total_length
        } else {
            (i + 1) * block
        };
        ranges.push(ByteRange { start, end });
        i += 1;
    }
    assert(ranges@ =~= plan_spec(total_length, worker_count));
    Ok(ranges)
}

/// The ranges of a valid split are one per worker, none of them empty; the
/// first begins at offset 0, each begins where the one before it ends, and
/// the last ends at `total_length`. No two of them share a byte, and a byte
/// is in one of them exactly if it is a byte of the resource.
pub proof fn lemma_plan_partitions(total_length: u64, worker_count: u64)
    requires
        valid_split(total_length, worker_count),
    ensures
        plan_spec(total_length, worker_count).len() == worker_count,
        plan_spec(total_length, worker_count)[0].start == 0,
        plan_spec(total_length, worker_count)[worker_count - 1].end == total_length,
        forall|i: int|
            0 <= i < worker_count ==> (#[trigger] plan_spec(total_length, worker_count)[i]).wf(),
        forall|i: int|
            0 <= i < worker_count - 1 ==> (#[trigger] plan_spec(total_length, worker_count)[i]).end
                == plan_spec(total_length, worker_count)[i + 1].start,
        forall|i: int, j: int|
            0 <= i < j < worker_count ==> (#[trigger] plan_spec(total_length, worker_count)[i]).end
                <= (#[trigger] plan_spec(total_length, worker_count)[j]).start,
        forall|offset: int|
            0 <= offset < total_length <==> #[trigger] covered(
                plan_spec(total_length, worker_count),
                offset,
            ),
{
    let t = total_length as int;
    let n = worker_count as int;
    let b = block_size(t, n);
    let p = plan_spec(total_length, worker_count);
    assert forall|i: int| 0 <= i < n implies (#[trigger] p[i]).wf() && p[i].start == planned_start(
        t,
        n,
        i,
    ) && p[i].end == planned_end(t, n, i) && p[i].end <= t by {
        lemma_block_bounds(t, n, i);
    }
    assert(p[0].start == 0) by (nonlinear_arith)
        requires
            p[0].start == 0 * b,
    ;
    assert forall|i: int, j: int| 0 <= i < j < n implies (#[trigger] p[i]).end <= (#[trigger] p[j]).start by {
        lemma_block_bounds(t, n, i);
        assert((i + 1) * b <= j * b) by (nonlinear_arith)
            requires
                i + 1 <= j,
                b >= 1,
        ;
    }
    assert forall|offset: int| 0 <= offset < t implies #[trigger] covered(p, offset) by {
        lemma_block_bounds(t, n, 0);
        let q = offset / b;
        vstd::arithmetic::div_mod::lemma_fundamental_div_mod(offset, b);
        vstd::arithmetic::div_mod::lemma_mod_pos_bound(offset, b);
        assert(q >= 0 && q * b <= offset < q * b + b) by (nonlinear_arith)
            requires
                offset == b * q + offset % b,
                0 <= offset % b < b,
                offset >= 0,
                b >= 1,
        ;
        if q < n - 1 {
            lemma_block_bounds(t, n, q);
            assert(p[q].contains(offset));
        } else {
            lemma_block_bounds(t, n, n - 1);
            assert((n - 1) * b <= q * b) by (nonlinear_arith)
                requires
                    n - 1 <= q,
                    b >= 1,
            ;
            assert(p[n - 1].contains(offset));
        }
    }
    assert forall|offset: int| #[trigger] covered(p, offset) implies 0 <= offset < t by {
        let i = choose|i: int| 0 <= i < p.len() && #[trigger] p[i].contains(offset);
        lemma_block_bounds(t, n, i);
    }
}

/// Every range of a valid split but the last holds `total_length /
/// worker_count` bytes, and the last holds that many and the remainder of
/// the division.
pub proof fn lemma_plan_lengths(total_length: u64, worker_count: u64)
    requires
        valid_split(total_length, worker_count),
    ensures
        forall|i: int|
            0 <= i < worker_count - 1 ==> (#[trigger] plan_spec(
                total_length,
                worker_count,
            )[i]).spec_len() == total_length / worker_count,
        plan_spec(total_length, worker_count)[worker_count - 1].spec_len() == total_length
            / worker_count + total_length % worker_count,
{
    let t = total_length as int;
    let n = worker_count as int;
    let p = plan_spec(total_length, worker_count);
    assert forall|i: int| 0 <= i < n - 1 implies (#[trigger] p[i]).spec_len() == t / n by {
        lemma_block_bounds(t, n, i);
    }
    lemma_block_bounds(t, n, n - 1);
}

/// Planning is a function of its two arguments: whatever two calls of
/// `plan` with the same arguments return, they return the same.
pub proof fn lemma_plan_deterministic(
    total_length: u64,
    worker_count: u64,
    first: Result<Vec<ByteRange>, TransferError>,
    second: Result<Vec<ByteRange>, TransferError>,
)
    requires
        plan_outcome(total_length, worker_count, first),
        plan_outcome(total_length, worker_count, second),
    ensures
        match (first, second) {
            (Ok(a), Ok(b)) => a@ == b@,
            (Err(e), Err(f)) => e == f,
            _ => false,
        },
{
}

} // verus!

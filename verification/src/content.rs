//! What ends up in the output: the bytes that a worker's writes leave in
//! its range, whatever breaks and new requests lie between them.

use crate::range::ByteRange;
use crate::segment::Action;
use crate::segment::SegmentState;
use crate::segment::SegmentStatus;
use crate::segment::StreamEvent;
use vstd::prelude::*;

verus! {

/// The output after `data` was written at `offset`.
pub open spec fn write_at(file: Seq<u8>, offset: int, data: Seq<u8>) -> Seq<u8> {
    Seq::new(
        file.len(),
        |i: int|
            if offset <= i < offset + data.len() {
                data[i - offset]
            } else {
                file[i]
            },
    )
}

/// The output after an action was carried out against a server that
/// answers a range request with the bytes of `source` in that range: a
/// write puts the source's bytes at its offset, anything else leaves the
/// output alone.
pub open spec fn output_after(source: Seq<u8>, file: Seq<u8>, a: Action) -> Seq<u8> {
    match a {
        Action::Write { offset, len } => write_at(
            file,
            offset as int,
            source.subrange(offset as int, offset + len),
        ),
        _ => file,
    }
}

/// The worker's state after it has taken `events` one after the other.
pub open spec fn state_after(s: SegmentState, events: Seq<StreamEvent>) -> SegmentState
    decreases events.len(),
{
    if events.len() == 0 {
        s
    } else {
        state_after(s.next(events[0]), events.skip(1))
    }
}

/// The output after the worker has taken `events` one after the other.
pub open spec fn output_of(
    source: Seq<u8>,
    file: Seq<u8>,
    s: SegmentState,
    events: Seq<StreamEvent>,
) -> Seq<u8>
    decreases events.len(),
{
    if events.len() == 0 {
        file
    } else {
        output_of(
            source,
            output_after(source, file, s.action(events[0])),
            s.next(events[0]),
            events.skip(1),
        )
    }
}

/// Whether `a` and `b` hold the same bytes from offset `lo` up to `hi`.
pub open spec fn agree(a: Seq<u8>, b: Seq<u8>, lo: int, hi: int) -> bool {
    forall|i: int| lo <= i < hi ==> a[i] == b[i]
}

/// Whatever events a worker takes, what it has written of its range is
/// what the source holds there, and no byte outside its range is touched.
pub proof fn lemma_writes_are_faithful(
    source: Seq<u8>,
    file: Seq<u8>,
    s: SegmentState,
    events: Seq<StreamEvent>,
)
    requires
        s.wf(),
        s.range.end <= source.len(),
        file.len() == source.len(),
        agree(file, source, s.range.start as int, s.spec_cursor()),
    ensures
        state_after(s, events).wf(),
        state_after(s, events).range == s.range,
        state_after(s, events).bytes_written >= s.bytes_written,
        output_of(source, file, s, events).len() == file.len(),
        agree(
            output_of(source, file, s, events),
            source,
            s.range.start as int,
            state_after(s, events).spec_cursor(),
        ),
        forall|i: int|
            0 <= i < file.len() && !s.range.contains(i) ==> output_of(source, file, s, events)[i]
                == file[i],
    decreases events.len(),
{
    if events.len() > 0 {
        let a = s.action(events[0]);
        let s1 = s.next(events[0]);
        let f1 = output_after(source, file, a);
        assert(agree(f1, source, s1.range.start as int, s1.spec_cursor()));
        lemma_writes_are_faithful(source, f1, s1, events.skip(1));
        assert forall|i: int| 0 <= i < file.len() && !s.range.contains(i) implies output_of(
            source,
            file,
            s,
            events,
        )[i] == file[i] by {
            assert(f1[i] == file[i]);
        }
    }
}

/// A worker that is done has put the source's bytes into its range. So two
/// runs of a worker on the same range leave the same bytes there, however
/// often the stream of either broke off and was taken up again.
pub proof fn lemma_resumed_segment_is_identical(
    source: Seq<u8>,
    file: Seq<u8>,
    range: ByteRange,
    smooth: Seq<StreamEvent>,
    broken: Seq<StreamEvent>,
)
    requires
        range.wf(),
        range.end <= source.len(),
        file.len() == source.len(),
        state_after(SegmentState::initial(range), smooth).status == SegmentStatus::Done,
        state_after(SegmentState::initial(range), broken).status == SegmentStatus::Done,
    ensures
        output_of(source, file, SegmentState::initial(range), broken).subrange(
            range.start as int,
            range.end as int,
        ) == source.subrange(range.start as int, range.end as int),
        output_of(source, file, SegmentState::initial(range), broken).subrange(
            range.start as int,
            range.end as int,
        ) == output_of(source, file, SegmentState::initial(range), smooth).subrange(
            range.start as int,
            range.end as int,
        ),
{
    let s = SegmentState::initial(range);
    lemma_writes_are_faithful(source, file, s, smooth);
    lemma_writes_are_faithful(source, file, s, broken);
    let lo = range.start as int;
    let hi = range.end as int;
    assert(output_of(source, file, s, broken).subrange(lo, hi) =~= source.subrange(lo, hi));
    assert(output_of(source, file, s, smooth).subrange(lo, hi) =~= source.subrange(lo, hi));
}

} // verus!

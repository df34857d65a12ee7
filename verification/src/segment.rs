//! One worker's part of a transfer: what it has written of its range, and
//! what it does next when the stream of a range request delivers, breaks
//! or ends.

use crate::error::TransferError;
use crate::range::ByteRange;
use vstd::prelude::*;

verus! {

/// Where a worker stands.
#[derive(Clone, Copy, Debug, PartialEq, Eq, Structural)]
pub enum SegmentStatus {
    /// The worker is requesting or receiving.
    Fetching,
    /// The range is written and the last response is exhausted.
    Done,
    /// The worker gave up.
    Failed(TransferError),
}

/// What the worker's surroundings report to it.
#[derive(Clone, Copy, Debug, PartialEq, Eq, Structural)]
pub enum StreamEvent {
    /// The response delivered a chunk of this many bytes.
    Chunk(u64),
    /// The stream broke off with an error.
    Interrupted,
    /// The response ended in good order.
    Ended,
    /// The request could not be built or sent.
    RequestFailed,
    /// The chunk last handed out for writing could not be written.
    WriteFailed,
}

/// What the worker's surroundings are to do next.
#[derive(Clone, Copy, Debug, PartialEq, Eq, Structural)]
pub enum Action {
    /// Request the bytes from offset `first` to offset `last`, both
    /// included, and report what the response delivers.
    Request { first: u64, last: u64 },
    /// Write the chunk at `offset`, add `len` to the shared progress, and
    /// report what the response delivers next.
    Write { offset: u64, len: u64 },
    /// Flush the output and stop: the range is there.
    Finish,
    /// Stop with this error.
    Fail(TransferError),
}

/// The bookkeeping of one worker.
#[derive(Clone, Copy, Debug, PartialEq, Eq, Structural)]
pub struct SegmentState {
    /// The range that the worker owns.
    pub range: ByteRange,
    /// How many bytes of the range have been handed out for writing.
    pub bytes_written: u64,
    /// How many of them came with the response that is being read.
    pub delivered: u64,
    /// Where the worker stands.
    pub status: SegmentStatus,
}

impl SegmentState {
    /// The state is well formed when the range is, no more is written than
    /// the range holds, no more is counted for the current response than is
    /// written, and a worker that is done has written all of it.
    pub open spec fn wf(self) -> bool {
        &&& self.range.wf()
        &&& self.bytes_written <= self.range.spec_len()
        &&& self.delivered <= self.bytes_written
        &&& (self.status == SegmentStatus::Done ==> self.bytes_written == self.range.spec_len())
    }

    /// The state of a worker that has not begun.
    pub open spec fn initial(range: ByteRange) -> SegmentState {
        SegmentState { range, bytes_written: 0, delivered: 0, status: SegmentStatus::Fetching }
    }

    /// The offset of the next byte to write.
    pub open spec fn spec_cursor(self) -> int {
        self.range.start + self.bytes_written
    }

    /// How many bytes of the range are still missing.
    pub open spec fn spec_remaining(self) -> int {
        self.range.spec_len() - self.bytes_written
    }

    /// Whether every byte of the range has been written.
    pub open spec fn spec_is_complete(self) -> bool {
        self.bytes_written == self.range.spec_len()
    }

    /// The request for all that is still missing.
    pub open spec fn resume_request(self) -> Action {
        Action::Request { first: self.spec_cursor() as u64, last: (self.range.end - 1) as u64 }
    }

    /// The state with this status and all else unchanged.
    pub open spec fn with_status(self, status: SegmentStatus) -> SegmentState {
        SegmentState { status, ..self }
    }

    /// The state when a new request goes out: the new response has not
    /// delivered anything yet.
    pub open spec fn reconnected(self) -> SegmentState {
        SegmentState { delivered: 0, ..self }
    }

    /// The state after a chunk of `len` bytes was taken.
    pub open spec fn advanced(self, len: u64) -> SegmentState {
        SegmentState {
            bytes_written: (self.bytes_written + len) as u64,
            delivered: (self.delivered + len) as u64,
            ..self
        }
    }

    /// What the worker tells its surroundings to do on `event`.
    ///
    /// While fetching: a chunk that fits is written at the cursor, one that
    /// does not fit is refused; a stream that breaks off, or that ends
    /// after it delivered something, is followed by a request for the
    /// rest; a response that ends without having delivered anything of a
    /// range that is still incomplete is a short read. Once all is
    /// written, the end of the stream, in good order or not, finishes the
    /// worker. A worker that is done or has failed repeats its verdict.
    pub open spec fn action(self, event: StreamEvent) -> Action {
        match self.status {
            SegmentStatus::Done => Action::Finish,
            SegmentStatus::Failed(e) => Action::Fail(e),
            SegmentStatus::Fetching => match event {
                StreamEvent::Chunk(len) => if len <= self.spec_remaining() {
                    Action::Write { offset: self.spec_cursor() as u64, len }
                } else {
                    Action::Fail(TransferError::RangeNotSupported)
                },
                StreamEvent::Interrupted => if self.spec_is_complete() {
                    Action::Finish
                } else {
                    self.resume_request()
                },
                StreamEvent::Ended => if self.spec_is_complete() {
                    Action::Finish
                } else if self.delivered == 0 {
                    Action::Fail(TransferError::ShortRead)
                } else {
                    self.resume_request()
                },
                StreamEvent::RequestFailed => Action::Fail(TransferError::RequestError),
                StreamEvent::WriteFailed => Action::Fail(TransferError::IoError),
            },
        }
    }

    /// The state after `event`, which goes with `action(event)`: a write
    /// moves the cursor, a new request starts counting anew, and the two
    /// verdicts are kept.
    pub open spec fn next(self, event: StreamEvent) -> SegmentState {
        match self.action(event) {
            Action::Write { offset, len } => self.advanced(len),
            Action::Request { first, last } => self.reconnected(),
            Action::Finish => self.with_status(SegmentStatus::Done),
            Action::Fail(e) => self.with_status(SegmentStatus::Failed(e)),
        }
    }

    /// The state of a worker that has not begun.
    pub fn new(range: ByteRange) -> (s: SegmentState)
        requires
            range.wf(),
        ensures
            s == SegmentState::initial(range),
            s.wf(),
    {
        SegmentState { range, bytes_written: 0, delivered: 0, status: SegmentStatus::Fetching }
    }

    /// Tells whether the state is well formed.
    pub fn is_wf(&self) -> (b: bool)
        ensures
            b == self.wf(),
    {
        if self.range.start >= self.range.end {
            return false;
        }
        let len: u64 = self.range.end - self.range.start;
        let done_is_complete: bool = match self.status {
            SegmentStatus::Done => self.bytes_written == len,
            _ => true,
        };
        self.bytes_written <= len && self.delivered <= self.bytes_written && done_is_complete
    }

    /// The offset of the next byte to write.
    pub fn cursor(&self) -> (offset: u64)
        requires
            self.wf(),
        ensures
            offset == self.spec_cursor(),
    {
        self.range.start + self.bytes_written
    }

    /// How many bytes of the range are still missing.
    pub fn remaining(&self) -> (n: u64)
        requires
            self.wf(),
        ensures
            n == self.spec_remaining(),
    {
        self.range.end - self.range.start - self.bytes_written
    }

    /// Whether every byte of the range has been written.
    pub fn is_complete(&self) -> (b: bool)
        requires
            self.wf(),
        ensures
            b == self.spec_is_complete(),
    {
        self.bytes_written == self.range.end - self.range.start
    }

    /// The first request of a worker: for the range from the cursor on.
    pub fn first_request(&self) -> (a: Action)
        requires
            self.wf(),
            !self.spec_is_complete(),
        ensures
            a == self.resume_request(),
            a == (Action::Request {
                first: (self.range.start + self.bytes_written) as u64,
                last: (self.range.end - 1) as u64,
            }),
    {
        Action::Request { first: self.range.start + self.bytes_written, last: self.range.end - 1 }
    }

    /// Takes `event` and says what to do next.
    pub fn step(&mut self, event: StreamEvent) -> (a: Action)
        requires
            old(self).wf(),
        ensures
            a == old(self).action(event),
            *final(self) == old(self).next(event),
            final(self).wf(),
            final(self).range == old(self).range,
            final(self).bytes_written >= old(self).bytes_written,
    {
        match self.status {
            SegmentStatus::Done => Action::Finish,
            SegmentStatus::Failed(e) => Action::Fail(e),
            SegmentStatus::Fetching => {
                let left: u64 = self.range.end - self.range.start - self.bytes_written;
                match event {
                    StreamEvent::Chunk(len) => {
                        if len <= left {
                            let offset: u64 = self.range.start + self.bytes_written;
                            self.bytes_written = self.bytes_written + len;
                            self.delivered = self.delivered + len;
                            Action::Write { offset, len }
                        } else {
                            self.status = SegmentStatus::Failed(TransferError::RangeNotSupported);
                            Action::Fail(TransferError::RangeNotSupported)
                        }
                    },
                    StreamEvent::Interrupted => {
                        if left == 0 {
                            self.status = SegmentStatus::Done;
                            Action::Finish
                        } else {
                            self.delivered = 0;
                            Action::Request {
                                first: self.range.start + self.bytes_written,
                                last: self.range.end - 1,
                            }
                        }
                    },
                    StreamEvent::Ended => {
                        if left == 0 {
                            self.status = SegmentStatus::Done;
                            Action::Finish
                        } else if self.delivered == 0 {
                            self.status = SegmentStatus::Failed(TransferError::ShortRead);
                            Action::Fail(TransferError::ShortRead)
                        } else {
                            self.delivered = 0;
                            Action::Request {
                                first: self.range.start + self.bytes_written,
                                last: self.range.end - 1,
                            }
                        }
                    },
                    StreamEvent::RequestFailed => {
                        self.status = SegmentStatus::Failed(TransferError::RequestError);
                        Action::Fail(TransferError::RequestError)
                    },
                    StreamEvent::WriteFailed => {
                        self.status = SegmentStatus::Failed(TransferError::IoError);
                        Action::Fail(TransferError::IoError)
                    },
                }
            },
        }
    }
}

/// The bytes that an action adds to the shared progress.
pub open spec fn progress_of(a: Action) -> int {
    match a {
        Action::Write { offset, len } => len as int,
        _ => 0,
    }
}

/// A step keeps a state well formed and its range in place, and moves the
/// count of written bytes forward by what the action adds to the progress,
/// never back.
pub proof fn lemma_step_advances(s: SegmentState, event: StreamEvent)
    requires
        s.wf(),
    ensures
        s.next(event).wf(),
        s.next(event).range == s.range,
        s.next(event).bytes_written == s.bytes_written + progress_of(s.action(event)),
        s.next(event).bytes_written >= s.bytes_written,
{
}

/// A worker whose stream broke off after `bytes_written` bytes of its range,
/// short of the end, asks for the bytes from `range.start + bytes_written`
/// to the last of the range, and keeps what it has written.
pub proof fn lemma_interruption_resumes(s: SegmentState)
    requires
        s.wf(),
        s.status == SegmentStatus::Fetching,
        !s.spec_is_complete(),
    ensures
        s.action(StreamEvent::Interrupted) == (Action::Request {
            first: (s.range.start + s.bytes_written) as u64,
            last: (s.range.end - 1) as u64,
        }),
        s.range.start + s.bytes_written <= s.range.end - 1,
        s.next(StreamEvent::Interrupted).bytes_written == s.bytes_written,
        s.next(StreamEvent::Interrupted).status == SegmentStatus::Fetching,
{
}

/// A response that ends in good order short of the range's end is a short
/// read exactly if it delivered nothing; the worker then has failed and
/// asks for nothing more. Where it asks again, the response that ended had
/// moved the cursor, so no run of responses that all end in good order
/// goes on for more requests than the range has bytes.
pub proof fn lemma_short_read(s: SegmentState)
    requires
        s.wf(),
        s.status == SegmentStatus::Fetching,
        !s.spec_is_complete(),
    ensures
        s.delivered == 0 <==> s.action(StreamEvent::Ended) == Action::Fail(
            TransferError::ShortRead,
        ),
        s.delivered == 0 ==> s.next(StreamEvent::Ended).status == SegmentStatus::Failed(
            TransferError::ShortRead,
        ),
        s.delivered == 0 ==> forall|event: StreamEvent|
            #[trigger] s.next(StreamEvent::Ended).action(event) == Action::Fail(
                TransferError::ShortRead,
            ),
        s.delivered > 0 ==> s.action(StreamEvent::Ended) == s.resume_request(),
{
}

/// A worker finishes only with all of its range written, and only on the
/// end of a stream.
pub proof fn lemma_finish_is_complete(s: SegmentState, event: StreamEvent)
    requires
        s.wf(),
        s.action(event) == Action::Finish,
    ensures
        s.spec_is_complete(),
        s.next(event).status == SegmentStatus::Done,
        s.status == SegmentStatus::Fetching ==> event == StreamEvent::Ended || event
            == StreamEvent::Interrupted,
{
}

} // verus!

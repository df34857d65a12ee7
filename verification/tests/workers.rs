use segmented_fetch::error::TransferError;
use segmented_fetch::progress::observe;
use segmented_fetch::progress::Observation;
use segmented_fetch::range::plan;
use segmented_fetch::range::ByteRange;
use segmented_fetch::header::range_header;
use segmented_fetch::segment::Action;
use segmented_fetch::segment::SegmentState;
use segmented_fetch::segment::SegmentStatus;
use segmented_fetch::segment::StreamEvent;
use segmented_fetch::target::TransferTarget;
use segmented_fetch::transfer::prepare;
use segmented_fetch::transfer::verdict;
use segmented_fetch::transfer::POLL_INTERVAL_MILLIS;
use segmented_fetch::transfer::USER_AGENT;

fn fresh(start: u64, end: u64) -> SegmentState {
    SegmentState::new(ByteRange { start, end })
}

#[test]
fn fresh_worker_asks_for_its_whole_range() {
    let s = fresh(2500, 5000);
    assert_eq!(s.bytes_written, 0);
    assert_eq!(s.cursor(), 2500);
    assert_eq!(s.remaining(), 2500);
    assert!(!s.is_complete());
    assert_eq!(s.status, SegmentStatus::Fetching);
    assert_eq!(s.first_request(), Action::Request { first: 2500, last: 4999 });
}

#[test]
fn chunks_are_written_one_after_the_other() {
    let mut s = fresh(100, 110);
    assert_eq!(s.step(StreamEvent::Chunk(4)), Action::Write { offset: 100, len: 4 });
    assert_eq!(s.step(StreamEvent::Chunk(0)), Action::Write { offset: 104, len: 0 });
    assert_eq!(s.step(StreamEvent::Chunk(6)), Action::Write { offset: 104, len: 6 });
    assert!(s.is_complete());
    assert_eq!(s.status, SegmentStatus::Fetching);
    assert_eq!(s.step(StreamEvent::Ended), Action::Finish);
    assert_eq!(s.status, SegmentStatus::Done);
    assert_eq!(s.bytes_written, 10);
}

#[test]
fn broken_stream_is_resumed_at_the_cursor() {
    let mut s = fresh(2500, 5000);
    assert_eq!(s.step(StreamEvent::Chunk(700)), Action::Write { offset: 2500, len: 700 });
    assert_eq!(s.step(StreamEvent::Interrupted), Action::Request { first: 3200, last: 4999 });
    assert_eq!(s.bytes_written, 700);
    assert_eq!(s.step(StreamEvent::Interrupted), Action::Request { first: 3200, last: 4999 });
    assert_eq!(s.step(StreamEvent::Chunk(1800)), Action::Write { offset: 3200, len: 1800 });
    assert_eq!(s.step(StreamEvent::Ended), Action::Finish);
}

#[test]
fn early_end_after_some_bytes_is_resumed() {
    let mut s = fresh(0, 10);
    assert_eq!(s.step(StreamEvent::Chunk(3)), Action::Write { offset: 0, len: 3 });
    assert_eq!(s.step(StreamEvent::Ended), Action::Request { first: 3, last: 9 });
    assert_eq!(s.delivered, 0);
    assert_eq!(s.status, SegmentStatus::Fetching);
}

#[test]
fn empty_response_short_of_the_end_is_a_short_read() {
    let mut s = fresh(0, 10);
    assert_eq!(s.step(StreamEvent::Chunk(3)), Action::Write { offset: 0, len: 3 });
    assert_eq!(s.step(StreamEvent::Ended), Action::Request { first: 3, last: 9 });
    assert_eq!(s.step(StreamEvent::Ended), Action::Fail(TransferError::ShortRead));
    assert_eq!(s.status, SegmentStatus::Failed(TransferError::ShortRead));
    assert_eq!(s.step(StreamEvent::Chunk(1)), Action::Fail(TransferError::ShortRead));
    assert_eq!(s.bytes_written, 3);
}

#[test]
fn empty_first_response_is_a_short_read() {
    let mut s = fresh(5, 6);
    assert_eq!(s.step(StreamEvent::Ended), Action::Fail(TransferError::ShortRead));
}

#[test]
fn chunk_past_the_end_is_refused() {
    let mut s = fresh(0, 10);
    assert_eq!(s.step(StreamEvent::Chunk(11)), Action::Fail(TransferError::RangeNotSupported));
    assert_eq!(s.bytes_written, 0);
    assert_eq!(s.status, SegmentStatus::Failed(TransferError::RangeNotSupported));
    let mut t = fresh(0, 10);
    assert_eq!(t.step(StreamEvent::Chunk(10)), Action::Write { offset: 0, len: 10 });
    assert_eq!(t.step(StreamEvent::Chunk(1)), Action::Fail(TransferError::RangeNotSupported));
    let mut u = fresh(u64::MAX - 4, u64::MAX);
    assert_eq!(u.step(StreamEvent::Chunk(u64::MAX)), Action::Fail(TransferError::RangeNotSupported));
}

#[test]
fn failed_request_and_failed_write_are_fatal() {
    let mut s = fresh(0, 10);
    assert_eq!(s.step(StreamEvent::RequestFailed), Action::Fail(TransferError::RequestError));
    assert_eq!(s.step(StreamEvent::Ended), Action::Fail(TransferError::RequestError));
    let mut t = fresh(0, 10);
    assert_eq!(t.step(StreamEvent::Chunk(2)), Action::Write { offset: 0, len: 2 });
    assert_eq!(t.step(StreamEvent::WriteFailed), Action::Fail(TransferError::IoError));
    assert_eq!(t.status, SegmentStatus::Failed(TransferError::IoError));
}

#[test]
fn break_after_the_last_byte_finishes() {
    let mut s = fresh(0, 4);
    assert_eq!(s.step(StreamEvent::Chunk(4)), Action::Write { offset: 0, len: 4 });
    assert_eq!(s.step(StreamEvent::Interrupted), Action::Finish);
    assert_eq!(s.status, SegmentStatus::Done);
    assert_eq!(s.step(StreamEvent::Chunk(9)), Action::Finish);
    assert_eq!(s.bytes_written, 4);
}

#[test]
fn observer_reports_until_all_is_there() {
    assert_eq!(observe(0, 10_000), Observation::Progress { done: 0, total: 10_000 });
    assert_eq!(observe(9_999, 10_000), Observation::Progress { done: 9_999, total: 10_000 });
    assert_eq!(observe(10_000, 10_000), Observation::Finished);
    assert_eq!(observe(10_001, 10_000), Observation::Finished);
    assert_eq!(observe(0, 0), Observation::Finished);
    assert_eq!(POLL_INTERVAL_MILLIS, 500);
    assert!(USER_AGENT.starts_with("Mozilla/5.0"));
}

#[test]
fn prepare_makes_one_fresh_worker_for_each_range() {
    let states = prepare(Some(b"10000"), 4).unwrap();
    let ranges = plan(10_000, 4).unwrap();
    assert_eq!(states.len(), 4);
    for i in 0..4 {
        assert_eq!(states[i], SegmentState::new(ranges[i]));
    }
    assert_eq!(states[3].first_request(), Action::Request { first: 7500, last: 9999 });
}

#[test]
fn no_length_means_no_workers() {
    assert_eq!(prepare(None, 4), Err(TransferError::LengthUnavailable));
    assert_eq!(prepare(None, 0), Err(TransferError::LengthUnavailable));
    assert_eq!(prepare(Some(b"many"), 4), Err(TransferError::LengthUnparsable));
    assert_eq!(prepare(Some(b"18446744073709551616"), 4), Err(TransferError::LengthUnparsable));
}

#[test]
fn bad_worker_count_means_no_workers() {
    assert_eq!(prepare(Some(b"10000"), 0), Err(TransferError::InvalidWorkerCount));
    assert_eq!(prepare(Some(b"3"), 4), Err(TransferError::InvalidWorkerCount));
    assert_eq!(prepare(Some(b"0"), 1), Err(TransferError::InvalidWorkerCount));
}

#[test]
fn verdict_is_the_first_failure() {
    assert_eq!(verdict(&vec![]), Ok(()));
    assert_eq!(verdict(&vec![Ok(()), Ok(())]), Ok(()));
    assert_eq!(
        verdict(&vec![Ok(()), Err(TransferError::ShortRead), Err(TransferError::IoError)]),
        Err(TransferError::ShortRead)
    );
    assert_eq!(verdict(&vec![Err(TransferError::IoError), Ok(())]), Err(TransferError::IoError));
}

#[test]
fn target_keeps_a_parsed_uri() {
    let target = TransferTarget::resolve("http://example.com/pub/file.bin", "out.bin".to_string()).unwrap();
    assert_eq!(target.uri.host(), Some("example.com"));
    assert_eq!(target.uri.path(), "/pub/file.bin");
    assert_eq!(target.output_path, "out.bin");
}

#[test]
fn text_that_is_no_uri_is_refused() {
    assert_eq!(TransferTarget::resolve("", "out".to_string()).err(), Some(TransferError::RequestError));
    assert_eq!(
        TransferTarget::resolve("http://exa mple.com/", "out".to_string()).err(),
        Some(TransferError::RequestError)
    );
}

#[test]
fn parsed_result_decides_the_target() {
    let good = "https://example.org/a".parse::<hyper::Uri>();
    let target = TransferTarget::from_parsed(good, "a".to_string()).unwrap();
    assert_eq!(target.uri.scheme_str(), Some("https"));
    let bad = "".parse::<hyper::Uri>();
    assert_eq!(TransferTarget::from_parsed(bad, "a".to_string()).err(), Some(TransferError::RequestError));
}

// A server that honours range requests, cut into responses of at most
// `burst` bytes that break off (or end early) after each burst.
fn transfer(source: &[u8], workers: u64, chunk: u64, burst: u64, breaks: bool) -> (Vec<u8>, u64) {
    let header = source.len().to_string();
    let mut states = prepare(Some(header.as_bytes()), workers).unwrap();
    let mut file: Vec<u8> = vec![0; source.len()];
    let mut progress: u64 = 0;
    let mut results = Vec::new();
    for s in states.iter_mut() {
        let mut action = s.first_request();
        let mut before: u64 = 0;
        let result = loop {
            assert!(s.bytes_written >= before);
            before = s.bytes_written;
            match action {
                Action::Request { first, last } => {
                    assert_eq!(first, s.cursor());
                    assert_eq!(last, s.range.end - 1);
                    assert!(range_header(first, last).starts_with(b"bytes="));
                    let mut sent: u64 = 0;
                    let mut at = first;
                    loop {
                        if at > last {
                            action = s.step(StreamEvent::Ended);
                            break;
                        }
                        if sent >= burst {
                            let event = if breaks { StreamEvent::Interrupted } else { StreamEvent::Ended };
                            action = s.step(event);
                            break;
                        }
                        let len = chunk.min(last - at + 1).min(burst - sent);
                        match s.step(StreamEvent::Chunk(len)) {
                            Action::Write { offset, len } => {
                                assert_eq!(offset, at);
                                let from = offset as usize;
                                let to = (offset + len) as usize;
                                file[from..to].copy_from_slice(&source[from..to]);
                                progress += len;
                                assert!(progress <= source.len() as u64);
                            }
                            other => panic!("unexpected {:?}", other),
                        }
                        at += len;
                        sent += len;
                    }
                }
                Action::Finish => break Ok(()),
                Action::Fail(e) => break Err(e),
                Action::Write { .. } => unreachable!(),
            }
        };
        results.push(result);
    }
    assert_eq!(verdict(&results), Ok(()));
    for s in states.iter() {
        assert!(s.is_complete());
        assert_eq!(s.status, SegmentStatus::Done);
    }
    (file, progress)
}

fn sample(n: usize) -> Vec<u8> {
    (0..n).map(|i| (i * 31 % 251) as u8).collect()
}

#[test]
fn whole_transfer_rebuilds_the_source() {
    let source = sample(10_000);
    let (file, progress) = transfer(&source, 4, 512, u64::MAX, false);
    assert_eq!(file.len(), 10_000);
    assert_eq!(file, source);
    assert_eq!(progress, 10_000);
    assert_eq!(observe(progress, 10_000), Observation::Finished);
}

#[test]
fn interrupted_transfer_rebuilds_the_source() {
    let source = sample(10_000);
    let (smooth, _) = transfer(&source, 4, 512, u64::MAX, false);
    let (broken, progress) = transfer(&source, 4, 100, 333, true);
    assert_eq!(broken, smooth);
    assert_eq!(broken, source);
    assert_eq!(progress, 10_000);
    let (ended_early, progress) = transfer(&source, 3, 64, 1000, false);
    assert_eq!(ended_early, source);
    assert_eq!(progress, 10_000);
}

#[test]
fn well_formed_states_are_told_apart() {
    assert!(fresh(0, 1).is_wf());
    assert!(ByteRange { start: 3, end: 9 }.is_wf());
    assert!(!ByteRange { start: 9, end: 9 }.is_wf());
    assert!(!ByteRange { start: 9, end: 3 }.is_wf());
    let mut s = fresh(0, 10);
    s.bytes_written = 11;
    assert!(!s.is_wf());
    let mut t = fresh(0, 10);
    t.delivered = 1;
    assert!(!t.is_wf());
    let mut u = fresh(0, 10);
    u.status = SegmentStatus::Done;
    assert!(!u.is_wf());
    u.bytes_written = 10;
    assert!(u.is_wf());
    let v = SegmentState {
        range: ByteRange { start: 4, end: 4 },
        bytes_written: 0,
        delivered: 0,
        status: SegmentStatus::Fetching,
    };
    assert!(!v.is_wf());
}

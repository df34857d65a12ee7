use segmented_fetch::error::TransferError;
use segmented_fetch::range::plan;
use segmented_fetch::range::ByteRange;

fn r(start: u64, end: u64) -> ByteRange {
    ByteRange { start, end }
}

#[test]
fn ten_thousand_bytes_for_four_workers() {
    let ranges = plan(10_000, 4).unwrap();
    assert_eq!(ranges, vec![r(0, 2500), r(2500, 5000), r(5000, 7500), r(7500, 10_000)]);
}

#[test]
fn remainder_goes_to_the_last_range() {
    let ranges = plan(10, 3).unwrap();
    assert_eq!(ranges, vec![r(0, 3), r(3, 6), r(6, 10)]);
    assert_eq!(ranges[0].len(), 3);
    assert_eq!(ranges[1].len(), 3);
    assert_eq!(ranges[2].len(), 3 + 1);
}

#[test]
fn one_worker_takes_everything() {
    assert_eq!(plan(77, 1).unwrap(), vec![r(0, 77)]);
    assert_eq!(plan(1, 1).unwrap(), vec![r(0, 1)]);
}

#[test]
fn one_byte_for_each_worker() {
    assert_eq!(plan(3, 3).unwrap(), vec![r(0, 1), r(1, 2), r(2, 3)]);
}

#[test]
fn largest_length_is_planned_without_overflow() {
    let ranges = plan(u64::MAX, 2).unwrap();
    let half = u64::MAX / 2;
    assert_eq!(ranges, vec![r(0, half), r(half, u64::MAX)]);
    assert_eq!(ranges[1].last(), u64::MAX - 1);
}

#[test]
fn no_worker_is_refused() {
    assert_eq!(plan(10, 0), Err(TransferError::InvalidWorkerCount));
}

#[test]
fn more_workers_than_bytes_is_refused() {
    assert_eq!(plan(10, 11), Err(TransferError::InvalidWorkerCount));
    assert_eq!(plan(0, 1), Err(TransferError::InvalidWorkerCount));
    assert_eq!(plan(0, 0), Err(TransferError::InvalidWorkerCount));
}

#[test]
fn ranges_tile_the_resource() {
    let totals: [u64; 6] = [1, 2, 7, 100, 1023, 4096];
    for total in totals {
        for workers in 1..=total.min(40) {
            let ranges = plan(total, workers).unwrap();
            assert_eq!(ranges.len() as u64, workers);
            assert_eq!(ranges[0].start, 0);
            assert_eq!(ranges[ranges.len() - 1].end, total);
            for i in 0..ranges.len() {
                assert!(ranges[i].start < ranges[i].end);
                if i + 1 < ranges.len() {
                    assert_eq!(ranges[i].end, ranges[i + 1].start);
                    assert_eq!(ranges[i].len(), total / workers);
                } else {
                    assert_eq!(ranges[i].len(), total / workers + total % workers);
                }
            }
        }
    }
}

#[test]
fn planning_twice_gives_the_same_ranges() {
    assert_eq!(plan(12_345, 7), plan(12_345, 7));
    assert_eq!(plan(5, 9), plan(5, 9));
}

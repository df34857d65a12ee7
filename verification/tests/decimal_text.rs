use segmented_fetch::decimal::format_decimal;
use segmented_fetch::decimal::parse_decimal;
use segmented_fetch::error::TransferError;
use segmented_fetch::header::range_header;
use segmented_fetch::header::range_header_value;
use segmented_fetch::transfer::resolve_length;
use segmented_fetch::transfer::whole_mebibytes;

#[test]
fn digits_are_read() {
    assert_eq!(parse_decimal(b"0"), Some(0));
    assert_eq!(parse_decimal(b"10000"), Some(10_000));
    assert_eq!(parse_decimal(b"007"), Some(7));
    assert_eq!(parse_decimal(b"+5"), Some(5));
    assert_eq!(parse_decimal(b"18446744073709551615"), Some(u64::MAX));
}

#[test]
fn other_text_is_not_a_number() {
    assert_eq!(parse_decimal(b""), None);
    assert_eq!(parse_decimal(b"+"), None);
    assert_eq!(parse_decimal(b"++5"), None);
    assert_eq!(parse_decimal(b"-1"), None);
    assert_eq!(parse_decimal(b"12a"), None);
    assert_eq!(parse_decimal(b" 12"), None);
    assert_eq!(parse_decimal(b"12 "), None);
    assert_eq!(parse_decimal(b"1.5"), None);
}

#[test]
fn too_large_a_number_is_not_read() {
    assert_eq!(parse_decimal(b"18446744073709551616"), None);
    assert_eq!(parse_decimal(b"99999999999999999999"), None);
    assert_eq!(parse_decimal(b"184467440737095516150"), None);
}

#[test]
fn reading_agrees_with_std() {
    let texts: [&str; 9] = ["", "+", "+0", "-0", "42", "0042", "4 2", "18446744073709551615", "18446744073709551616"];
    for text in texts {
        assert_eq!(parse_decimal(text.as_bytes()), text.parse::<u64>().ok());
    }
}

#[test]
fn numbers_are_written() {
    assert_eq!(format_decimal(0), b"0".to_vec());
    assert_eq!(format_decimal(9), b"9".to_vec());
    assert_eq!(format_decimal(10), b"10".to_vec());
    assert_eq!(format_decimal(7500), b"7500".to_vec());
    assert_eq!(format_decimal(u64::MAX), b"18446744073709551615".to_vec());
}

#[test]
fn written_numbers_read_back() {
    let numbers: [u64; 7] = [0, 1, 9, 10, 99, 1_000_000, u64::MAX];
    for n in numbers {
        assert_eq!(parse_decimal(&format_decimal(n)), Some(n));
    }
}

#[test]
fn range_header_names_both_ends() {
    assert_eq!(range_header(0, 2499), b"bytes=0-2499".to_vec());
    assert_eq!(range_header(7500, 9999), b"bytes=7500-9999".to_vec());
    assert_eq!(range_header(5, 5), b"bytes=5-5".to_vec());
}

#[test]
fn length_is_resolved_from_the_header() {
    assert_eq!(resolve_length(Some(b"10000")), Ok(10_000));
    assert_eq!(resolve_length(Some(b"0")), Ok(0));
}

#[test]
fn missing_length_is_unavailable() {
    assert_eq!(resolve_length(None), Err(TransferError::LengthUnavailable));
}

#[test]
fn bad_length_is_unparsable() {
    assert_eq!(resolve_length(Some(b"")), Err(TransferError::LengthUnparsable));
    assert_eq!(resolve_length(Some(b"ten")), Err(TransferError::LengthUnparsable));
    assert_eq!(resolve_length(Some(b"-5")), Err(TransferError::LengthUnparsable));
    assert_eq!(resolve_length(Some(b"\xff")), Err(TransferError::LengthUnparsable));
}

#[test]
fn mebibytes_round_down() {
    assert_eq!(whole_mebibytes(0), 0);
    assert_eq!(whole_mebibytes(1_048_575), 0);
    assert_eq!(whole_mebibytes(1_048_576), 1);
    assert_eq!(whole_mebibytes(10 * 1_048_576 + 17), 10);
}

#[test]
fn errors_before_the_start_are_told_apart() {
    assert!(TransferError::LengthUnavailable.is_before_start());
    assert!(TransferError::LengthUnparsable.is_before_start());
    assert!(TransferError::InvalidWorkerCount.is_before_start());
    assert!(!TransferError::ShortRead.is_before_start());
    assert!(!TransferError::IoError.is_before_start());
    assert!(!TransferError::RequestError.is_before_start());
    assert!(!TransferError::RangeNotSupported.is_before_start());
}

#[test]
fn range_header_value_holds_the_text() {
    assert_eq!(range_header_value(0, 2499).as_bytes(), b"bytes=0-2499");
    assert_eq!(range_header_value(3200, 4999).to_str().unwrap(), "bytes=3200-4999");
    assert_eq!(
        range_header_value(u64::MAX - 1, u64::MAX).as_bytes(),
        b"bytes=18446744073709551614-18446744073709551615"
    );
}

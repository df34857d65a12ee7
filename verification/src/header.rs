//! The value of the range header that a worker sends.

use crate::decimal::append_decimal;
use crate::decimal::decimal_digits;
use crate::decimal::is_digit;
use crate::decimal::lemma_decimal_digits_shape;
use vstd::prelude::*;

verus! {

/// `hyper::header::HeaderValue`, taken as it is: nothing is known of a
/// value but what `value_bytes` names.
#[verifier::external_type_specification]
#[verifier::external_body]
pub struct ExHeaderValue(hyper::header::HeaderValue);

/// `hyper::header::InvalidHeaderValue`, the refusal of a header value.
#[verifier::external_type_specification]
#[verifier::external_body]
pub struct ExInvalidHeaderValue(hyper::header::InvalidHeaderValue);

/// The bytes that a header value holds, as `HeaderValue::as_bytes` hands
/// them out.
pub uninterp spec fn value_bytes(value: hyper::header::HeaderValue) -> Seq<u8>;

/// Whether a header value may hold the byte `b`: a tab, or anything from
/// the space on but the delete character.
pub open spec fn is_header_byte(b: u8) -> bool {
    b >= 32 && b != 127 || b == 9
}

/// Whether a header value may hold `text`.
pub open spec fn is_header_text(text: Seq<u8>) -> bool {
    forall|i: int| 0 <= i < text.len() ==> is_header_byte(#[trigger] text[i])
}

/// Calls `hyper::header::HeaderValue::from_bytes`. Trusted: that it takes
/// `text` exactly if every byte of it is a tab or at least 32 and not 127,
/// and that the value it then returns holds `text`, byte for byte.
#[verifier::external_body]
fn header_value(text: &[u8]) -> (r: Result<
    hyper::header::HeaderValue,
    hyper::header::InvalidHeaderValue,
>)
    ensures
        r is Ok <==> is_header_text(text@),
        r is Ok ==> value_bytes(r->Ok_0) == text@,
{
    hyper::header::HeaderValue::from_bytes(text)
}

/// The six bytes `bytes=` that begin the value of a range header.
pub open spec fn range_unit() -> Seq<u8> {
    seq![98u8, 121u8, 116u8, 101u8, 115u8, 61u8]
}

/// The value of the range header that asks for the bytes from `first` to
/// `last`, both included: `bytes=`, `first`, a hyphen, `last`.
pub open spec fn range_header_text(first: u64, last: u64) -> Seq<u8> {
    range_unit() + decimal_digits(first as nat) + seq![45u8] + decimal_digits(last as nat)
}

/// Writes the value of the range header for the bytes from `first` to
/// `last`, both included.
pub fn range_header(first: u64, last: u64) -> (text: Vec<u8>)
    ensures
        text@ == range_header_text(first, last),
{
    let mut text: Vec<u8> = Vec::new();
    text.push(98);
    text.push(121);
    text.push(116);
    text.push(101);
    text.push(115);
    text.push(61);
    assert(text@ =~= range_unit());
    append_decimal(&mut text, first);
    text.push(45);
    append_decimal(&mut text, last);
    assert(text@ =~= range_header_text(first, last));
    text
}

/// The text of a range header is text that a header value may hold.
pub proof fn lemma_range_header_is_header_text(first: u64, last: u64)
    ensures
        is_header_text(range_header_text(first, last)),
{
    let a = decimal_digits(first as nat);
    let b = decimal_digits(last as nat);
    let text = range_header_text(first, last);
    lemma_decimal_digits_shape(first as nat);
    lemma_decimal_digits_shape(last as nat);
    assert forall|i: int| 0 <= i < text.len() implies is_header_byte(#[trigger] text[i]) by {
        if i < 6 {
            assert(text[i] == range_unit()[i]);
        } else if i < 6 + a.len() {
            assert(text[i] == a[i - 6]);
            assert(is_digit(a[i - 6]));
        } else if i == 6 + a.len() {
            assert(text[i] == 45u8);
        } else {
            assert(text[i] == b[i - 7 - a.len()]);
            assert(is_digit(b[i - 7 - a.len()]));
        }
    }
}

/// Makes the value of the range header for the bytes from `first` to
/// `last`, both included. This cannot fail.
pub fn range_header_value(first: u64, last: u64) -> (value: hyper::header::HeaderValue)
    ensures
        value_bytes(value) == range_header_text(first, last),
{
    let text = range_header(first, last);
    proof {
        lemma_range_header_is_header_text(first, last);
    }
    match header_value(text.as_slice()) {
        Ok(value) => value,
        Err(_) => unreached(),
    }
}

} // verus!

//! Unsigned decimal numbers as ASCII text: reading a declared length and
//! writing the offsets of a range request.

use vstd::prelude::*;

verus! {

/// Whether `b` is one of the ASCII digits `0` to `9`.
pub open spec fn is_digit(b: u8) -> bool {
    48 <= b <= 57
}

/// Whether `s` holds ASCII digits only.
pub open spec fn all_digits(s: Seq<u8>) -> bool {
    forall|i: int| 0 <= i < s.len() ==> is_digit(#[trigger] s[i])
}

/// The number that a run of ASCII digits denotes, most significant first.
pub open spec fn digits_value(s: Seq<u8>) -> nat
    decreases s.len(),
{
    if s.len() == 0 {
        0
    } else {
        digits_value(s.drop_last()) * 10 + (s.last() - 48) as nat
    }
}

/// The text without one leading plus sign, if it has one.
pub open spec fn unsigned_part(text: Seq<u8>) -> Seq<u8> {
    if text.len() > 0 && text[0] == 43 {
        text.skip(1)
    } else {
        text
    }
}

/// The `u64` that `text` denotes: an optional plus sign, then one or more
/// digits whose value fits. Any other text denotes nothing.
pub open spec fn decimal_value(text: Seq<u8>) -> Option<u64> {
    let digits = unsigned_part(text);
    if digits.len() > 0 && all_digits(digits) && digits_value(digits) <= u64::MAX {
        Some(digits_value(digits) as u64)
    } else {
        None
    }
}

/// The shortest run of ASCII digits that denotes `n`.
pub open spec fn decimal_digits(n: nat) -> Seq<u8>
    decreases n,
{
    if n < 10 {
        seq![(48 + n) as u8]
    } else {
        decimal_digits(n / 10).push((48 + n % 10) as u8)
    }
}

/// A prefix of a run of digits denotes no more than the whole run.
pub proof fn lemma_prefix_value(s: Seq<u8>, k: int)
    requires
        all_digits(s),
        0 <= k <= s.len(),
    ensures
        digits_value(s.subrange(0, k)) <= digits_value(s),
    decreases s.len(),
{
    if k == s.len() {
        assert(s.subrange(0, k) =~= s);
    } else {
        let shorter = s.drop_last();
        assert(shorter.subrange(0, k) =~= s.subrange(0, k));
        lemma_prefix_value(shorter, k);
    }
}

/// Reads an unsigned decimal number.
pub fn parse_decimal(text: &[u8]) -> (r: Option<u64>)
    ensures
        r == decimal_value(text@),
{
    let n: usize = text.len();
    let begin: usize = if n > 0 && text[0] == 43 {
        1
    } else {
        0
    };
    if begin == n {
        return None;
    }
    let ghost digits = unsigned_part(text@);
    let mut value: u64 = 0;
    let mut i: usize = begin;
    while i < n
        invariant
            n == text@.len(),
            begin <= i <= n,
            digits == unsigned_part(text@),
            digits == text@.skip(begin as int),
            all_digits(digits.subrange(0, i - begin)),
            value == digits_value(digits.subrange(0, i - begin)),
        decreases n - i,
    {
        let b: u8 = text[i];
        let ghost before = digits.subrange(0, i - begin);
        let ghost after = digits.subrange(0, i - begin + 1);
        proof {
            assert(after.drop_last() =~= before);
            assert(after.last() == b);
        }
        if b < 48 || b > 57 {
            proof {
                assert(!is_digit(digits[i - begin]));
            }
            return None;
        }
        proof {
            assert forall|j: int| 0 <= j < after.len() implies is_digit(#[trigger] after[j]) by {
                if j < before.len() {
                    assert(after[j] == before[j]);
                }
            }
        }
        let digit: u64 = (b - 48) as u64;
        let scaled: u64 = match value.checked_mul(10) {
            Some(m) => m,
            None => {
                proof {
                    if all_digits(digits) {
                        lemma_prefix_value(digits, i - begin + 1);
                    }
                }
                return None;
            },
        };
        value = match scaled.checked_add(digit) {
            Some(m) => m,
            None => {
                proof {
                    if all_digits(digits) {
                        lemma_prefix_value(digits, i - begin + 1);
                    }
                }
                return None;
            },
        };
        i += 1;
    }
    proof {
        assert(digits.subrange(0, n - begin) =~= digits);
    }
    Some(value)
}

/// The digits of a number are digits, at least one of them.
pub proof fn lemma_decimal_digits_shape(n: nat)
    ensures
        decimal_digits(n).len() >= 1,
        all_digits(decimal_digits(n)),
        digits_value(decimal_digits(n)) == n,
    decreases n,
{
    let s = decimal_digits(n);
    if n < 10 {
        assert(s.drop_last() =~= Seq::<u8>::empty());
        assert(digits_value(s.drop_last()) == 0);
    } else {
        lemma_decimal_digits_shape(n / 10);
        assert(s.drop_last() =~= decimal_digits(n / 10));
    }
}

/// Writing a number and reading the text back gives the number.
pub proof fn lemma_decimal_round_trip(n: u64)
    ensures
        decimal_value(decimal_digits(n as nat)) == Some(n),
{
    lemma_decimal_digits_shape(n as nat);
    let s = decimal_digits(n as nat);
    assert(is_digit(s[0]));
}

/// Appends the decimal digits of `n` to `out`.
pub fn append_decimal(out: &mut Vec<u8>, n: u64)
    ensures
        final(out)@ == old(out)@ + decimal_digits(n as nat),
    decreases n,
{
    if n >= 10 {
        append_decimal(out, n / 10);
    }
    let digit: u8 = (n % 10) as u8;
    out.push(48 + digit);
    assert(final(out)@ =~= old(out)@ + decimal_digits(n as nat));
}

/// The decimal digits of `n` as text.
pub fn format_decimal(n: u64) -> (text: Vec<u8>)
    ensures
        text@ == decimal_digits(n as nat),
{
    let mut text: Vec<u8> = Vec::new();
    append_decimal(&mut text, n);
    assert(text@ =~= decimal_digits(n as nat));
    text
}

} // verus!

//! Unsigned decimal numbers as ASCII text, read and written.

use vstd::prelude::*;

verus! {

/// Whether `byte` is one of the ASCII digits `0` to `9`.
pub open spec fn is_digit(byte: u8) -> bool {
    48 <= byte <= 57
}

/// Whether every byte of `digits` is an ASCII digit.
pub open spec fn all_digits(digits: Seq<u8>) -> bool {
    forall|i: int| 0 <= i < digits.len() ==> is_digit(#[trigger] digits[i])
}

/// The number that a run of ASCII digits writes, most significant digit first.
/// The empty run writes zero.
pub open spec fn decimal_value(digits: Seq<u8>) -> nat
    decreases digits.len(),
{
    if digits.len() == 0 {
        0
    } else {
        (decimal_value(digits.drop_last()) * 10 + (digits.last() - 48)) as nat
    }
}

/// The ASCII digits of `n`, most significant first, without leading zeros.
pub open spec fn decimal(n: nat) -> Seq<u8>
    decreases n,
{
    if n < 10 {
        seq![(48 + n) as u8]
    } else {
        decimal(n / 10).push((48 + n % 10) as u8)
    }
}

/// The characters that a run of ASCII bytes stands for.
pub open spec fn ascii_chars(bytes: Seq<u8>) -> Seq<char> {
    Seq::new(bytes.len(), |i: int| bytes[i] as char)
}

/// Whether every byte of `bytes` is below 128.
pub open spec fn all_ascii(bytes: Seq<u8>) -> bool {
    forall|i: int| 0 <= i < bytes.len() ==> #[trigger] bytes[i] < 128
}

/// A longer run of digits never writes a smaller number than its prefix.
pub proof fn lemma_decimal_value_grows(digits: Seq<u8>, k: int)
    requires
        all_digits(digits),
        0 <= k <= digits.len(),
    ensures
        decimal_value(digits.subrange(0, k)) <= decimal_value(digits),
    decreases digits.len() - k,
{
    if k == digits.len() {
        assert(digits.subrange(0, k) =~= digits);
    } else {
        let head = digits.drop_last();
        assert(head.subrange(0, k) =~= digits.subrange(0, k));
        assert(all_digits(head)) by {
            assert forall|i: int| 0 <= i < head.len() implies is_digit(#[trigger] head[i]) by {
            }
        }
        lemma_decimal_value_grows(head, k);
    }
}

/// A number has at least one digit, and its digits are ASCII digits.
pub proof fn lemma_decimal_shape(n: nat)
    ensures
        decimal(n).len() >= 1,
        all_digits(decimal(n)),
        all_ascii(decimal(n)),
    decreases n,
{
    if n >= 10 {
        lemma_decimal_shape(n / 10);
    }
}

/// ASCII bytes are their own UTF-8 encoding.
pub proof fn lemma_ascii_encoding(bytes: Seq<u8>)
    requires
        all_ascii(bytes),
    ensures
        vstd::utf8::encode_utf8(ascii_chars(bytes)) == bytes,
{
    let chars = ascii_chars(bytes);
    assert(vstd::utf8::is_ascii_chars(chars)) by {
        assert forall|i: int| 0 <= i < chars.len() implies '\0' <= #[trigger] chars[i]
            <= '\u{7f}' by {
        }
    }
    vstd::utf8::is_ascii_chars_encode_utf8(chars);
    assert(vstd::utf8::encode_utf8(chars) =~= bytes) by {
        assert forall|i: int| 0 <= i < bytes.len() implies vstd::utf8::encode_utf8(chars)[i]
            == bytes[i] by {
        }
    }
}

/// `String::push` of std appends the character to the end of the string.
pub assume_specification[ String::push ](text: &mut String, c: char)
    ensures
        final(text)@ == old(text)@.push(c),
;

/// Appends the decimal digits of `n` to `out`.
pub fn push_decimal(out: &mut String, n: usize)
    ensures
        final(out)@ == old(out)@ + ascii_chars(decimal(n as nat)),
    decreases n,
{
    if n >= 10 {
        push_decimal(out, n / 10);
    }
    let digit: u8 = (n % 10) as u8 + 48;
    out.push(digit as char);
}

/// The decimal digits of `n` as a string.
pub fn decimal_string(n: usize) -> (text: String)
    ensures
        text@ == ascii_chars(decimal(n as nat)),
{
    let mut text = String::new();
    push_decimal(&mut text, n);
    text
}

/// The value of an ASCII digit, or `None` for any other byte.
pub fn ascii_to_digit(byte: u8) -> (digit: Option<u8>)
    ensures
        digit is Some <==> is_digit(byte),
        digit matches Some(d) ==> d == byte - 48,
{
    if 48 <= byte && byte <= 57 {
        Some(byte - 48)
    } else {
        None
    }
}

/// Reads a run of ASCII digits as a platform-width unsigned number.
///
/// `None` when the run is empty, holds a byte that is no digit, or writes a
/// number above `usize::MAX`.
pub fn atoi_usize(digits: &[u8]) -> (value: Option<usize>)
    ensures
        value is Some <==> digits@.len() > 0 && all_digits(digits@) && decimal_value(digits@)
            <= usize::MAX,
        value matches Some(v) ==> v == decimal_value(digits@),
{
    if digits.len() == 0 {
        return None;
    }
    let mut acc: usize = 0;
    let mut i: usize = 0;
    while i < digits.len()
        invariant
            i <= digits@.len(),
            all_digits(digits@.subrange(0, i as int)),
            acc == decimal_value(digits@.subrange(0, i as int)),
        decreases digits@.len() - i,
    {
        let ghost before = digits@.subrange(0, i as int);
        let ghost after = digits@.subrange(0, i + 1);
        proof {
            assert(after.drop_last() =~= before);
        }
        let digit = match ascii_to_digit(digits[i]) {
            Some(d) => d,
            None => {
                return None;
            },
        };
        proof {
            assert(all_digits(after)) by {
                assert forall|k: int| 0 <= k < after.len() implies is_digit(#[trigger] after[k]) by {
                }
            }
        }
        let next = match acc.checked_mul(10) {
            Some(shifted) => shifted.checked_add(digit as usize),
            None => None,
        };
        match next {
            Some(n) => {
                acc = n;
            },
            None => {
                proof {
                    if all_digits(digits@) {
                        lemma_decimal_value_grows(digits@, i + 1);
                    }
                }
                return None;
            },
        }
        i += 1;
    }
    proof {
        assert(digits@.subrange(0, i as int) =~= digits@);
    }
    Some(acc)
}

/// Reads a run of ASCII digits as an 8-bit unsigned number.
///
/// `None` when the run is empty, holds a byte that is no digit, or writes a
/// number above 255.
pub fn atoi_u8(digits: &[u8]) -> (value: Option<u8>)
    ensures
        value is Some <==> digits@.len() > 0 && all_digits(digits@) && decimal_value(digits@)
            <= u8::MAX,
        value matches Some(v) ==> v == decimal_value(digits@),
{
    match atoi_usize(digits) {
        Some(wide) => if wide <= 255 {
            Some(wide as u8)
        } else {
            None
        },
        None => None,
    }
}

} // verus!

//! Single hex digits, digit pairs and the optional `0x` prefix, on bytes.

use vstd::prelude::*;
use crate::error::{Error, Result};

verus! {

/// A byte is a hex digit when, with its `0x20` bit forced on (which makes
/// an ASCII letter lowercase), it is one of `0-9` or `a-f`.
pub open spec fn is_hex_digit(b: u8) -> bool {
    let l = b | 0x20u8;
    (0x30 <= l && l <= 0x39) || (0x61 <= l && l <= 0x66)
}

/// The value of a hex digit, from 0 to 15.
pub open spec fn digit_value(b: u8) -> int {
    let l = b | 0x20u8;
    if l <= 0x39 {
        l - 0x30
    } else {
        l - 0x61 + 10
    }
}

/// The byte that two hex digits stand for, the first one high.
pub open spec fn pair_value(hi: u8, lo: u8) -> u8 {
    (digit_value(hi) * 16 + digit_value(lo)) as u8
}

/// The text starts with the two bytes `0x`.
pub open spec fn has_0x(s: Seq<u8>) -> bool {
    s.len() >= 2 && s[0] == 0x30u8 && s[1] == 0x78u8
}

/// The length of the prefix that decoding skips: 2 or 0.
pub open spec fn prefix_len(s: Seq<u8>) -> int {
    if has_0x(s) {
        2
    } else {
        0
    }
}

/// The digits of hex text: all of it but an optional leading `0x`.
pub open spec fn digits_of(s: Seq<u8>) -> Seq<u8> {
    s.skip(prefix_len(s))
}

/// Every byte is a hex digit.
pub open spec fn all_hex(d: Seq<u8>) -> bool {
    forall|i: int| 0 <= i < d.len() ==> #[trigger] is_hex_digit(d[i])
}

/// `j` is the position of the first byte of `d` that is no hex digit.
pub open spec fn is_first_invalid(d: Seq<u8>, j: int) -> bool {
    &&& 0 <= j < d.len()
    &&& !is_hex_digit(d[j])
    &&& forall|k: int| 0 <= k < j ==> #[trigger] is_hex_digit(d[k])
}

/// The error for byte `b` standing at `index` of the input.
pub open spec fn invalid_character(b: u8, index: int) -> Error {
    Error::InvalidCharacter { character: b as char, index: index as usize }
}

/// The first position that holds no hex digit is unique.
pub proof fn lemma_first_invalid_unique(d: Seq<u8>, j: int)
    requires
        is_first_invalid(d, j),
    ensures
        !all_hex(d),
        (choose|k: int| is_first_invalid(d, k)) == j,
{
    let k = choose|k: int| is_first_invalid(d, k);
    assert(is_first_invalid(d, k));
    if k < j {
        assert(is_hex_digit(d[k]));
    } else if j < k {
        assert(is_hex_digit(d[j]));
    }
}

pub(crate) fn is_hex_ascii(byte: &u8) -> (r: bool)
    ensures
        r == is_hex_digit(*byte),
{
    // Lowercase an ASCII letter.
    let byte = *byte | 0x20u8;
    (0x30u8 <= byte && byte <= 0x39u8) || (0x61u8 <= byte && byte <= 0x66u8)
}

pub(crate) fn hex_ascii2digit(hex_ascii: &u8) -> (r: Option<u8>)
    ensures
        is_hex_digit(*hex_ascii) ==> r == Some(digit_value(*hex_ascii) as u8),
        !is_hex_digit(*hex_ascii) ==> r is None,
        r matches Some(v) ==> v < 16,
{
    // Lowercase an ASCII letter.
    let l = *hex_ascii | 0x20u8;
    if 0x30u8 <= l && l <= 0x39u8 {
        Some(l - 0x30u8)
    } else if 0x61u8 <= l && l <= 0x66u8 {
        Some(l - 0x61u8 + 10)
    } else {
        None
    }
}

proof fn lemma_combine(hi: u8, lo: u8)
    requires
        hi < 16,
        lo < 16,
    ensures
        (hi << 4u8) | lo == hi * 16 + lo,
{
    assert((hi << 4u8) | lo == hi * 16 + lo) by (bit_vector)
        requires
            hi < 16,
            lo < 16,
    ;
}

pub(crate) fn hex2byte(hex_ascii_1: (&u8, usize), hex_ascii_2: (&u8, usize)) -> (r: Result<u8>)
    ensures
        !is_hex_digit(*hex_ascii_1.0) ==> r == Err::<u8, Error>(
            invalid_character(*hex_ascii_1.0, hex_ascii_1.1 as int),
        ),
        is_hex_digit(*hex_ascii_1.0) && !is_hex_digit(*hex_ascii_2.0) ==> r == Err::<u8, Error>(
            invalid_character(*hex_ascii_2.0, hex_ascii_2.1 as int),
        ),
        is_hex_digit(*hex_ascii_1.0) && is_hex_digit(*hex_ascii_2.0) ==> r == Ok::<u8, Error>(
            pair_value(*hex_ascii_1.0, *hex_ascii_2.0),
        ),
{
    let hi = match hex_ascii2digit(hex_ascii_1.0) {
        Some(v) => v,
        None => {
            return Err(
                Error::InvalidCharacter { character: *hex_ascii_1.0 as char, index: hex_ascii_1.1 },
            );
        },
    };
    let lo = match hex_ascii2digit(hex_ascii_2.0) {
        Some(v) => v,
        None => {
            return Err(
                Error::InvalidCharacter { character: *hex_ascii_2.0 as char, index: hex_ascii_2.1 },
            );
        },
    };
    proof {
        lemma_combine(hi, lo);
    }
    Ok(hi << 4u8 | lo)
}

pub(crate) fn hex2byte_unchecked(hex_ascii_1: &u8, hex_ascii_2: &u8) -> (r: u8)
    requires
        is_hex_digit(*hex_ascii_1),
        is_hex_digit(*hex_ascii_2),
    ensures
        r == pair_value(*hex_ascii_1, *hex_ascii_2),
{
    let hi = match hex_ascii2digit(hex_ascii_1) {
        Some(v) => v,
        None => unreached(),
    };
    let lo = match hex_ascii2digit(hex_ascii_2) {
        Some(v) => v,
        None => unreached(),
    };
    proof {
        lemma_combine(hi, lo);
    }
    hi << 4u8 | lo
}

/// The position where the digits of `hex` start: 2 after a `0x`, else 0.
pub(crate) fn strip_0x_bytes(hex: &[u8]) -> (r: usize)
    ensures
        r == prefix_len(hex@),
{
    if hex.len() >= 2 && hex[0] == 0x30u8 && hex[1] == 0x78u8 {
        2
    } else {
        0
    }
}

} // verus!

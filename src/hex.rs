//! Hex text to bytes and back.

use vstd::prelude::*;
use crate::digit::{
    all_hex, digits_of, hex2byte, hex2byte_unchecked, invalid_character, is_hex_ascii, is_first_invalid, is_hex_digit,
    lemma_first_invalid_unique, pair_value, prefix_len, strip_0x_bytes,
};
use crate::error::{Error, Result};

verus! {

/// The bytes that well-formed digits stand for, two digits a byte.
pub open spec fn decode_pairs(d: Seq<u8>) -> Seq<u8> {
    Seq::new((d.len() / 2) as nat, |i: int| pair_value(d[2 * i], d[2 * i + 1]))
}

/// Hex text that decodes: an even number of hex digits after an optional `0x`.
pub open spec fn is_hex_text(h: Seq<u8>) -> bool {
    digits_of(h).len() % 2 == 0 && all_hex(digits_of(h))
}

/// What decoding hex text gives: `InvalidLength` for an odd number of
/// digits, else the first byte that is no hex digit with its position in
/// `h`, else the decoded bytes.
pub open spec fn hex_decoding(h: Seq<u8>) -> core::result::Result<Seq<u8>, Error> {
    let d = digits_of(h);
    if d.len() % 2 != 0 {
        Err(Error::InvalidLength)
    } else if all_hex(d) {
        Ok(decode_pairs(d))
    } else {
        let j = choose|j: int| is_first_invalid(d, j);
        Err(invalid_character(d[j], prefix_len(h) + j))
    }
}

/// A decoded buffer seen as its contents.
pub open spec fn bytes_view(r: Result<Vec<u8>>) -> core::result::Result<Seq<u8>, Error> {
    match r {
        Ok(v) => Ok(v@),
        Err(e) => Err(e),
    }
}

/// `AsRef<[u8]>` to [`Vec<u8>`]: decodes hex text, with or without `0x`.
///
/// Fails with `InvalidLength` when the number of digits is odd, and with
/// `InvalidCharacter` at the first byte that is no hex digit; its index
/// counts from the start of `hex`, the prefix included.
pub fn hex2bytes(hex: &[u8]) -> (r: Result<Vec<u8>>)
    ensures
        bytes_view(r) == hex_decoding(hex@),
{
    let start = strip_0x_bytes(hex);
    let len = hex.len();
    let ghost d = digits_of(hex@);
    if (len - start) % 2 != 0 {
        return Err(Error::InvalidLength);
    }
    let mut bytes: Vec<u8> = Vec::new();
    let mut i: usize = start;
    while i < len
        invariant
            start == prefix_len(hex@),
            len == hex@.len(),
            d == hex@.skip(start as int),
            d.len() % 2 == 0,
            start <= i <= len,
            (i - start) % 2 == 0,
            all_hex(d.take(i - start)),
            bytes@ == decode_pairs(d).take((i - start) / 2),
        decreases len - i,
    {
        let ghost k = i - start;
        let b = hex2byte((&hex[i], i), (&hex[i + 1], i + 1));
        match b {
            Ok(v) => {
                bytes.push(v);
                proof {
                    assert(d[k] == hex@[i as int]);
                    assert(d[k + 1] == hex@[i + 1]);
                    assert(all_hex(d.take(k + 2))) by {
                        assert forall|x: int| 0 <= x < k + 2 implies #[trigger] is_hex_digit(
                            d.take(k + 2)[x],
                        ) by {
                            if x < k {
                                assert(d.take(k)[x] == d.take(k + 2)[x]);
                            }
                        }
                    }
                    assert(bytes@ =~= decode_pairs(d).take((k + 2) / 2));
                }
            },
            Err(e) => {
                proof {
                    assert(d[k] == hex@[i as int]);
                    assert(d[k + 1] == hex@[i + 1]);
                    let j = if is_hex_digit(d[k]) {
                        k + 1
                    } else {
                        k
                    };
                    assert forall|x: int| 0 <= x < j implies #[trigger] is_hex_digit(d[x]) by {
                        if x < k {
                            assert(d.take(k)[x] == d[x]);
                        }
                    }
                    assert(is_first_invalid(d, j));
                    lemma_first_invalid_unique(d, j);
                }
                return Err(e);
            },
        }
        i = i + 2;
    }
    proof {
        assert(d.take(d.len() as int) =~= d);
        assert(bytes@ =~= decode_pairs(d));
    }
    Ok(bytes)
}

/// Just like [`hex2bytes`] but without the checking: the caller vouches
/// that `hex` is hex text.
pub fn hex2bytes_unchecked(hex: &[u8]) -> (r: Vec<u8>)
    requires
        is_hex_text(hex@),
    ensures
        r@ == decode_pairs(digits_of(hex@)),
{
    let start = strip_0x_bytes(hex);
    let len = hex.len();
    let ghost d = digits_of(hex@);
    let mut bytes: Vec<u8> = Vec::new();
    let mut i: usize = start;
    while i < len
        invariant
            start == prefix_len(hex@),
            len == hex@.len(),
            d == hex@.skip(start as int),
            is_hex_text(hex@),
            start <= i <= len,
            (i - start) % 2 == 0,
            bytes@ == decode_pairs(d).take((i - start) / 2),
        decreases len - i,
    {
        let ghost k = i - start;
        proof {
            assert(d[k] == hex@[i as int]);
            assert(d[k + 1] == hex@[i + 1]);
            assert(is_hex_digit(d[k]) && is_hex_digit(d[k + 1]));
        }
        bytes.push(hex2byte_unchecked(&hex[i], &hex[i + 1]));
        proof {
            assert(bytes@ =~= decode_pairs(d).take((k + 2) / 2));
        }
        i = i + 2;
    }
    proof {
        assert(bytes@ =~= decode_pairs(d));
    }
    bytes
}

/// The position in `hex` of the first byte from `start` on that is no hex
/// digit, if there is one.
fn find_invalid(hex: &[u8], start: usize) -> (r: Option<usize>)
    requires
        start <= hex@.len(),
    ensures
        r is None <==> all_hex(hex@.skip(start as int)),
        r matches Some(j) ==> start <= j && is_first_invalid(hex@.skip(start as int), j - start),
{
    let ghost d = hex@.skip(start as int);
    let mut i: usize = start;
    while i < hex.len()
        invariant
            start <= i <= hex@.len(),
            d == hex@.skip(start as int),
            forall|k: int| 0 <= k < i - start ==> #[trigger] is_hex_digit(d[k]),
        decreases hex@.len() - i,
    {
        if !is_hex_ascii(&hex[i]) {
            proof {
                assert(d[i - start] == hex@[i as int]);
            }
            return Some(i);
        }
        proof {
            assert(d[i - start] == hex@[i as int]);
        }
        i = i + 1;
    }
    None
}

/// What decoding hex text into a destination of `n` bytes gives: the
/// length is checked first, then the characters.
pub open spec fn slice_decoding(h: Seq<u8>, n: nat) -> core::result::Result<Seq<u8>, Error> {
    let d = digits_of(h);
    if d.len() % 2 != 0 {
        Err(Error::InvalidLength)
    } else if d.len() / 2 != n {
        Err(Error::MismatchedLength { expect: n as usize })
    } else {
        hex_decoding(h)
    }
}

/// Decodes hex text into `slice`, which must have exactly the decoded
/// length, and returns the decoded bytes as a view of `slice`.
///
/// Fails as [`hex2bytes`] does, and with `MismatchedLength`, whose
/// `expect` is the length of `slice`, when the lengths differ. Every
/// check comes before the first write: on an error `slice` is untouched.
pub fn hex2slice<'a>(hex: &[u8], slice: &'a mut [u8]) -> (r: Result<&'a [u8]>)
    ensures
        match slice_decoding(hex@, old(slice)@.len()) {
            Ok(b) => r matches Ok(s) && s@ == b && final(slice)@ == b,
            Err(e) => r == Err::<&[u8], Error>(e) && final(slice)@ == old(slice)@,
        },
{
    let start = strip_0x_bytes(hex);
    let len = hex.len();
    let ghost d = digits_of(hex@);
    if (len - start) % 2 != 0 {
        return Err(Error::InvalidLength);
    }
    let expected_len = (len - start) / 2;
    if expected_len != slice.len() {
        return Err(Error::MismatchedLength { expect: slice.len() });
    }
    match find_invalid(hex, start) {
        Some(j) => {
            proof {
                lemma_first_invalid_unique(d, j - start);
                assert(d[j - start] == hex@[j as int]);
            }
            return Err(Error::InvalidCharacter { character: hex[j] as char, index: j });
        },
        None => {},
    }
    Ok(hex2slice_unchecked(hex, slice))
}

/// Just like [`hex2slice`] but without the checking: the caller vouches
/// that `hex` is hex text of exactly the length of `slice`.
pub fn hex2slice_unchecked<'a>(hex: &[u8], slice: &'a mut [u8]) -> (r: &'a [u8])
    requires
        is_hex_text(hex@),
        digits_of(hex@).len() / 2 == old(slice)@.len(),
    ensures
        r@ == decode_pairs(digits_of(hex@)),
        final(slice)@ == r@,
{
    let start = strip_0x_bytes(hex);
    let len = hex.len();
    let ghost d = digits_of(hex@);
    let expected_len = (len - start) / 2;
    let mut i: usize = start;
    let mut k: usize = 0;
    while i < len
        invariant
            start == prefix_len(hex@),
            len == hex@.len(),
            d == hex@.skip(start as int),
            is_hex_text(hex@),
            slice@.len() == expected_len,
            expected_len == (len - start) / 2,
            start <= i <= len,
            i - start == 2 * k,
            forall|x: int| 0 <= x < k ==> slice@[x] == #[trigger] decode_pairs(d)[x],
        decreases len - i,
    {
        proof {
            assert(d[2 * k] == hex@[i as int]);
            assert(d[2 * k + 1] == hex@[i + 1]);
            assert(is_hex_digit(d[2 * k]) && is_hex_digit(d[2 * k + 1]));
        }
        slice[k] = hex2byte_unchecked(&hex[i], &hex[i + 1]);
        i = i + 2;
        k = k + 1;
    }
    proof {
        assert(slice@ =~= decode_pairs(d));
    }
    slice
}

/// The lowercase hex digit for a value below 16.
pub open spec fn nibble_char(n: u8) -> char {
    if n < 10 {
        (0x30 + n) as char
    } else {
        (0x61 + n - 10) as char
    }
}

/// Two lowercase hex digits for each byte, the high half first.
pub open spec fn encode_hex(b: Seq<u8>) -> Seq<char>
    decreases b.len(),
{
    if b.len() == 0 {
        Seq::empty()
    } else {
        encode_hex(b.drop_last()) + seq![nibble_char(b.last() / 16), nibble_char(b.last() % 16)]
    }
}

/// The text of one hex digit.
fn nibble_str(n: u8) -> (r: &'static str)
    requires
        n < 16,
    ensures
        r@ == seq![nibble_char(n)],
{
    let table = "0123456789abcdef";
    proof {
        reveal_strlit("0123456789abcdef");
        assert(table@[n as int] == nibble_char(n));
    }
    let r = table.substring_ascii(n as usize, n as usize + 1);
    proof {
        assert(r@ =~= seq![nibble_char(n)]);
    }
    r
}

/// `AsRef<[u8]>` to [`String`]: `prefix` followed by two lowercase hex
/// digits for each byte, the high half first.
pub fn bytes2hex(prefix: &str, bytes: &[u8]) -> (r: String)
    ensures
        r@ == prefix@ + encode_hex(bytes@),
{
    let mut hex = String::from_str(prefix);
    let mut i: usize = 0;
    while i < bytes.len()
        invariant
            i <= bytes@.len(),
            hex@ == prefix@ + encode_hex(bytes@.take(i as int)),
        decreases bytes@.len() - i,
    {
        let byte = bytes[i];
        proof {
            assert(byte >> 4u8 == byte / 16 && byte & 0xfu8 == byte % 16) by (bit_vector);
            assert(bytes@.take(i + 1).drop_last() =~= bytes@.take(i as int));
        }
        hex.append(nibble_str(byte >> 4u8));
        hex.append(nibble_str(byte & 0xfu8));
        proof {
            assert(hex@ =~= prefix@ + encode_hex(bytes@.take(i + 1)));
        }
        i = i + 1;
    }
    proof {
        assert(bytes@.take(bytes@.len() as int) =~= bytes@);
    }
    hex
}

/// Bytes read as the ASCII characters of the same values.
pub open spec fn ascii_chars(b: Seq<u8>) -> Seq<char> {
    b.map_values(|x: u8| x as char)
}

/// Every byte is below 128.
pub open spec fn all_ascii(b: Seq<u8>) -> bool {
    forall|i: int| 0 <= i < b.len() ==> #[trigger] b[i] < 128
}

/// Relies on `core::str::from_utf8`: it accepts every byte string whose
/// bytes are all ASCII, and each ASCII byte is the character of its value.
#[verifier::external_body]
fn ascii_str<'a>(bytes: &'a [u8]) -> (r: Option<&'a str>)
    ensures
        all_ascii(bytes@) ==> r is Some,
        r matches Some(s) ==> (all_ascii(bytes@) ==> s@ == ascii_chars(bytes@)),
{
    core::str::from_utf8(bytes).ok()
}

proof fn lemma_hex_text_is_ascii(h: Seq<u8>)
    requires
        all_hex(digits_of(h)),
    ensures
        all_ascii(h),
{
    assert forall|i: int| 0 <= i < h.len() implies #[trigger] h[i] < 128 by {
        if i >= prefix_len(h) {
            let b = h[i];
            assert(digits_of(h)[i - prefix_len(h)] == b);
            assert(is_hex_digit(b) ==> b < 128) by (bit_vector);
        }
    }
}

/// What checking bytes as hex text gives: the first byte after an optional
/// `0x` that is no hex digit, with its position, else the same bytes as
/// text. The number of digits is not checked.
pub open spec fn hex_text_check(h: Seq<u8>) -> core::result::Result<Seq<char>, Error> {
    let d = digits_of(h);
    if all_hex(d) {
        Ok(ascii_chars(h))
    } else {
        let j = choose|j: int| is_first_invalid(d, j);
        Err(invalid_character(d[j], prefix_len(h) + j))
    }
}

/// Hex bytes to a hex string: checks that every byte after an optional
/// `0x` is a hex digit and returns the same bytes as text, without a copy.
pub fn hex_bytes2hex_str(bytes: &[u8]) -> (r: Result<&str>)
    ensures
        match hex_text_check(bytes@) {
            Ok(t) => r matches Ok(s) && s@ == t,
            Err(e) => r == Err::<&str, Error>(e),
        },
{
    let start = strip_0x_bytes(bytes);
    let ghost d = digits_of(bytes@);
    match find_invalid(bytes, start) {
        Some(j) => {
            proof {
                lemma_first_invalid_unique(d, j - start);
                assert(d[j - start] == bytes@[j as int]);
            }
            return Err(Error::InvalidCharacter { character: bytes[j] as char, index: j });
        },
        None => {},
    }
    proof {
        lemma_hex_text_is_ascii(bytes@);
    }
    match ascii_str(bytes) {
        Some(s) => Ok(s),
        None => unreached(),
    }
}

/// Just like [`hex_bytes2hex_str`] but without the checking: the caller
/// vouches that every byte after an optional `0x` is a hex digit.
pub fn hex_bytes2hex_str_unchecked(bytes: &[u8]) -> (r: &str)
    requires
        all_hex(digits_of(bytes@)),
    ensures
        r@ == ascii_chars(bytes@),
{
    proof {
        lemma_hex_text_is_ascii(bytes@);
    }
    match ascii_str(bytes) {
        Some(s) => s,
        None => unreached(),
    }
}

} // verus!

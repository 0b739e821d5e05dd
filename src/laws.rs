//! Laws that relate encoding and decoding.

use vstd::prelude::*;
use vstd::utf8::{encode_utf8, is_ascii_chars, is_ascii_chars_encode_utf8};
use crate::digit::{all_hex, digit_value, digits_of, has_0x, is_hex_digit, pair_value};
use crate::error::Error;
use crate::hex::{decode_pairs, encode_hex, hex_decoding, is_hex_text, nibble_char};

verus! {

proof fn lemma_nibble(n: u8)
    requires
        n < 16,
    ensures
        '\0' <= nibble_char(n) <= '\u{7f}',
        nibble_char(n) as u8 != 0x78u8,
        is_hex_digit(nibble_char(n) as u8),
        digit_value(nibble_char(n) as u8) == n,
{
    let c = nibble_char(n) as u8;
    if n < 10 {
        assert(c == 0x30 + n);
        assert(n < 10 ==> (((0x30 + n) as u8) | 0x20u8) == 0x30 + n) by (bit_vector);
    } else {
        assert(c == 0x61 + n - 10);
        assert(10 <= n < 16 ==> (((0x61 + n - 10) as u8) | 0x20u8) == 0x61 + n - 10)
            by (bit_vector);
    }
}

proof fn lemma_encode_hex(b: Seq<u8>)
    ensures
        encode_hex(b).len() == 2 * b.len(),
        forall|i: int|
            #![trigger b[i]]
            0 <= i < b.len() ==> encode_hex(b)[2 * i] == nibble_char(b[i] / 16) && encode_hex(
                b,
            )[2 * i + 1] == nibble_char(b[i] % 16),
    decreases b.len(),
{
    if b.len() > 0 {
        let p = b.drop_last();
        let tail = seq![nibble_char(b.last() / 16), nibble_char(b.last() % 16)];
        lemma_encode_hex(p);
        assert(encode_hex(b) == encode_hex(p) + tail);
        assert forall|i: int| 0 <= i < b.len() implies encode_hex(b)[2 * i] == nibble_char(
            #[trigger] b[i] / 16,
        ) && encode_hex(b)[2 * i + 1] == nibble_char(b[i] % 16) by {
            if i < b.len() - 1 {
                assert(b[i] == p[i]);
            } else {
                assert(encode_hex(b)[2 * i] == tail[0]);
                assert(encode_hex(b)[2 * i + 1] == tail[1]);
            }
        }
    }
}

/// The UTF-8 bytes of the lowercase hex digits of `b`: an even number of
/// hex digits, not starting with `0x`, that decode to `b`.
proof fn lemma_encoded_digits(b: Seq<u8>)
    ensures
        is_ascii_chars(encode_hex(b)),
        encode_utf8(encode_hex(b)).len() == 2 * b.len(),
        all_hex(encode_utf8(encode_hex(b))),
        !has_0x(encode_utf8(encode_hex(b))),
        decode_pairs(encode_utf8(encode_hex(b))) == b,
{
    let e = encode_hex(b);
    lemma_encode_hex(b);
    assert forall|k: int| 0 <= k < e.len() implies '\0' <= #[trigger] e[k] <= '\u{7f}'
        && is_hex_digit(e[k] as u8) && e[k] as u8 != 0x78u8 by {
        let i = k / 2;
        assert(b[i] == b[i]);
        assert(b[i] / 16 < 16 && b[i] % 16 < 16);
        lemma_nibble(b[i] / 16);
        lemma_nibble(b[i] % 16);
        if k % 2 == 0 {
            assert(k == 2 * i);
        } else {
            assert(k == 2 * i + 1);
        }
    }
    is_ascii_chars_encode_utf8(e);
    let d = encode_utf8(e);
    assert forall|k: int| 0 <= k < d.len() implies #[trigger] is_hex_digit(d[k]) by {
        assert(e[k] as u8 == d[k]);
    }
    if d.len() >= 2 {
        assert(e[1] as u8 == d[1]);
    }
    assert forall|i: int| 0 <= i < b.len() implies #[trigger] decode_pairs(d)[i] == b[i] by {
        assert(e[2 * i] as u8 == d[2 * i]);
        assert(e[2 * i + 1] as u8 == d[2 * i + 1]);
        lemma_nibble(b[i] / 16);
        lemma_nibble(b[i] % 16);
        assert(pair_value(d[2 * i], d[2 * i + 1]) == ((b[i] / 16) * 16 + b[i] % 16) as u8);
    }
    assert(decode_pairs(d) =~= b);
}

/// Hex text with a `0x` prefix, as `bytes2hex("0x", b)` writes it, decodes
/// back to `b`.
pub proof fn lemma_round_trip_0x(b: Seq<u8>)
    ensures
        hex_decoding(encode_utf8(seq!['0', 'x'] + encode_hex(b))) == Ok::<Seq<u8>, Error>(b),
{
    let e = encode_hex(b);
    let t = seq!['0', 'x'] + e;
    lemma_encoded_digits(b);
    assert(is_ascii_chars(t)) by {
        assert forall|k: int| 0 <= k < t.len() implies '\0' <= #[trigger] t[k] <= '\u{7f}' by {
            if k >= 2 {
                assert(t[k] == e[k - 2]);
            }
        }
    }
    is_ascii_chars_encode_utf8(t);
    is_ascii_chars_encode_utf8(e);
    let h = encode_utf8(t);
    assert(has_0x(h)) by {
        assert(t[0] as u8 == h[0]);
        assert(t[1] as u8 == h[1]);
    }
    assert(digits_of(h) =~= encode_utf8(e)) by {
        assert forall|k: int| 0 <= k < e.len() implies #[trigger] digits_of(h)[k] == encode_utf8(
            e,
        )[k] by {
            assert(t[k + 2] == e[k]);
            assert(t[k + 2] as u8 == h[k + 2]);
        }
    }
}

/// Hex text without a prefix, as `bytes2hex("", b)` writes it, decodes back
/// to `b`.
pub proof fn lemma_round_trip_bare(b: Seq<u8>)
    ensures
        hex_decoding(encode_utf8(encode_hex(b))) == Ok::<Seq<u8>, Error>(b),
{
    lemma_encoded_digits(b);
    assert(digits_of(encode_utf8(encode_hex(b))) =~= encode_utf8(encode_hex(b)));
}

/// On hex text the checked decoding succeeds with what the unchecked one
/// returns.
pub proof fn lemma_unchecked_agrees(h: Seq<u8>)
    requires
        is_hex_text(h),
    ensures
        hex_decoding(h) == Ok::<Seq<u8>, Error>(decode_pairs(digits_of(h))),
{
}

} // verus!

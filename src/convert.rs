//! Hex text decoded straight into arrays and into caller types.

use vstd::prelude::*;
use crate::array::{converted, vec2array, vec2array_unchecked};
use crate::digit::digits_of;
use crate::error::{Error, Result};
use crate::hex::{decode_pairs, hex2bytes, hex2bytes_unchecked, hex_decoding, is_hex_text};

verus! {

/// What decoding hex text into an array of `n` bytes gives: the errors of
/// [`hex_decoding`], then `MismatchedLength` when the length differs.
pub open spec fn array_decoding(h: Seq<u8>, n: nat) -> core::result::Result<Seq<u8>, Error> {
    match hex_decoding(h) {
        Ok(b) => if b.len() == n {
            Ok(b)
        } else {
            Err(Error::MismatchedLength { expect: n as usize })
        },
        Err(e) => Err(e),
    }
}

/// Just like [`hex2bytes`] but to a fixed length array.
pub fn hex2array<const N: usize>(hex: &[u8]) -> (r: Result<[u8; N]>)
    ensures
        match array_decoding(hex@, N as nat) {
            Ok(b) => r matches Ok(a) && a@ == b,
            Err(e) => r == Err::<[u8; N], Error>(e),
        },
{
    match hex2bytes(hex) {
        Ok(v) => vec2array(v),
        Err(e) => Err(e),
    }
}

/// Just like [`hex2array`] but without the checking: the caller vouches
/// that `hex` is hex text of `N` bytes.
pub fn hex2array_unchecked<const N: usize>(hex: &[u8]) -> (r: [u8; N])
    requires
        is_hex_text(hex@),
        digits_of(hex@).len() / 2 == N,
    ensures
        r@ == decode_pairs(digits_of(hex@)),
{
    vec2array_unchecked(hex2bytes_unchecked(hex))
}

/// Decodes hex text into a type that can be made from [`Vec<u8>`].
pub fn hex_into<T: From<Vec<u8>>>(hex: &[u8]) -> (r: Result<T>)
    ensures
        match hex_decoding(hex@) {
            Ok(b) => r matches Ok(t) && exists|v: Vec<u8>| v@ == b && converted(v, t),
            Err(e) => r == Err::<T, Error>(e),
        },
{
    match hex2bytes(hex) {
        Ok(v) => Ok(T::from(v)),
        Err(e) => Err(e),
    }
}

/// Just like [`hex_into`] but without the checking.
pub fn hex_into_unchecked<T: From<Vec<u8>>>(hex: &[u8]) -> (r: T)
    requires
        is_hex_text(hex@),
    ensures
        exists|v: Vec<u8>| v@ == decode_pairs(digits_of(hex@)) && converted(v, r),
{
    T::from(hex2bytes_unchecked(hex))
}

/// Decodes hex text into a type that can be made from `[u8; N]`.
pub fn hex_n_into<T: From<[u8; N]>, const N: usize>(hex: &[u8]) -> (r: Result<T>)
    ensures
        match array_decoding(hex@, N as nat) {
            Ok(b) => r matches Ok(t) && exists|a: [u8; N]| a@ == b && converted(a, t),
            Err(e) => r == Err::<T, Error>(e),
        },
{
    match hex2array::<N>(hex) {
        Ok(a) => Ok(T::from(a)),
        Err(e) => Err(e),
    }
}

/// Just like [`hex_n_into`] but without the checking.
pub fn hex_n_into_unchecked<T: From<[u8; N]>, const N: usize>(hex: &[u8]) -> (r: T)
    requires
        is_hex_text(hex@),
        digits_of(hex@).len() / 2 == N,
    ensures
        exists|a: [u8; N]| a@ == decode_pairs(digits_of(hex@)) && converted(a, r),
{
    T::from(hex2array_unchecked::<N>(hex))
}

} // verus!

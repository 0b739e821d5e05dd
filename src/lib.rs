//! Conversions between bytes, fixed-size arrays and hexadecimal text.

pub mod array;
pub mod convert;
pub mod digit;
pub mod error;
pub mod hex;
pub mod laws;
pub mod num;

pub use array::{
    slice2array, slice2array_unchecked, slice_n_into, slice_n_into_unchecked, vec2array,
    vec2array_unchecked, vec_n_into, vec_n_into_unchecked,
};
pub use convert::{
    hex2array, hex2array_unchecked, hex_into, hex_into_unchecked, hex_n_into, hex_n_into_unchecked,
};
pub use error::{Error, Result};
pub use hex::{
    bytes2hex, hex2bytes, hex2bytes_unchecked, hex2slice, hex2slice_unchecked, hex_bytes2hex_str,
    hex_bytes2hex_str_unchecked,
};
pub use num::TryFromHex;
pub use laws::{lemma_round_trip_0x, lemma_round_trip_bare, lemma_unchecked_agrees};

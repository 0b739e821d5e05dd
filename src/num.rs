//! Hex text parsed into the primitive integer types.

use vstd::prelude::*;
use crate::error::{Error, Result};

verus! {

/// A character that base-16 parsing takes as a digit: `0-9`, `a-f`, `A-F`.
pub open spec fn is_hex_char(c: char) -> bool {
    let n = c as int;
    (0x30 <= n <= 0x39) || (0x41 <= n <= 0x46) || (0x61 <= n <= 0x66)
}

/// The value of a base-16 digit.
pub open spec fn hex_char_value(c: char) -> int {
    let n = c as int;
    if n <= 0x39 {
        n - 0x30
    } else if n <= 0x46 {
        n - 0x41 + 10
    } else {
        n - 0x61 + 10
    }
}

/// The value of a string of base-16 digits, the most significant first.
pub open spec fn digits_value(s: Seq<char>) -> int
    decreases s.len(),
{
    if s.len() == 0 {
        0
    } else {
        digits_value(s.drop_last()) * 16 + hex_char_value(s.last())
    }
}

/// The value of one or more base-16 digits and nothing else.
pub open spec fn hex_magnitude(s: Seq<char>) -> Option<int> {
    if s.len() > 0 && forall|i: int| 0 <= i < s.len() ==> #[trigger] is_hex_char(s[i]) {
        Some(digits_value(s))
    } else {
        None
    }
}

/// The number that base-16 text stands for: digits after an optional `+`,
/// or, where `signed`, after a `-` that negates them.
pub open spec fn hex_number(s: Seq<char>, signed: bool) -> Option<int> {
    if s.len() > 0 && s[0] == '+' {
        hex_magnitude(s.skip(1))
    } else if signed && s.len() > 0 && s[0] == '-' {
        match hex_magnitude(s.skip(1)) {
            Some(m) => Some(-m),
            None => None,
        }
    } else {
        hex_magnitude(s)
    }
}

/// Text without an optional leading `0x`.
pub open spec fn strip_0x_chars(s: Seq<char>) -> Seq<char> {
    if s.len() >= 2 && s[0] == '0' && s[1] == 'x' {
        s.skip(2)
    } else {
        s
    }
}

pub(crate) fn strip_0x(hex: &str) -> (r: &str)
    ensures
        r@ == strip_0x_chars(hex@),
{
    let n = hex.unicode_len();
    if n >= 2 && hex.get_char(0) == '0' && hex.get_char(1) == 'x' {
        let r = hex.substring_char(2, n);
        proof {
            assert(r@ =~= hex@.skip(2));
        }
        r
    } else {
        hex
    }
}

/// Conversion of hex text into `Self` that may fail in a controlled way.
pub trait TryFromHex: Sized {
    /// The value as an integer.
    spec fn int_value(&self) -> int;

    /// The integers that the type can hold.
    spec fn holds(v: int) -> bool;

    /// Whether a leading `-` is read as a sign.
    spec fn is_signed() -> bool;

    /// Parses the text after an optional `0x` as a base-16 number; fails
    /// with `ParseIntError` where it is no number or does not fit.
    fn try_from_hex(hex: &str) -> (r: Result<Self>)
        ensures
            (hex_number(strip_0x_chars(hex@), Self::is_signed()) matches Some(v) && Self::holds(v))
                ==> (r matches Ok(x) && Some(x.int_value()) == hex_number(
                strip_0x_chars(hex@),
                Self::is_signed(),
            )),
            !(hex_number(strip_0x_chars(hex@), Self::is_signed()) matches Some(v) && Self::holds(v))
                ==> (r matches Err(Error::ParseIntError(_))),
    ;
}

/// Relies on `isize::from_str_radix` in base 16: an optional `+` or `-`, then
/// one or more digits of either case whose value fits; anything else fails.
#[verifier::external_body]
fn parse_isize(src: &str) -> (r: core::result::Result<isize, core::num::ParseIntError>)
    ensures
        r is Ok <==> (hex_number(src@, true) matches Some(v) && isize::MIN <= v <= isize::MAX),
        r matches Ok(x) ==> hex_number(src@, true) == Some(x as int),
{
    isize::from_str_radix(src, 16)
}

impl TryFromHex for isize {
    open spec fn int_value(&self) -> int {
        *self as int
    }

    open spec fn holds(v: int) -> bool {
        isize::MIN <= v <= isize::MAX
    }

    open spec fn is_signed() -> bool {
        true
    }

    fn try_from_hex(hex: &str) -> (r: Result<Self>) {
        let hex = strip_0x(hex);
        match parse_isize(hex) {
            Ok(v) => Ok(v),
            Err(e) => Err(Error::ParseIntError(e)),
        }
    }
}

/// Relies on `i8::from_str_radix` in base 16: an optional `+` or `-`, then
/// one or more digits of either case whose value fits; anything else fails.
#[verifier::external_body]
fn parse_i8(src: &str) -> (r: core::result::Result<i8, core::num::ParseIntError>)
    ensures
        r is Ok <==> (hex_number(src@, true) matches Some(v) && i8::MIN <= v <= i8::MAX),
        r matches Ok(x) ==> hex_number(src@, true) == Some(x as int),
{
    i8::from_str_radix(src, 16)
}

impl TryFromHex for i8 {
    open spec fn int_value(&self) -> int {
        *self as int
    }

    open spec fn holds(v: int) -> bool {
        i8::MIN <= v <= i8::MAX
    }

    open spec fn is_signed() -> bool {
        true
    }

    fn try_from_hex(hex: &str) -> (r: Result<Self>) {
        let hex = strip_0x(hex);
        match parse_i8(hex) {
            Ok(v) => Ok(v),
            Err(e) => Err(Error::ParseIntError(e)),
        }
    }
}

/// Relies on `i16::from_str_radix` in base 16: an optional `+` or `-`, then
/// one or more digits of either case whose value fits; anything else fails.
#[verifier::external_body]
fn parse_i16(src: &str) -> (r: core::result::Result<i16, core::num::ParseIntError>)
    ensures
        r is Ok <==> (hex_number(src@, true) matches Some(v) && i16::MIN <= v <= i16::MAX),
        r matches Ok(x) ==> hex_number(src@, true) == Some(x as int),
{
    i16::from_str_radix(src, 16)
}

impl TryFromHex for i16 {
    open spec fn int_value(&self) -> int {
        *self as int
    }

    open spec fn holds(v: int) -> bool {
        i16::MIN <= v <= i16::MAX
    }

    open spec fn is_signed() -> bool {
        true
    }

    fn try_from_hex(hex: &str) -> (r: Result<Self>) {
        let hex = strip_0x(hex);
        match parse_i16(hex) {
            Ok(v) => Ok(v),
            Err(e) => Err(Error::ParseIntError(e)),
        }
    }
}

/// Relies on `i32::from_str_radix` in base 16: an optional `+` or `-`, then
/// one or more digits of either case whose value fits; anything else fails.
#[verifier::external_body]
fn parse_i32(src: &str) -> (r: core::result::Result<i32, core::num::ParseIntError>)
    ensures
        r is Ok <==> (hex_number(src@, true) matches Some(v) && i32::MIN <= v <= i32::MAX),
        r matches Ok(x) ==> hex_number(src@, true) == Some(x as int),
{
    i32::from_str_radix(src, 16)
}

impl TryFromHex for i32 {
    open spec fn int_value(&self) -> int {
        *self as int
    }

    open spec fn holds(v: int) -> bool {
        i32::MIN <= v <= i32::MAX
    }

    open spec fn is_signed() -> bool {
        true
    }

    fn try_from_hex(hex: &str) -> (r: Result<Self>) {
        let hex = strip_0x(hex);
        match parse_i32(hex) {
            Ok(v) => Ok(v),
            Err(e) => Err(Error::ParseIntError(e)),
        }
    }
}

/// Relies on `i64::from_str_radix` in base 16: an optional `+` or `-`, then
/// one or more digits of either case whose value fits; anything else fails.
#[verifier::external_body]
fn parse_i64(src: &str) -> (r: core::result::Result<i64, core::num::ParseIntError>)
    ensures
        r is Ok <==> (hex_number(src@, true) matches Some(v) && i64::MIN <= v <= i64::MAX),
        r matches Ok(x) ==> hex_number(src@, true) == Some(x as int),
{
    i64::from_str_radix(src, 16)
}

impl TryFromHex for i64 {
    open spec fn int_value(&self) -> int {
        *self as int
    }

    open spec fn holds(v: int) -> bool {
        i64::MIN <= v <= i64::MAX
    }

    open spec fn is_signed() -> bool {
        true
    }

    fn try_from_hex(hex: &str) -> (r: Result<Self>) {
        let hex = strip_0x(hex);
        match parse_i64(hex) {
            Ok(v) => Ok(v),
            Err(e) => Err(Error::ParseIntError(e)),
        }
    }
}

/// Relies on `i128::from_str_radix` in base 16: an optional `+` or `-`, then
/// one or more digits of either case whose value fits; anything else fails.
#[verifier::external_body]
fn parse_i128(src: &str) -> (r: core::result::Result<i128, core::num::ParseIntError>)
    ensures
        r is Ok <==> (hex_number(src@, true) matches Some(v) && i128::MIN <= v <= i128::MAX),
        r matches Ok(x) ==> hex_number(src@, true) == Some(x as int),
{
    i128::from_str_radix(src, 16)
}

impl TryFromHex for i128 {
    open spec fn int_value(&self) -> int {
        *self as int
    }

    open spec fn holds(v: int) -> bool {
        i128::MIN <= v <= i128::MAX
    }

    open spec fn is_signed() -> bool {
        true
    }

    fn try_from_hex(hex: &str) -> (r: Result<Self>) {
        let hex = strip_0x(hex);
        match parse_i128(hex) {
            Ok(v) => Ok(v),
            Err(e) => Err(Error::ParseIntError(e)),
        }
    }
}

/// Relies on `usize::from_str_radix` in base 16: an optional `+`, then
/// one or more digits of either case whose value fits; anything else fails.
#[verifier::external_body]
fn parse_usize(src: &str) -> (r: core::result::Result<usize, core::num::ParseIntError>)
    ensures
        r is Ok <==> (hex_number(src@, false) matches Some(v) && usize::MIN <= v <= usize::MAX),
        r matches Ok(x) ==> hex_number(src@, false) == Some(x as int),
{
    usize::from_str_radix(src, 16)
}

impl TryFromHex for usize {
    open spec fn int_value(&self) -> int {
        *self as int
    }

    open spec fn holds(v: int) -> bool {
        usize::MIN <= v <= usize::MAX
    }

    open spec fn is_signed() -> bool {
        false
    }

    fn try_from_hex(hex: &str) -> (r: Result<Self>) {
        let hex = strip_0x(hex);
        match parse_usize(hex) {
            Ok(v) => Ok(v),
            Err(e) => Err(Error::ParseIntError(e)),
        }
    }
}

/// Relies on `u8::from_str_radix` in base 16: an optional `+`, then
/// one or more digits of either case whose value fits; anything else fails.
#[verifier::external_body]
fn parse_u8(src: &str) -> (r: core::result::Result<u8, core::num::ParseIntError>)
    ensures
        r is Ok <==> (hex_number(src@, false) matches Some(v) && u8::MIN <= v <= u8::MAX),
        r matches Ok(x) ==> hex_number(src@, false) == Some(x as int),
{
    u8::from_str_radix(src, 16)
}

impl TryFromHex for u8 {
    open spec fn int_value(&self) -> int {
        *self as int
    }

    open spec fn holds(v: int) -> bool {
        u8::MIN <= v <= u8::MAX
    }

    open spec fn is_signed() -> bool {
        false
    }

    fn try_from_hex(hex: &str) -> (r: Result<Self>) {
        let hex = strip_0x(hex);
        match parse_u8(hex) {
            Ok(v) => Ok(v),
            Err(e) => Err(Error::ParseIntError(e)),
        }
    }
}

/// Relies on `u16::from_str_radix` in base 16: an optional `+`, then
/// one or more digits of either case whose value fits; anything else fails.
#[verifier::external_body]
fn parse_u16(src: &str) -> (r: core::result::Result<u16, core::num::ParseIntError>)
    ensures
        r is Ok <==> (hex_number(src@, false) matches Some(v) && u16::MIN <= v <= u16::MAX),
        r matches Ok(x) ==> hex_number(src@, false) == Some(x as int),
{
    u16::from_str_radix(src, 16)
}

impl TryFromHex for u16 {
    open spec fn int_value(&self) -> int {
        *self as int
    }

    open spec fn holds(v: int) -> bool {
        u16::MIN <= v <= u16::MAX
    }

    open spec fn is_signed() -> bool {
        false
    }

    fn try_from_hex(hex: &str) -> (r: Result<Self>) {
        let hex = strip_0x(hex);
        match parse_u16(hex) {
            Ok(v) => Ok(v),
            Err(e) => Err(Error::ParseIntError(e)),
        }
    }
}

/// Relies on `u32::from_str_radix` in base 16: an optional `+`, then
/// one or more digits of either case whose value fits; anything else fails.
#[verifier::external_body]
fn parse_u32(src: &str) -> (r: core::result::Result<u32, core::num::ParseIntError>)
    ensures
        r is Ok <==> (hex_number(src@, false) matches Some(v) && u32::MIN <= v <= u32::MAX),
        r matches Ok(x) ==> hex_number(src@, false) == Some(x as int),
{
    u32::from_str_radix(src, 16)
}

impl TryFromHex for u32 {
    open spec fn int_value(&self) -> int {
        *self as int
    }

    open spec fn holds(v: int) -> bool {
        u32::MIN <= v <= u32::MAX
    }

    open spec fn is_signed() -> bool {
        false
    }

    fn try_from_hex(hex: &str) -> (r: Result<Self>) {
        let hex = strip_0x(hex);
        match parse_u32(hex) {
            Ok(v) => Ok(v),
            Err(e) => Err(Error::ParseIntError(e)),
        }
    }
}

/// Relies on `u64::from_str_radix` in base 16: an optional `+`, then
/// one or more digits of either case whose value fits; anything else fails.
#[verifier::external_body]
fn parse_u64(src: &str) -> (r: core::result::Result<u64, core::num::ParseIntError>)
    ensures
        r is Ok <==> (hex_number(src@, false) matches Some(v) && u64::MIN <= v <= u64::MAX),
        r matches Ok(x) ==> hex_number(src@, false) == Some(x as int),
{
    u64::from_str_radix(src, 16)
}

impl TryFromHex for u64 {
    open spec fn int_value(&self) -> int {
        *self as int
    }

    open spec fn holds(v: int) -> bool {
        u64::MIN <= v <= u64::MAX
    }

    open spec fn is_signed() -> bool {
        false
    }

    fn try_from_hex(hex: &str) -> (r: Result<Self>) {
        let hex = strip_0x(hex);
        match parse_u64(hex) {
            Ok(v) => Ok(v),
            Err(e) => Err(Error::ParseIntError(e)),
        }
    }
}

/// Relies on `u128::from_str_radix` in base 16: an optional `+`, then
/// one or more digits of either case whose value fits; anything else fails.
#[verifier::external_body]
fn parse_u128(src: &str) -> (r: core::result::Result<u128, core::num::ParseIntError>)
    ensures
        r is Ok <==> (hex_number(src@, false) matches Some(v) && u128::MIN <= v <= u128::MAX),
        r matches Ok(x) ==> hex_number(src@, false) == Some(x as int),
{
    u128::from_str_radix(src, 16)
}

impl TryFromHex for u128 {
    open spec fn int_value(&self) -> int {
        *self as int
    }

    open spec fn holds(v: int) -> bool {
        u128::MIN <= v <= u128::MAX
    }

    open spec fn is_signed() -> bool {
        false
    }

    fn try_from_hex(hex: &str) -> (r: Result<Self>) {
        let hex = strip_0x(hex);
        match parse_u128(hex) {
            Ok(v) => Ok(v),
            Err(e) => Err(Error::ParseIntError(e)),
        }
    }
}

} // verus!

use vstd::prelude::*;

verus! {

#[verifier::external_type_specification]
#[verifier::external_body]
pub struct ExParseIntError(core::num::ParseIntError);

/// The error of every checked conversion.
#[derive(Debug, PartialEq, Eq)]
pub enum Error {
    /// The number of hex digits, after the optional `0x`, is odd.
    InvalidLength,
    /// The byte at `index` of the input is not a hex digit.
    InvalidCharacter {
        /// The offending byte, as a character.
        character: char,
        /// Its position in the input, the `0x` prefix counted.
        index: usize,
    },
    /// The data does not have the length that the target requires.
    MismatchedLength {
        /// The length that the target requires.
        expect: usize,
    },
    /// A hex number could not be parsed into the integer type.
    ParseIntError(core::num::ParseIntError),
}

/// The result of the checked conversions.
pub type Result<T> = core::result::Result<T, Error>;

} // verus!

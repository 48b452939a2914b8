//! Conversions between bytes, fixed-size arrays and hexadecimal text.
//!
//! Hexadecimal text is handled as ASCII bytes. Decoding accepts an optional
//! leading `0x` and digits of either case; encoding writes the case and the
//! prefix that the caller asks for. Every position that an error reports
//! counts from the first byte after the `0x`, except where a function says
//! otherwise.

use vstd::prelude::*;

pub mod buffer;
pub mod digit;
pub mod hex;
pub mod laws;
pub mod number;
pub mod op;
pub mod text;

pub use buffer::SmallBytes;
pub use hex::{
    dehexify_array, dehexify_array_then_into, dehexify_ascii, dehexify_ascii_unchecked,
    dehexify_bytes, dehexify_slice_mut, dehexify_vec_then_into, hex2array_unchecked,
    hex2bytes_unchecked, hex2slice_unchecked, strip_0x, Dehexify,
};
pub use hex::{bytes2hex, hexify_bytes, hexify_hex_bytes, hexify_unsigned, HighestSetBit, Hexify};
pub use op::{
    pad_array, prefix_with, slice2array, slice2array_ref, slice2array_unchecked, slice_n_into,
    suffix_with, vec2array, vec2array_unchecked, vec_n_into,
};

verus! {

/// std's `Utf8Error`, carried as it comes.
#[verifier::external_type_specification]
#[verifier::external_body]
pub struct ExUtf8Error(core::str::Utf8Error);

/// std's `ParseIntError`, carried as it comes.
#[verifier::external_type_specification]
#[verifier::external_body]
pub struct ExParseIntError(core::num::ParseIntError);

/// Why a conversion failed.
#[derive(Debug, PartialEq, Eq)]
pub enum Error {
    /// The number of hexadecimal digits is odd.
    InvalidLength,
    /// The byte at `index` is no hexadecimal digit.
    InvalidCharacter {
        /// The offending byte, as a character.
        character: char,
        /// Its position.
        index: usize,
    },
    /// The data does not have the length of the array or slice it is meant for.
    MismatchedLength {
        /// The length that was asked for.
        expect: usize,
    },
    /// The text of a number is not UTF-8.
    Utf8Error(core::str::Utf8Error),
    /// The text of a number is no number in base 16, or one that does not fit.
    ParseIntError(core::num::ParseIntError),
}

/// `outcome` with the value that it holds replaced by the view of that value.
pub open spec fn viewed<T: View>(outcome: Result<T, Error>) -> Result<T::V, Error> {
    match outcome {
        Ok(value) => Ok(value@),
        Err(e) => Err(e),
    }
}

} // verus!

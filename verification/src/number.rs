//! Numbers written in base 16.
//!
//! The parsing itself is std's `from_str_radix`, which is given its contract
//! here for each integer type. A number is read as std reads it: an optional
//! sign, then digits of either case and nothing else.

use crate::digit::{is_hex_digit, nibble_of};
use crate::hex::{all_digits, strip_0x, stripped, Dehexify};
use crate::text::lemma_ascii_is_utf8;
use crate::Error;
use core::num::ParseIntError;
use vstd::prelude::*;
use vstd::string::StringSliceAdditionalSpecFns;
use vstd::utf8::valid_utf8;

verus! {

/// Whether `text` starts with a sign: `+`, or `-` where the target is signed.
pub open spec fn has_sign(text: Seq<u8>, signed: bool) -> bool {
    text.len() > 0 && (text[0] == 0x2b || (signed && text[0] == 0x2d))
}

/// The digits of `text`: all of it but its sign.
pub open spec fn digits_after_sign(text: Seq<u8>, signed: bool) -> Seq<u8> {
    if has_sign(text, signed) {
        text.drop_first()
    } else {
        text
    }
}

/// Whether `text` is a number in base 16: an optional sign, then at least one
/// digit and nothing but digits.
pub open spec fn is_number(text: Seq<u8>, signed: bool) -> bool {
    digits_after_sign(text, signed).len() > 0 && all_digits(digits_after_sign(text, signed))
}

/// The number that the digits `digits` spell in base 16, the most significant
/// first.
pub open spec fn magnitude_of(digits: Seq<u8>) -> nat
    decreases digits.len(),
{
    if digits.len() == 0 {
        0
    } else {
        magnitude_of(digits.drop_last()) * 16 + nibble_of(digits.last()).unwrap() as nat
    }
}

/// The number that `text` spells, with its sign.
pub open spec fn number_of(text: Seq<u8>, signed: bool) -> int {
    if signed && text.len() > 0 && text[0] == 0x2d {
        -(magnitude_of(digits_after_sign(text, signed)) as int)
    } else {
        magnitude_of(digits_after_sign(text, signed)) as int
    }
}

/// Whether `text` is a number that lies between `min` and `max`.
pub open spec fn parses_as(text: Seq<u8>, signed: bool, min: int, max: int) -> bool {
    is_number(text, signed) && min <= number_of(text, signed) <= max
}

/// Whether `outcome` is what reading `text`, already without its prefix, as a
/// number between `min` and `max` comes to. Text that is not UTF-8 is refused
/// first; then text that is no number, or a number out of range.
pub open spec fn number_decoded(
    text: Seq<u8>,
    signed: bool,
    min: int,
    max: int,
    outcome: Result<int, Error>,
) -> bool {
    match outcome {
        Ok(value) => parses_as(text, signed, min, max) && value == number_of(text, signed),
        Err(Error::Utf8Error(_)) => !valid_utf8(text),
        Err(Error::ParseIntError(_)) => valid_utf8(text) && !parses_as(text, signed, min, max),
        Err(_) => false,
    }
}

/// A number is ASCII text, so it is never refused as text that is not UTF-8.
pub proof fn lemma_number_is_utf8(text: Seq<u8>, signed: bool)
    requires
        is_number(text, signed),
    ensures
        valid_utf8(text),
{
    let digits = digits_after_sign(text, signed);
    assert forall|i: int| 0 <= i < text.len() implies #[trigger] text[i] < 0x80 by {
        if has_sign(text, signed) {
            if i > 0 {
                assert(is_hex_digit(digits[i - 1]));
            }
        } else {
            assert(is_hex_digit(digits[i]));
        }
    }
    lemma_ascii_is_utf8(text);
}

/// Takes the prefix off `hex` and reads the rest as text.
pub fn number_text(hex: &[u8]) -> (r: Result<&str, Error>)
    ensures
        match r {
            Ok(text) => valid_utf8(stripped(hex@)) && text.spec_bytes() == stripped(hex@),
            Err(Error::Utf8Error(_)) => !valid_utf8(stripped(hex@)),
            Err(_) => false,
        },
{
    match core::str::from_utf8(strip_0x(hex)) {
        Ok(text) => Ok(text),
        Err(e) => Err(Error::Utf8Error(e)),
    }
}

/// std's `u8::from_str_radix` in base 16: it succeeds exactly on a number
/// that fits `u8`, and gives that number.
pub assume_specification[ u8::from_str_radix ](src: &str, radix: u32) -> (r: Result<
    u8,
    ParseIntError,
>)
    requires
        radix == 16,
    ensures
        r is Ok <==> parses_as(src.spec_bytes(), false, u8::MIN as int, u8::MAX as int),
        r matches Ok(value) ==> value == number_of(src.spec_bytes(), false),
;

/// std's `u16::from_str_radix` in base 16: it succeeds exactly on a number
/// that fits `u16`, and gives that number.
pub assume_specification[ u16::from_str_radix ](src: &str, radix: u32) -> (r: Result<
    u16,
    ParseIntError,
>)
    requires
        radix == 16,
    ensures
        r is Ok <==> parses_as(src.spec_bytes(), false, u16::MIN as int, u16::MAX as int),
        r matches Ok(value) ==> value == number_of(src.spec_bytes(), false),
;

/// std's `u32::from_str_radix` in base 16: it succeeds exactly on a number
/// that fits `u32`, and gives that number.
pub assume_specification[ u32::from_str_radix ](src: &str, radix: u32) -> (r: Result<
    u32,
    ParseIntError,
>)
    requires
        radix == 16,
    ensures
        r is Ok <==> parses_as(src.spec_bytes(), false, u32::MIN as int, u32::MAX as int),
        r matches Ok(value) ==> value == number_of(src.spec_bytes(), false),
;

/// std's `u64::from_str_radix` in base 16: it succeeds exactly on a number
/// that fits `u64`, and gives that number.
pub assume_specification[ u64::from_str_radix ](src: &str, radix: u32) -> (r: Result<
    u64,
    ParseIntError,
>)
    requires
        radix == 16,
    ensures
        r is Ok <==> parses_as(src.spec_bytes(), false, u64::MIN as int, u64::MAX as int),
        r matches Ok(value) ==> value == number_of(src.spec_bytes(), false),
;

/// std's `u128::from_str_radix` in base 16: it succeeds exactly on a number
/// that fits `u128`, and gives that number.
pub assume_specification[ u128::from_str_radix ](src: &str, radix: u32) -> (r: Result<
    u128,
    ParseIntError,
>)
    requires
        radix == 16,
    ensures
        r is Ok <==> parses_as(src.spec_bytes(), false, u128::MIN as int, u128::MAX as int),
        r matches Ok(value) ==> value == number_of(src.spec_bytes(), false),
;

/// std's `usize::from_str_radix` in base 16: it succeeds exactly on a number
/// that fits `usize`, and gives that number.
pub assume_specification[ usize::from_str_radix ](src: &str, radix: u32) -> (r: Result<
    usize,
    ParseIntError,
>)
    requires
        radix == 16,
    ensures
        r is Ok <==> parses_as(src.spec_bytes(), false, usize::MIN as int, usize::MAX as int),
        r matches Ok(value) ==> value == number_of(src.spec_bytes(), false),
;

/// std's `i8::from_str_radix` in base 16: it succeeds exactly on a number
/// that fits `i8`, and gives that number.
pub assume_specification[ i8::from_str_radix ](src: &str, radix: u32) -> (r: Result<
    i8,
    ParseIntError,
>)
    requires
        radix == 16,
    ensures
        r is Ok <==> parses_as(src.spec_bytes(), true, i8::MIN as int, i8::MAX as int),
        r matches Ok(value) ==> value == number_of(src.spec_bytes(), true),
;

/// std's `i16::from_str_radix` in base 16: it succeeds exactly on a number
/// that fits `i16`, and gives that number.
pub assume_specification[ i16::from_str_radix ](src: &str, radix: u32) -> (r: Result<
    i16,
    ParseIntError,
>)
    requires
        radix == 16,
    ensures
        r is Ok <==> parses_as(src.spec_bytes(), true, i16::MIN as int, i16::MAX as int),
        r matches Ok(value) ==> value == number_of(src.spec_bytes(), true),
;

/// std's `i32::from_str_radix` in base 16: it succeeds exactly on a number
/// that fits `i32`, and gives that number.
pub assume_specification[ i32::from_str_radix ](src: &str, radix: u32) -> (r: Result<
    i32,
    ParseIntError,
>)
    requires
        radix == 16,
    ensures
        r is Ok <==> parses_as(src.spec_bytes(), true, i32::MIN as int, i32::MAX as int),
        r matches Ok(value) ==> value == number_of(src.spec_bytes(), true),
;

/// std's `i64::from_str_radix` in base 16: it succeeds exactly on a number
/// that fits `i64`, and gives that number.
pub assume_specification[ i64::from_str_radix ](src: &str, radix: u32) -> (r: Result<
    i64,
    ParseIntError,
>)
    requires
        radix == 16,
    ensures
        r is Ok <==> parses_as(src.spec_bytes(), true, i64::MIN as int, i64::MAX as int),
        r matches Ok(value) ==> value == number_of(src.spec_bytes(), true),
;

/// std's `i128::from_str_radix` in base 16: it succeeds exactly on a number
/// that fits `i128`, and gives that number.
pub assume_specification[ i128::from_str_radix ](src: &str, radix: u32) -> (r: Result<
    i128,
    ParseIntError,
>)
    requires
        radix == 16,
    ensures
        r is Ok <==> parses_as(src.spec_bytes(), true, i128::MIN as int, i128::MAX as int),
        r matches Ok(value) ==> value == number_of(src.spec_bytes(), true),
;

/// std's `isize::from_str_radix` in base 16: it succeeds exactly on a number
/// that fits `isize`, and gives that number.
pub assume_specification[ isize::from_str_radix ](src: &str, radix: u32) -> (r: Result<
    isize,
    ParseIntError,
>)
    requires
        radix == 16,
    ensures
        r is Ok <==> parses_as(src.spec_bytes(), true, isize::MIN as int, isize::MAX as int),
        r matches Ok(value) ==> value == number_of(src.spec_bytes(), true),
;

impl Dehexify for usize {
    open spec fn dehexified(hex: Seq<u8>, outcome: Result<Self, Error>) -> bool {
        number_decoded(
            stripped(hex),
            false,
            usize::MIN as int,
            usize::MAX as int,
            match outcome {
                Ok(value) => Ok(value as int),
                Err(e) => Err(e),
            },
        )
    }

    fn dehexify(hex: &[u8]) -> (r: Result<Self, Error>) {
        match number_text(hex) {
            Ok(text) => match usize::from_str_radix(text, 16) {
                Ok(value) => Ok(value),
                Err(e) => Err(Error::ParseIntError(e)),
            },
            Err(e) => Err(e),
        }
    }
}

impl Dehexify for u8 {
    open spec fn dehexified(hex: Seq<u8>, outcome: Result<Self, Error>) -> bool {
        number_decoded(
            stripped(hex),
            false,
            u8::MIN as int,
            u8::MAX as int,
            match outcome {
                Ok(value) => Ok(value as int),
                Err(e) => Err(e),
            },
        )
    }

    fn dehexify(hex: &[u8]) -> (r: Result<Self, Error>) {
        match number_text(hex) {
            Ok(text) => match u8::from_str_radix(text, 16) {
                Ok(value) => Ok(value),
                Err(e) => Err(Error::ParseIntError(e)),
            },
            Err(e) => Err(e),
        }
    }
}

impl Dehexify for u16 {
    open spec fn dehexified(hex: Seq<u8>, outcome: Result<Self, Error>) -> bool {
        number_decoded(
            stripped(hex),
            false,
            u16::MIN as int,
            u16::MAX as int,
            match outcome {
                Ok(value) => Ok(value as int),
                Err(e) => Err(e),
            },
        )
    }

    fn dehexify(hex: &[u8]) -> (r: Result<Self, Error>) {
        match number_text(hex) {
            Ok(text) => match u16::from_str_radix(text, 16) {
                Ok(value) => Ok(value),
                Err(e) => Err(Error::ParseIntError(e)),
            },
            Err(e) => Err(e),
        }
    }
}

impl Dehexify for u32 {
    open spec fn dehexified(hex: Seq<u8>, outcome: Result<Self, Error>) -> bool {
        number_decoded(
            stripped(hex),
            false,
            u32::MIN as int,
            u32::MAX as int,
            match outcome {
                Ok(value) => Ok(value as int),
                Err(e) => Err(e),
            },
        )
    }

    fn dehexify(hex: &[u8]) -> (r: Result<Self, Error>) {
        match number_text(hex) {
            Ok(text) => match u32::from_str_radix(text, 16) {
                Ok(value) => Ok(value),
                Err(e) => Err(Error::ParseIntError(e)),
            },
            Err(e) => Err(e),
        }
    }
}

impl Dehexify for u64 {
    open spec fn dehexified(hex: Seq<u8>, outcome: Result<Self, Error>) -> bool {
        number_decoded(
            stripped(hex),
            false,
            u64::MIN as int,
            u64::MAX as int,
            match outcome {
                Ok(value) => Ok(value as int),
                Err(e) => Err(e),
            },
        )
    }

    fn dehexify(hex: &[u8]) -> (r: Result<Self, Error>) {
        match number_text(hex) {
            Ok(text) => match u64::from_str_radix(text, 16) {
                Ok(value) => Ok(value),
                Err(e) => Err(Error::ParseIntError(e)),
            },
            Err(e) => Err(e),
        }
    }
}

impl Dehexify for u128 {
    open spec fn dehexified(hex: Seq<u8>, outcome: Result<Self, Error>) -> bool {
        number_decoded(
            stripped(hex),
            false,
            u128::MIN as int,
            u128::MAX as int,
            match outcome {
                Ok(value) => Ok(value as int),
                Err(e) => Err(e),
            },
        )
    }

    fn dehexify(hex: &[u8]) -> (r: Result<Self, Error>) {
        match number_text(hex) {
            Ok(text) => match u128::from_str_radix(text, 16) {
                Ok(value) => Ok(value),
                Err(e) => Err(Error::ParseIntError(e)),
            },
            Err(e) => Err(e),
        }
    }
}

impl Dehexify for isize {
    open spec fn dehexified(hex: Seq<u8>, outcome: Result<Self, Error>) -> bool {
        number_decoded(
            stripped(hex),
            true,
            isize::MIN as int,
            isize::MAX as int,
            match outcome {
                Ok(value) => Ok(value as int),
                Err(e) => Err(e),
            },
        )
    }

    fn dehexify(hex: &[u8]) -> (r: Result<Self, Error>) {
        match number_text(hex) {
            Ok(text) => match isize::from_str_radix(text, 16) {
                Ok(value) => Ok(value),
                Err(e) => Err(Error::ParseIntError(e)),
            },
            Err(e) => Err(e),
        }
    }
}

impl Dehexify for i8 {
    open spec fn dehexified(hex: Seq<u8>, outcome: Result<Self, Error>) -> bool {
        number_decoded(
            stripped(hex),
            true,
            i8::MIN as int,
            i8::MAX as int,
            match outcome {
                Ok(value) => Ok(value as int),
                Err(e) => Err(e),
            },
        )
    }

    fn dehexify(hex: &[u8]) -> (r: Result<Self, Error>) {
        match number_text(hex) {
            Ok(text) => match i8::from_str_radix(text, 16) {
                Ok(value) => Ok(value),
                Err(e) => Err(Error::ParseIntError(e)),
            },
            Err(e) => Err(e),
        }
    }
}

impl Dehexify for i16 {
    open spec fn dehexified(hex: Seq<u8>, outcome: Result<Self, Error>) -> bool {
        number_decoded(
            stripped(hex),
            true,
            i16::MIN as int,
            i16::MAX as int,
            match outcome {
                Ok(value) => Ok(value as int),
                Err(e) => Err(e),
            },
        )
    }

    fn dehexify(hex: &[u8]) -> (r: Result<Self, Error>) {
        match number_text(hex) {
            Ok(text) => match i16::from_str_radix(text, 16) {
                Ok(value) => Ok(value),
                Err(e) => Err(Error::ParseIntError(e)),
            },
            Err(e) => Err(e),
        }
    }
}

impl Dehexify for i32 {
    open spec fn dehexified(hex: Seq<u8>, outcome: Result<Self, Error>) -> bool {
        number_decoded(
            stripped(hex),
            true,
            i32::MIN as int,
            i32::MAX as int,
            match outcome {
                Ok(value) => Ok(value as int),
                Err(e) => Err(e),
            },
        )
    }

    fn dehexify(hex: &[u8]) -> (r: Result<Self, Error>) {
        match number_text(hex) {
            Ok(text) => match i32::from_str_radix(text, 16) {
                Ok(value) => Ok(value),
                Err(e) => Err(Error::ParseIntError(e)),
            },
            Err(e) => Err(e),
        }
    }
}

impl Dehexify for i64 {
    open spec fn dehexified(hex: Seq<u8>, outcome: Result<Self, Error>) -> bool {
        number_decoded(
            stripped(hex),
            true,
            i64::MIN as int,
            i64::MAX as int,
            match outcome {
                Ok(value) => Ok(value as int),
                Err(e) => Err(e),
            },
        )
    }

    fn dehexify(hex: &[u8]) -> (r: Result<Self, Error>) {
        match number_text(hex) {
            Ok(text) => match i64::from_str_radix(text, 16) {
                Ok(value) => Ok(value),
                Err(e) => Err(Error::ParseIntError(e)),
            },
            Err(e) => Err(e),
        }
    }
}

impl Dehexify for i128 {
    open spec fn dehexified(hex: Seq<u8>, outcome: Result<Self, Error>) -> bool {
        number_decoded(
            stripped(hex),
            true,
            i128::MIN as int,
            i128::MAX as int,
            match outcome {
                Ok(value) => Ok(value as int),
                Err(e) => Err(e),
            },
        )
    }

    fn dehexify(hex: &[u8]) -> (r: Result<Self, Error>) {
        match number_text(hex) {
            Ok(text) => match i128::from_str_radix(text, 16) {
                Ok(value) => Ok(value),
                Err(e) => Err(Error::ParseIntError(e)),
            },
            Err(e) => Err(e),
        }
    }
}

} // verus!

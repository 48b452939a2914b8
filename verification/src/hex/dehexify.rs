//! From hexadecimal text to bytes.

use crate::buffer::{small_bytes_push, small_bytes_with_capacity, SmallBytes};
use crate::digit::{hex2digit, is_hex_digit, nibble_of};
use crate::op::slice2array;
use crate::{viewed, Error};
use vstd::prelude::*;
use vstd::std_specs::convert::FromSpec;

verus! {

/// What is left of `hex` once a leading `0x` is taken off.
pub open spec fn stripped(hex: Seq<u8>) -> Seq<u8> {
    if hex.len() >= 2 && hex[0] == 0x30 && hex[1] == 0x78 {
        hex.subrange(2, hex.len() as int)
    } else {
        hex
    }
}

/// Whether every byte of `text` is a hexadecimal digit.
pub open spec fn all_digits(text: Seq<u8>) -> bool {
    forall|i: int| 0 <= i < text.len() ==> is_hex_digit(#[trigger] text[i])
}

/// Whether `index` is the place of the first byte of `text` that is no
/// hexadecimal digit.
pub open spec fn first_non_digit_at(text: Seq<u8>, index: int) -> bool {
    &&& 0 <= index < text.len()
    &&& !is_hex_digit(text[index])
    &&& forall|i: int| 0 <= i < index ==> is_hex_digit(#[trigger] text[i])
}

/// The byte that the digits `high` and `low` spell, in this order.
pub open spec fn byte_of(high: u8, low: u8) -> u8 {
    (nibble_of(high).unwrap() * 16 + nibble_of(low).unwrap()) as u8
}

/// The bytes that `text` spells, two digits to a byte.
pub open spec fn bytes_of(text: Seq<u8>) -> Seq<u8> {
    Seq::new((text.len() / 2) as nat, |i: int| byte_of(text[2 * i], text[2 * i + 1]))
}

/// Whether `outcome` is what decoding `text`, already without its prefix,
/// comes to. An odd length is refused first. Then the first byte that is no
/// digit is reported, with its place in `text`. Otherwise the outcome is the
/// bytes that `text` spells.
pub open spec fn decoded(text: Seq<u8>, outcome: Result<Seq<u8>, Error>) -> bool {
    match outcome {
        Ok(bytes) => text.len() % 2 == 0 && all_digits(text) && bytes == bytes_of(text),
        Err(Error::InvalidLength) => text.len() % 2 != 0,
        Err(Error::InvalidCharacter { character, index }) => {
            &&& text.len() % 2 == 0
            &&& first_non_digit_at(text, index as int)
            &&& character == text[index as int] as char
        },
        Err(_) => false,
    }
}

/// Removes a leading `0x` from `hex`, if there is one.
pub fn strip_0x(hex: &[u8]) -> (text: &[u8])
    ensures
        text@ == stripped(hex@),
{
    if hex.len() >= 2 && hex[0] == 0x30 && hex[1] == 0x78 {
        vstd::slice::slice_subrange(hex, 2, hex.len())
    } else {
        hex
    }
}

/// Decodes one byte from the two digits `hex0` and `hex1`, each given with its
/// place in the text. The first of the two that is no digit is reported.
pub fn dehexify_ascii(hex0: (&u8, usize), hex1: (&u8, usize)) -> (r: Result<u8, Error>)
    ensures
        match r {
            Ok(byte) => is_hex_digit(*hex0.0) && is_hex_digit(*hex1.0) && byte == byte_of(
                *hex0.0,
                *hex1.0,
            ),
            Err(Error::InvalidCharacter { character, index }) => {
                ||| !is_hex_digit(*hex0.0) && character == *hex0.0 as char && index == hex0.1
                ||| is_hex_digit(*hex0.0) && !is_hex_digit(*hex1.0) && character == *hex1.0 as char
                    && index == hex1.1
            },
            Err(_) => false,
        },
{
    let high = match hex2digit(*hex0.0) {
        Some(nibble) => nibble,
        None => {
            return Err(Error::InvalidCharacter { character: *hex0.0 as char, index: hex0.1 });
        },
    };
    let low = match hex2digit(*hex1.0) {
        Some(nibble) => nibble,
        None => {
            return Err(Error::InvalidCharacter { character: *hex1.0 as char, index: hex1.1 });
        },
    };
    assert(high < 16 && low < 16 ==> (high << 4) | low == high * 16 + low) by (bit_vector);
    Ok((high << 4) | low)
}

/// Decodes `hex`, with or without a leading `0x`, into a buffer of
/// `hex.len() / 2` bytes.
pub fn dehexify_bytes(hex: &[u8]) -> (r: Result<SmallBytes, Error>)
    ensures
        decoded(stripped(hex@), viewed(r)),
{
    let text = strip_0x(hex);
    if text.len() % 2 != 0 {
        return Err(Error::InvalidLength);
    }
    let cap = text.len() / 2;
    let mut bytes = small_bytes_with_capacity(cap);
    let mut i: usize = 0;
    while i < cap
        invariant
            text@ == stripped(hex@),
            text@.len() == 2 * cap,
            text@.len() <= usize::MAX,
            i <= cap,
            bytes@.len() == i,
            forall|k: int| 0 <= k < 2 * i ==> is_hex_digit(#[trigger] text@[k]),
            forall|k: int| 0 <= k < i ==> #[trigger] bytes@[k] == byte_of(text@[2 * k], text@[2 * k + 1]),
        decreases cap - i,
    {
        let byte = match dehexify_ascii((&text[i * 2], i * 2), (&text[i * 2 + 1], i * 2 + 1)) {
            Ok(byte) => byte,
            Err(e) => {
                return Err(e);
            },
        };
        small_bytes_push(&mut bytes, byte);
        i = i + 1;
    }
    assert(bytes@ =~= bytes_of(text@));
    Ok(bytes)
}

/// Whether `outcome` is what decoding `text`, already without its prefix,
/// into exactly `n` bytes comes to. The text is decoded first, so an odd
/// length or a byte that is no digit is reported as [`decoded`] reports it.
/// Well-formed text that spells another number of bytes is refused with
/// `MismatchedLength` and `n`.
pub open spec fn decoded_exactly(text: Seq<u8>, n: nat, outcome: Result<Seq<u8>, Error>) -> bool {
    match outcome {
        Ok(bytes) => decoded(text, Ok(bytes)) && bytes.len() == n,
        Err(Error::MismatchedLength { expect }) => {
            &&& text.len() % 2 == 0
            &&& all_digits(text)
            &&& text.len() / 2 != n
            &&& expect == n
        },
        Err(e) => decoded(text, Err(e)),
    }
}

/// Whether `text`, already without its prefix, is well formed: an even number
/// of bytes, all of them hexadecimal digits.
pub open spec fn well_formed(text: Seq<u8>) -> bool {
    text.len() % 2 == 0 && all_digits(text)
}

/// What hexadecimal text decodes to, for each type that it can be decoded
/// into.
pub trait Dehexify: Sized {
    /// Whether `outcome` is what decoding `hex` into this type comes to.
    spec fn dehexified(hex: Seq<u8>, outcome: Result<Self, Error>) -> bool;

    /// Decodes `hex`, with or without a leading `0x`.
    fn dehexify(hex: &[u8]) -> (r: Result<Self, Error>)
        ensures
            Self::dehexified(hex@, r),
    ;
}

impl<const N: usize> Dehexify for [u8; N] {
    open spec fn dehexified(hex: Seq<u8>, outcome: Result<Self, Error>) -> bool {
        decoded_exactly(stripped(hex), N as nat, viewed(outcome))
    }

    fn dehexify(hex: &[u8]) -> (r: Result<Self, Error>) {
        dehexify_array(hex)
    }
}

impl Dehexify for SmallBytes {
    open spec fn dehexified(hex: Seq<u8>, outcome: Result<Self, Error>) -> bool {
        decoded(stripped(hex), viewed(outcome))
    }

    fn dehexify(hex: &[u8]) -> (r: Result<Self, Error>) {
        dehexify_bytes(hex)
    }
}

impl Dehexify for Vec<u8> {
    open spec fn dehexified(hex: Seq<u8>, outcome: Result<Self, Error>) -> bool {
        decoded(stripped(hex), viewed(outcome))
    }

    fn dehexify(hex: &[u8]) -> (r: Result<Self, Error>) {
        match dehexify_bytes(hex) {
            Ok(bytes) => Ok(bytes.into_vec()),
            Err(e) => Err(e),
        }
    }
}

/// Decodes `hex`, with or without a leading `0x`, into `slice_src`, which
/// must have the length of what `hex` spells. Nothing is written unless the
/// whole text is well formed and fits.
pub fn dehexify_slice_mut<'a>(hex: &[u8], slice_src: &'a mut [u8]) -> (r: Result<&'a [u8], Error>)
    ensures
        match r {
            Ok(bytes) => {
                &&& well_formed(stripped(hex@))
                &&& stripped(hex@).len() / 2 == old(slice_src)@.len()
                &&& final(slice_src)@ == bytes_of(stripped(hex@))
                &&& bytes@ == bytes_of(stripped(hex@))
            },
            Err(Error::InvalidLength) => {
                &&& stripped(hex@).len() % 2 != 0
                &&& final(slice_src)@ == old(slice_src)@
            },
            Err(Error::MismatchedLength { expect }) => {
                &&& stripped(hex@).len() % 2 == 0
                &&& stripped(hex@).len() / 2 != old(slice_src)@.len()
                &&& expect == stripped(hex@).len() / 2
                &&& final(slice_src)@ == old(slice_src)@
            },
            Err(Error::InvalidCharacter { character, index }) => {
                &&& stripped(hex@).len() % 2 == 0
                &&& stripped(hex@).len() / 2 == old(slice_src)@.len()
                &&& first_non_digit_at(stripped(hex@), index as int)
                &&& character == stripped(hex@)[index as int] as char
                &&& final(slice_src)@ == old(slice_src)@
            },
            Err(_) => false,
        },
{
    let text = strip_0x(hex);
    if text.len() % 2 != 0 {
        return Err(Error::InvalidLength);
    }
    let expected_len = text.len() / 2;
    if expected_len != slice_src.len() {
        return Err(Error::MismatchedLength { expect: expected_len });
    }
    let mut i: usize = 0;
    while i < text.len()
        invariant
            text@ == stripped(hex@),
            text@.len() == 2 * expected_len,
            expected_len == slice_src@.len(),
            slice_src@ == old(slice_src)@,
            i <= text@.len(),
            forall|k: int| 0 <= k < i ==> is_hex_digit(#[trigger] text@[k]),
        decreases text.len() - i,
    {
        if hex2digit(text[i]).is_none() {
            return Err(Error::InvalidCharacter { character: text[i] as char, index: i });
        }
        i = i + 1;
    }
    fill_unchecked(text, slice_src);
    Ok(slice_src)
}

/// Decodes `hex`, with or without a leading `0x`, into an array of `N` bytes
/// and converts that into `T`. Whether it succeeds depends on `hex` alone;
/// the array handed to `T::from` holds the bytes that `hex` spells.
pub fn dehexify_array_then_into<T, const N: usize>(hex: &[u8]) -> (r: Result<T, Error>) where
    T: From<[u8; N]>,

    ensures
        match r {
            Ok(value) => {
                &&& well_formed(stripped(hex@))
                &&& stripped(hex@).len() / 2 == N
                &&& T::obeys_from_spec() ==> exists|array: [u8; N]|
                    array@ == bytes_of(stripped(hex@)) && value == T::from_spec(array)
            },
            Err(e) => decoded_exactly(stripped(hex@), N as nat, Err(e)),
        },
{
    match dehexify_array::<N>(hex) {
        Ok(array) => Ok(T::from(array)),
        Err(e) => Err(e),
    }
}

/// Decodes `hex`, with or without a leading `0x`, into a vector and converts
/// that into `T`. Whether it succeeds depends on `hex` alone; the vector
/// handed to `T::from` holds the bytes that `hex` spells.
pub fn dehexify_vec_then_into<T>(hex: &[u8]) -> (r: Result<T, Error>) where T: From<Vec<u8>>
    ensures
        match r {
            Ok(value) => {
                &&& well_formed(stripped(hex@))
                &&& T::obeys_from_spec() ==> exists|bytes: Vec<u8>|
                    bytes@ == bytes_of(stripped(hex@)) && value == T::from_spec(bytes)
            },
            Err(e) => decoded(stripped(hex@), Err(e)),
        },
{
    match dehexify_bytes(hex) {
        Ok(bytes) => Ok(T::from(bytes.into_vec())),
        Err(e) => Err(e),
    }
}

/// Decodes `hex`, with or without a leading `0x`, into an array of exactly
/// `N` bytes.
pub fn dehexify_array<const N: usize>(hex: &[u8]) -> (r: Result<[u8; N], Error>)
    ensures
        decoded_exactly(stripped(hex@), N as nat, viewed(r)),
{
    let bytes = match dehexify_bytes(hex) {
        Ok(bytes) => bytes,
        Err(e) => {
            return Err(e);
        },
    };
    slice2array(bytes.as_slice())
}

/// The byte that the digits `high` and `low` spell. Nothing is checked: what
/// comes back for a byte that is no digit is not specified.
pub fn dehexify_ascii_unchecked(high: u8, low: u8) -> (byte: u8)
    requires
        is_hex_digit(high),
        is_hex_digit(low),
    ensures
        byte == byte_of(high, low),
{
    let high = crate::digit::HEX2DIGIT[high as usize];
    let low = crate::digit::HEX2DIGIT[low as usize];
    assert(high < 16 && low < 16 ==> (high << 4) | low == high * 16 + low) by (bit_vector);
    (high << 4) | low
}

/// Writes the bytes that `text` spells into `slice_src`.
fn fill_unchecked(text: &[u8], slice_src: &mut [u8])
    requires
        well_formed(text@),
        text@.len() / 2 == old(slice_src)@.len(),
    ensures
        final(slice_src)@ == bytes_of(text@),
{
    let len = text.len() / 2;
    let mut i: usize = 0;
    while i < len
        invariant
            well_formed(text@),
            len == slice_src@.len(),
            text@.len() == 2 * len,
            text@.len() <= usize::MAX,
            i <= len,
            forall|k: int| 0 <= k < i ==> #[trigger] slice_src@[k] == byte_of(text@[2 * k], text@[2 * k + 1]),
        decreases len - i,
    {
        slice_src[i] = dehexify_ascii_unchecked(text[i * 2], text[i * 2 + 1]);
        i = i + 1;
    }
    assert(slice_src@ =~= bytes_of(text@));
}

/// Decodes `hex`, with or without a leading `0x`, without checking it. The
/// caller has made sure that the text is well formed; for other text the
/// outcome is not specified.
pub fn hex2bytes_unchecked(hex: &[u8]) -> (bytes: Vec<u8>)
    requires
        well_formed(stripped(hex@)),
    ensures
        bytes@ == bytes_of(stripped(hex@)),
{
    let text = strip_0x(hex);
    let len = text.len() / 2;
    let mut bytes: Vec<u8> = Vec::with_capacity(len);
    let mut i: usize = 0;
    while i < len
        invariant
            well_formed(text@),
            text@.len() == 2 * len,
            text@.len() <= usize::MAX,
            i <= len,
            bytes@.len() == i,
            forall|k: int| 0 <= k < i ==> #[trigger] bytes@[k] == byte_of(text@[2 * k], text@[2 * k + 1]),
        decreases len - i,
    {
        bytes.push(dehexify_ascii_unchecked(text[i * 2], text[i * 2 + 1]));
        i = i + 1;
    }
    assert(bytes@ =~= bytes_of(text@));
    bytes
}

/// Decodes `hex`, with or without a leading `0x`, into `slice_src` without
/// checking it. The caller has made sure that the text is well formed and
/// that `slice_src` has the length of what it spells; otherwise the outcome
/// is not specified.
pub fn hex2slice_unchecked<'a>(hex: &[u8], slice_src: &'a mut [u8]) -> (bytes: &'a [u8])
    requires
        well_formed(stripped(hex@)),
        stripped(hex@).len() / 2 == old(slice_src)@.len(),
    ensures
        final(slice_src)@ == bytes_of(stripped(hex@)),
        bytes@ == bytes_of(stripped(hex@)),
{
    fill_unchecked(strip_0x(hex), slice_src);
    slice_src
}

/// Decodes `hex`, with or without a leading `0x`, into an array of `N` bytes
/// without checking it. The caller has made sure that the text is well formed
/// and spells `N` bytes; otherwise the outcome is not specified.
pub fn hex2array_unchecked<const N: usize>(hex: &[u8]) -> (array: [u8; N])
    requires
        well_formed(stripped(hex@)),
        stripped(hex@).len() / 2 == N,
    ensures
        array@ == bytes_of(stripped(hex@)),
{
    let mut array = [0u8;N];
    fill_unchecked(strip_0x(hex), &mut array);
    array
}

} // verus!

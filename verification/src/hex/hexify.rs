//! From bytes and numbers to hexadecimal text.

use crate::buffer::{small_text_into_vec, small_text_push, small_text_with_capacity};
use crate::digit::{digit2hex, digit_of, hex2digit, is_hex_digit};
use crate::hex::{all_digits, first_non_digit_at, stripped};
use crate::text::{chars_of, is_ascii_text, lemma_ascii_is_utf8, string_from_ascii};
use crate::Error;
use vstd::prelude::*;
use vstd::string::{StringExecFns, StringSliceAdditionalSpecFns};

verus! {

/// The nibbles of `bytes`: of each byte the high one, then the low one.
pub open spec fn nibbles_of_bytes(bytes: Seq<u8>) -> Seq<u8> {
    Seq::new(
        2 * bytes.len(),
        |i: int|
            if i % 2 == 0 {
                bytes[i / 2] / 16
            } else {
                bytes[i / 2] % 16
            },
    )
}

/// The nibbles of `value`, the most significant first and none more than it
/// takes: a single 0 for zero, and no leading 0 otherwise.
pub open spec fn nibbles_of_number(value: nat) -> Seq<u8>
    decreases value,
{
    if value < 16 {
        seq![value as u8]
    } else {
        nibbles_of_number(value / 16).push((value % 16) as u8)
    }
}

/// The ASCII digits of `nibbles`, in upper case if `upper`.
pub open spec fn digits_of(nibbles: Seq<u8>, upper: bool) -> Seq<u8> {
    Seq::new(nibbles.len(), |i: int| digit_of(nibbles[i], upper))
}

/// The text `0x`.
pub open spec fn prefix_0x() -> Seq<u8> {
    seq![0x30u8, 0x78u8]
}

/// The hexadecimal text of `nibbles`: their digits, in upper case if `upper`,
/// behind `0x` if `prefixed`.
pub open spec fn hexified(nibbles: Seq<u8>, upper: bool, prefixed: bool) -> Seq<u8> {
    if prefixed {
        prefix_0x() + digits_of(nibbles, upper)
    } else {
        digits_of(nibbles, upper)
    }
}

/// Room for a prefix of `prefix_len` bytes and two digits for each of `len`
/// bytes, as far as one allocation can hold it.
fn text_capacity(prefix_len: usize, len: usize) -> (cap: usize)
    ensures
        cap <= isize::MAX,
        prefix_len + 2 * len <= isize::MAX ==> cap == prefix_len + 2 * len,
{
    let most = isize::MAX as usize;
    if prefix_len <= most && len <= (most - prefix_len) / 2 {
        prefix_len + 2 * len
    } else {
        most
    }
}

/// The hexadecimal text of `bytes`, two digits to a byte.
pub fn hexify_bytes(bytes: &[u8], upper: bool, prefixed: bool) -> (text: String)
    ensures
        text@ == chars_of(hexified(nibbles_of_bytes(bytes@), upper, prefixed)),
        text@.len() == (if prefixed {
            2nat
        } else {
            0nat
        }) + 2 * bytes@.len(),
{
    let prefix_len: usize = if prefixed {
        2
    } else {
        0
    };
    let mut hex_bytes = small_text_with_capacity(text_capacity(prefix_len, bytes.len()));
    if prefixed {
        small_text_push(&mut hex_bytes, 0x30);
        small_text_push(&mut hex_bytes, 0x78);
    }
    let ghost prefix = hex_bytes@;
    assert(prefix =~= if prefixed {
        prefix_0x()
    } else {
        Seq::<u8>::empty()
    });
    let mut i: usize = 0;
    while i < bytes.len()
        invariant
            i <= bytes@.len(),
            prefix.len() <= 2,
            is_ascii_text(hex_bytes@),
            hex_bytes@ =~= prefix + digits_of(nibbles_of_bytes(bytes@.subrange(0, i as int)), upper),
        decreases bytes.len() - i,
    {
        let byte = bytes[i];
        assert(byte >> 4 == byte / 16 && byte & 0x0f == byte % 16) by (bit_vector);
        let high = digit2hex(byte >> 4, upper);
        let low = digit2hex(byte & 0x0f, upper);
        small_text_push(&mut hex_bytes, high);
        small_text_push(&mut hex_bytes, low);
        proof {
            let before = nibbles_of_bytes(bytes@.subrange(0, i as int));
            let after = nibbles_of_bytes(bytes@.subrange(0, i + 1));
            assert(after =~= before.push(byte / 16).push(byte % 16));
            assert(digits_of(after, upper) =~= digits_of(before, upper).push(high).push(low));
        }
        i = i + 1;
    }
    assert(bytes@.subrange(0, i as int) =~= bytes@);
    assert(hex_bytes@ =~= hexified(nibbles_of_bytes(bytes@), upper, prefixed));
    string_from_ascii(small_text_into_vec(hex_bytes))
}

/// The hexadecimal text of `bytes` in lower case, behind `prefix` as it is
/// given.
pub fn bytes2hex(prefix: &str, bytes: &[u8]) -> (text: String)
    ensures
        text@ == prefix@ + chars_of(digits_of(nibbles_of_bytes(bytes@), false)),
        text@.len() == prefix@.len() + 2 * bytes@.len(),
{
    let mut hex = String::with_capacity(text_capacity(prefix.len(), bytes.len()));
    hex.append(prefix);
    let mut i: usize = 0;
    while i < bytes.len()
        invariant
            i <= bytes@.len(),
            hex@ =~= prefix@ + chars_of(
                digits_of(nibbles_of_bytes(bytes@.subrange(0, i as int)), false),
            ),
        decreases bytes.len() - i,
    {
        let byte = bytes[i];
        assert(byte >> 4 == byte / 16 && byte & 0x0f == byte % 16) by (bit_vector);
        let high = digit2hex(byte >> 4, false);
        let low = digit2hex(byte & 0x0f, false);
        hex.push(high as char);
        hex.push(low as char);
        proof {
            let before = nibbles_of_bytes(bytes@.subrange(0, i as int));
            let after = nibbles_of_bytes(bytes@.subrange(0, i + 1));
            assert(after =~= before.push(byte / 16).push(byte % 16));
            assert(digits_of(after, false) =~= digits_of(before, false).push(high).push(low));
            assert(chars_of(digits_of(after, false)) =~= chars_of(digits_of(before, false)).push(
                high as char,
            ).push(low as char));
        }
        i = i + 1;
    }
    assert(bytes@.subrange(0, i as int) =~= bytes@);
    hex
}

/// Checks that `bytes` is hexadecimal text, with or without a leading `0x`,
/// and hands it back as a `str`. The place that an error reports counts from
/// the first byte of `bytes`, its prefix included.
pub fn hexify_hex_bytes(bytes: &[u8]) -> (r: Result<&str, Error>)
    ensures
        match r {
            Ok(text) => all_digits(stripped(bytes@)) && text.spec_bytes() == bytes@ && text@
                == chars_of(bytes@),
            Err(Error::InvalidCharacter { character, index }) => {
                &&& first_non_digit_at(
                    stripped(bytes@),
                    index - (bytes@.len() - stripped(bytes@).len()),
                )
                &&& index < bytes@.len()
                &&& character == bytes@[index as int] as char
            },
            Err(_) => false,
        },
{
    let start: usize = if bytes.len() >= 2 && bytes[0] == 0x30 && bytes[1] == 0x78 {
        2
    } else {
        0
    };
    let mut i: usize = start;
    while i < bytes.len()
        invariant
            start <= i <= bytes@.len(),
            stripped(bytes@) == bytes@.subrange(start as int, bytes@.len() as int),
            forall|k: int| start <= k < i ==> is_hex_digit(#[trigger] bytes@[k]),
        decreases bytes.len() - i,
    {
        if hex2digit(bytes[i]).is_none() {
            return Err(Error::InvalidCharacter { character: bytes[i] as char, index: i });
        }
        i = i + 1;
    }
    proof {
        assert forall|k: int| 0 <= k < bytes@.len() implies #[trigger] bytes@[k] < 0x80 by {
            if k >= start {
                assert(is_hex_digit(bytes@[k]));
            }
        }
        lemma_ascii_is_utf8(bytes@);
    }
    match core::str::from_utf8(bytes) {
        Ok(text) => {
            proof {
                vstd::utf8::decode_utf8_encode_utf8(bytes@);
                vstd::utf8::encode_utf8_decode_utf8(text@);
            }
            Ok(text)
        },
        Err(e) => Err(Error::Utf8Error(e)),
    }
}

/// The place of the highest bit that is set in `value`, the lowest bit being
/// at 0. Zero has none.
pub open spec fn highest_bit(value: nat) -> Option<u32>
    decreases value,
{
    if value == 0 {
        None
    } else if value == 1 {
        Some(0)
    } else {
        Some((highest_bit(value / 2).unwrap() + 1) as u32)
    }
}

/// A number whose bits above `bit` are all 0 and whose bit `bit` is 1 has its
/// highest set bit there.
proof fn lemma_highest_bit(value: u128, bit: u32)
    requires
        bit < 128,
        value >> bit == 1,
    ensures
        highest_bit(value as nat) == Some(bit),
    decreases bit,
{
    if bit == 0 {
        assert(value >> 0u32 == value) by (bit_vector);
    } else {
        let half = value / 2;
        let less = (bit - 1) as u32;
        assert(half >> less == 1 && value >= 2) by (bit_vector)
            requires
                value >> bit == 1,
                0 < bit < 128,
                half == value / 2,
                less == bit - 1,
        ;
        lemma_highest_bit(half, less);
    }
}

/// The place of the highest bit that is set in an unsigned integer.
pub trait HighestSetBit: Sized {
    /// The integer as a number.
    spec fn number(self) -> nat;

    /// The place of the highest bit that is set, or `None` for 0.
    fn highest_set_bit(self) -> (bit: Option<u32>)
        ensures
            bit == highest_bit(self.number()),
    ;
}

/// The place of the highest bit that is set in `value`: shifting `value` down
/// by it leaves 1.
fn highest_set_bit_u64(value: u64) -> (bit: Option<u32>)
    ensures
        match bit {
            Some(bit) => bit < 64 && value >> bit == 1,
            None => value == 0,
        },
{
    if value == 0 {
        None
    } else {
        let zeros = value.leading_zeros();
        proof {
            vstd::std_specs::bits::axiom_u64_leading_zeros(value);
        }
        let bit = 63 - zeros;
        proof {
            let at = (63 - zeros) as u64;
            let above = (64 - zeros) as u64;
            assert(value >> bit == 1) by (bit_vector)
                requires
                    bit == 63 - zeros,
                    zeros < 64,
                    at == 63 - zeros,
                    above == 64 - zeros,
                    (value >> at) & 1u64 != 0u64,
                    value >> above == 0,
            ;
        }
        Some(bit)
    }
}

impl HighestSetBit for u64 {
    open spec fn number(self) -> nat {
        self as nat
    }

    fn highest_set_bit(self) -> (bit: Option<u32>) {
        let bit = highest_set_bit_u64(self);
        proof {
            if let Some(at) = bit {
                let wide = self as u128;
                assert(wide >> at == 1) by (bit_vector)
                    requires
                        at < 64,
                        self >> at == 1,
                        wide == self as u128,
                ;
                lemma_highest_bit(wide, at);
            }
        }
        bit
    }
}

impl HighestSetBit for u8 {
    open spec fn number(self) -> nat {
        self as nat
    }

    fn highest_set_bit(self) -> (bit: Option<u32>) {
        (self as u64).highest_set_bit()
    }
}

impl HighestSetBit for u16 {
    open spec fn number(self) -> nat {
        self as nat
    }

    fn highest_set_bit(self) -> (bit: Option<u32>) {
        (self as u64).highest_set_bit()
    }
}

impl HighestSetBit for u32 {
    open spec fn number(self) -> nat {
        self as nat
    }

    fn highest_set_bit(self) -> (bit: Option<u32>) {
        (self as u64).highest_set_bit()
    }
}

impl HighestSetBit for usize {
    open spec fn number(self) -> nat {
        self as nat
    }

    fn highest_set_bit(self) -> (bit: Option<u32>) {
        (self as u64).highest_set_bit()
    }
}

/// The place of the highest bit that is set in `value`: shifting `value` down
/// by it leaves 1.
fn highest_set_bit_u128(value: u128) -> (bit: Option<u32>)
    ensures
        match bit {
            Some(bit) => bit < 128 && value >> bit == 1,
            None => value == 0,
        },
{
    let high = (value >> 64u32) as u64;
    assert(high == value >> 64u32) by (bit_vector)
        requires
            high == (value >> 64u32) as u64,
    ;
    if high != 0 {
        match highest_set_bit_u64(high) {
            Some(at) => {
                let bit = at + 64;
                assert(value >> bit == 1) by (bit_vector)
                    requires
                        at < 64,
                        bit == at + 64,
                        high == value >> 64u32,
                        high >> at == 1,
                ;
                Some(bit)
            },
            None => None,
        }
    } else {
        let low = #[verifier::truncate]
        (value as u64);
        assert(low == value) by (bit_vector)
            requires
                value >> 64u32 == 0,
                low == value as u64,
        ;
        let bit = highest_set_bit_u64(low);
        proof {
            if let Some(at) = bit {
                assert(value >> at == 1) by (bit_vector)
                    requires
                        at < 64,
                        low >> at == 1,
                        low == value,
                ;
            }
        }
        bit
    }
}

impl HighestSetBit for u128 {
    open spec fn number(self) -> nat {
        self as nat
    }

    fn highest_set_bit(self) -> (bit: Option<u32>) {
        let bit = highest_set_bit_u128(self);
        proof {
            if let Some(at) = bit {
                lemma_highest_bit(self, at);
            }
        }
        bit
    }
}

/// The hexadecimal text of `value`, with as many digits as it takes and no
/// leading 0: the most significant nibble comes first, and zero is `0`.
pub fn hexify_unsigned(value: u128, upper: bool, prefixed: bool) -> (text: String)
    ensures
        text@ == chars_of(hexified(nibbles_of_number(value as nat), upper, prefixed)),
{
    let ghost prefix = if prefixed {
        prefix_0x()
    } else {
        Seq::<u8>::empty()
    };
    match highest_set_bit_u128(value) {
        None => {
            proof {
                reveal_strlit("0x0");
                reveal_strlit("0");
                assert(nibbles_of_number(0) =~= seq![0u8]);
                assert(chars_of(hexified(seq![0u8], upper, true)) =~= "0x0"@);
                assert(chars_of(hexified(seq![0u8], upper, false)) =~= "0"@);
            }
            if prefixed {
                String::from_str("0x0")
            } else {
                String::from_str("0")
            }
        },
        Some(high_bit) => {
            let high_nibble = high_bit / 4;
            let nibble_count = high_nibble + 1;
            let prefix_len: usize = if prefixed {
                2
            } else {
                0
            };
            let mut hex = String::with_capacity(prefix_len + nibble_count as usize);
            if prefixed {
                proof {
                    reveal_strlit("0x");
                }
                hex.append("0x");
            }
            assert(hex@ =~= chars_of(prefix));
            proof {
                let top: u32 = (high_nibble * 4) as u32;
                assert(1 <= value >> top < 16) by (bit_vector)
                    requires
                        high_bit < 128,
                        value >> high_bit == 1,
                        top <= high_bit,
                        high_bit - top < 4,
                ;
            }
            let mut nibble = nibble_count;
            while nibble > 0
                invariant
                    nibble <= nibble_count == high_nibble + 1,
                    high_nibble < 32,
                    1 <= value >> ((high_nibble * 4) as u32) < 16,
                    nibble <= high_nibble ==> value >> ((nibble * 4) as u32) >= 1,
                    hex@ =~= if nibble == nibble_count {
                        chars_of(prefix)
                    } else {
                        chars_of(prefix) + chars_of(
                            digits_of(
                                nibbles_of_number((value >> ((nibble * 4) as u32)) as nat),
                                upper,
                            ),
                        )
                    },
                decreases nibble,
            {
                let ghost above = nibble;
                nibble = nibble - 1;
                let shift = nibble * 4;
                let rest = value >> shift;
                let digit = (rest & 0xF) as u8;
                assert(rest & 0xF == rest % 16 && rest >> 4u32 == rest / 16) by (bit_vector);
                proof {
                    if above <= high_nibble {
                        let before = value >> ((above * 4) as u32);
                        let next: u32 = (shift + 4) as u32;
                        assert(rest >> 4u32 == before) by (bit_vector)
                            requires
                                rest == value >> shift,
                                before == value >> next,
                                next == shift + 4,
                                shift <= 120,
                        ;
                        assert(nibbles_of_number(rest as nat) =~= nibbles_of_number(
                            before as nat,
                        ).push(digit));
                        assert(digits_of(nibbles_of_number(rest as nat), upper) =~= digits_of(
                            nibbles_of_number(before as nat),
                            upper,
                        ).push(digit_of(digit, upper)));
                    } else {
                        assert(nibbles_of_number(rest as nat) =~= seq![digit]);
                        assert(digits_of(nibbles_of_number(rest as nat), upper) =~= seq![
                            digit_of(digit, upper),
                        ]);
                    }
                }
                hex.push(digit2hex(digit, upper) as char);
            }
            assert(value >> 0u32 == value) by (bit_vector);
            hex
        },
    }
}

/// What a value is written as in hexadecimal text: its nibbles, as digits of
/// either case, with or without `0x` in front.
pub trait Hexify {
    /// The nibbles of the value, the most significant first.
    spec fn nibbles(&self) -> Seq<u8>;

    /// The text in lower case.
    fn hexify(&self) -> (text: String)
        ensures
            text@ == chars_of(hexified(self.nibbles(), false, false)),
    ;

    /// The text in upper case.
    fn hexify_upper(&self) -> (text: String)
        ensures
            text@ == chars_of(hexified(self.nibbles(), true, false)),
    ;

    /// The text in lower case behind `0x`.
    fn hexify_prefixed(&self) -> (text: String)
        ensures
            text@ == chars_of(hexified(self.nibbles(), false, true)),
    ;

    /// The text in upper case behind `0x`.
    fn hexify_prefixed_upper(&self) -> (text: String)
        ensures
            text@ == chars_of(hexified(self.nibbles(), true, true)),
    ;
}

impl Hexify for usize {
    open spec fn nibbles(&self) -> Seq<u8> {
        nibbles_of_number(*self as nat)
    }

    fn hexify(&self) -> (text: String) {
        hexify_unsigned(*self as u128, false, false)
    }

    fn hexify_upper(&self) -> (text: String) {
        hexify_unsigned(*self as u128, true, false)
    }

    fn hexify_prefixed(&self) -> (text: String) {
        hexify_unsigned(*self as u128, false, true)
    }

    fn hexify_prefixed_upper(&self) -> (text: String) {
        hexify_unsigned(*self as u128, true, true)
    }
}

impl Hexify for u8 {
    open spec fn nibbles(&self) -> Seq<u8> {
        nibbles_of_number(*self as nat)
    }

    fn hexify(&self) -> (text: String) {
        hexify_unsigned(*self as u128, false, false)
    }

    fn hexify_upper(&self) -> (text: String) {
        hexify_unsigned(*self as u128, true, false)
    }

    fn hexify_prefixed(&self) -> (text: String) {
        hexify_unsigned(*self as u128, false, true)
    }

    fn hexify_prefixed_upper(&self) -> (text: String) {
        hexify_unsigned(*self as u128, true, true)
    }
}

impl Hexify for u16 {
    open spec fn nibbles(&self) -> Seq<u8> {
        nibbles_of_number(*self as nat)
    }

    fn hexify(&self) -> (text: String) {
        hexify_unsigned(*self as u128, false, false)
    }

    fn hexify_upper(&self) -> (text: String) {
        hexify_unsigned(*self as u128, true, false)
    }

    fn hexify_prefixed(&self) -> (text: String) {
        hexify_unsigned(*self as u128, false, true)
    }

    fn hexify_prefixed_upper(&self) -> (text: String) {
        hexify_unsigned(*self as u128, true, true)
    }
}

impl Hexify for u32 {
    open spec fn nibbles(&self) -> Seq<u8> {
        nibbles_of_number(*self as nat)
    }

    fn hexify(&self) -> (text: String) {
        hexify_unsigned(*self as u128, false, false)
    }

    fn hexify_upper(&self) -> (text: String) {
        hexify_unsigned(*self as u128, true, false)
    }

    fn hexify_prefixed(&self) -> (text: String) {
        hexify_unsigned(*self as u128, false, true)
    }

    fn hexify_prefixed_upper(&self) -> (text: String) {
        hexify_unsigned(*self as u128, true, true)
    }
}

impl Hexify for u64 {
    open spec fn nibbles(&self) -> Seq<u8> {
        nibbles_of_number(*self as nat)
    }

    fn hexify(&self) -> (text: String) {
        hexify_unsigned(*self as u128, false, false)
    }

    fn hexify_upper(&self) -> (text: String) {
        hexify_unsigned(*self as u128, true, false)
    }

    fn hexify_prefixed(&self) -> (text: String) {
        hexify_unsigned(*self as u128, false, true)
    }

    fn hexify_prefixed_upper(&self) -> (text: String) {
        hexify_unsigned(*self as u128, true, true)
    }
}

impl Hexify for u128 {
    open spec fn nibbles(&self) -> Seq<u8> {
        nibbles_of_number(*self as nat)
    }

    fn hexify(&self) -> (text: String) {
        hexify_unsigned(*self as u128, false, false)
    }

    fn hexify_upper(&self) -> (text: String) {
        hexify_unsigned(*self as u128, true, false)
    }

    fn hexify_prefixed(&self) -> (text: String) {
        hexify_unsigned(*self as u128, false, true)
    }

    fn hexify_prefixed_upper(&self) -> (text: String) {
        hexify_unsigned(*self as u128, true, true)
    }
}

impl<const N: usize> Hexify for [u8; N] {
    open spec fn nibbles(&self) -> Seq<u8> {
        nibbles_of_bytes(self@)
    }

    fn hexify(&self) -> (text: String) {
        hexify_bytes(self.as_slice(), false, false)
    }

    fn hexify_upper(&self) -> (text: String) {
        hexify_bytes(self.as_slice(), true, false)
    }

    fn hexify_prefixed(&self) -> (text: String) {
        hexify_bytes(self.as_slice(), false, true)
    }

    fn hexify_prefixed_upper(&self) -> (text: String) {
        hexify_bytes(self.as_slice(), true, true)
    }
}

impl Hexify for [u8] {
    open spec fn nibbles(&self) -> Seq<u8> {
        nibbles_of_bytes(self@)
    }

    fn hexify(&self) -> (text: String) {
        hexify_bytes(self, false, false)
    }

    fn hexify_upper(&self) -> (text: String) {
        hexify_bytes(self, true, false)
    }

    fn hexify_prefixed(&self) -> (text: String) {
        hexify_bytes(self, false, true)
    }

    fn hexify_prefixed_upper(&self) -> (text: String) {
        hexify_bytes(self, true, true)
    }
}

impl Hexify for Vec<u8> {
    open spec fn nibbles(&self) -> Seq<u8> {
        nibbles_of_bytes(self@)
    }

    fn hexify(&self) -> (text: String) {
        hexify_bytes(self.as_slice(), false, false)
    }

    fn hexify_upper(&self) -> (text: String) {
        hexify_bytes(self.as_slice(), true, false)
    }

    fn hexify_prefixed(&self) -> (text: String) {
        hexify_bytes(self.as_slice(), false, true)
    }

    fn hexify_prefixed_upper(&self) -> (text: String) {
        hexify_bytes(self.as_slice(), true, true)
    }
}

/// The unsigned number with the bits of the signed `value`, where `min` and
/// `max` bound the type of `value`: a negative number stands `max - min + 1`
/// higher.
pub open spec fn unsigned_of(value: int, min: int, max: int) -> nat {
    if value < 0 {
        (value + (max - min + 1)) as nat
    } else {
        value as nat
    }
}

/// The bits of `value` as an unsigned number.
fn bits_of_isize(value: isize) -> (bits: u128)
    ensures
        bits == unsigned_of(value as int, isize::MIN as int, isize::MAX as int),
{
    if value >= 0 {
        value as u128
    } else {
        let above_min = (value - isize::MIN) as usize;
        let half = usize::MAX / 2 + 1;
        (above_min as u128) + (half as u128)
    }
}

impl Hexify for isize {
    open spec fn nibbles(&self) -> Seq<u8> {
        nibbles_of_number(unsigned_of(*self as int, isize::MIN as int, isize::MAX as int))
    }

    fn hexify(&self) -> (text: String) {
        hexify_unsigned(bits_of_isize(*self), false, false)
    }

    fn hexify_upper(&self) -> (text: String) {
        hexify_unsigned(bits_of_isize(*self), true, false)
    }

    fn hexify_prefixed(&self) -> (text: String) {
        hexify_unsigned(bits_of_isize(*self), false, true)
    }

    fn hexify_prefixed_upper(&self) -> (text: String) {
        hexify_unsigned(bits_of_isize(*self), true, true)
    }
}

/// The bits of `value` as an unsigned number.
fn bits_of_i8(value: i8) -> (bits: u128)
    ensures
        bits == unsigned_of(value as int, i8::MIN as int, i8::MAX as int),
{
    if value >= 0 {
        value as u128
    } else {
        let above_min = (value - i8::MIN) as u8;
        let half = u8::MAX / 2 + 1;
        (above_min as u128) + (half as u128)
    }
}

impl Hexify for i8 {
    open spec fn nibbles(&self) -> Seq<u8> {
        nibbles_of_number(unsigned_of(*self as int, i8::MIN as int, i8::MAX as int))
    }

    fn hexify(&self) -> (text: String) {
        hexify_unsigned(bits_of_i8(*self), false, false)
    }

    fn hexify_upper(&self) -> (text: String) {
        hexify_unsigned(bits_of_i8(*self), true, false)
    }

    fn hexify_prefixed(&self) -> (text: String) {
        hexify_unsigned(bits_of_i8(*self), false, true)
    }

    fn hexify_prefixed_upper(&self) -> (text: String) {
        hexify_unsigned(bits_of_i8(*self), true, true)
    }
}

/// The bits of `value` as an unsigned number.
fn bits_of_i16(value: i16) -> (bits: u128)
    ensures
        bits == unsigned_of(value as int, i16::MIN as int, i16::MAX as int),
{
    if value >= 0 {
        value as u128
    } else {
        let above_min = (value - i16::MIN) as u16;
        let half = u16::MAX / 2 + 1;
        (above_min as u128) + (half as u128)
    }
}

impl Hexify for i16 {
    open spec fn nibbles(&self) -> Seq<u8> {
        nibbles_of_number(unsigned_of(*self as int, i16::MIN as int, i16::MAX as int))
    }

    fn hexify(&self) -> (text: String) {
        hexify_unsigned(bits_of_i16(*self), false, false)
    }

    fn hexify_upper(&self) -> (text: String) {
        hexify_unsigned(bits_of_i16(*self), true, false)
    }

    fn hexify_prefixed(&self) -> (text: String) {
        hexify_unsigned(bits_of_i16(*self), false, true)
    }

    fn hexify_prefixed_upper(&self) -> (text: String) {
        hexify_unsigned(bits_of_i16(*self), true, true)
    }
}

/// The bits of `value` as an unsigned number.
fn bits_of_i32(value: i32) -> (bits: u128)
    ensures
        bits == unsigned_of(value as int, i32::MIN as int, i32::MAX as int),
{
    if value >= 0 {
        value as u128
    } else {
        let above_min = (value - i32::MIN) as u32;
        let half = u32::MAX / 2 + 1;
        (above_min as u128) + (half as u128)
    }
}

impl Hexify for i32 {
    open spec fn nibbles(&self) -> Seq<u8> {
        nibbles_of_number(unsigned_of(*self as int, i32::MIN as int, i32::MAX as int))
    }

    fn hexify(&self) -> (text: String) {
        hexify_unsigned(bits_of_i32(*self), false, false)
    }

    fn hexify_upper(&self) -> (text: String) {
        hexify_unsigned(bits_of_i32(*self), true, false)
    }

    fn hexify_prefixed(&self) -> (text: String) {
        hexify_unsigned(bits_of_i32(*self), false, true)
    }

    fn hexify_prefixed_upper(&self) -> (text: String) {
        hexify_unsigned(bits_of_i32(*self), true, true)
    }
}

/// The bits of `value` as an unsigned number.
fn bits_of_i64(value: i64) -> (bits: u128)
    ensures
        bits == unsigned_of(value as int, i64::MIN as int, i64::MAX as int),
{
    if value >= 0 {
        value as u128
    } else {
        let above_min = (value - i64::MIN) as u64;
        let half = u64::MAX / 2 + 1;
        (above_min as u128) + (half as u128)
    }
}

impl Hexify for i64 {
    open spec fn nibbles(&self) -> Seq<u8> {
        nibbles_of_number(unsigned_of(*self as int, i64::MIN as int, i64::MAX as int))
    }

    fn hexify(&self) -> (text: String) {
        hexify_unsigned(bits_of_i64(*self), false, false)
    }

    fn hexify_upper(&self) -> (text: String) {
        hexify_unsigned(bits_of_i64(*self), true, false)
    }

    fn hexify_prefixed(&self) -> (text: String) {
        hexify_unsigned(bits_of_i64(*self), false, true)
    }

    fn hexify_prefixed_upper(&self) -> (text: String) {
        hexify_unsigned(bits_of_i64(*self), true, true)
    }
}

/// The bits of `value` as an unsigned number.
fn bits_of_i128(value: i128) -> (bits: u128)
    ensures
        bits == unsigned_of(value as int, i128::MIN as int, i128::MAX as int),
{
    if value >= 0 {
        value as u128
    } else {
        let above_min = (value - i128::MIN) as u128;
        let half = u128::MAX / 2 + 1;
        (above_min as u128) + (half as u128)
    }
}

impl Hexify for i128 {
    open spec fn nibbles(&self) -> Seq<u8> {
        nibbles_of_number(unsigned_of(*self as int, i128::MIN as int, i128::MAX as int))
    }

    fn hexify(&self) -> (text: String) {
        hexify_unsigned(bits_of_i128(*self), false, false)
    }

    fn hexify_upper(&self) -> (text: String) {
        hexify_unsigned(bits_of_i128(*self), true, false)
    }

    fn hexify_prefixed(&self) -> (text: String) {
        hexify_unsigned(bits_of_i128(*self), false, true)
    }

    fn hexify_prefixed_upper(&self) -> (text: String) {
        hexify_unsigned(bits_of_i128(*self), true, true)
    }
}

} // verus!

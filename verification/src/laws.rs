//! What holds of encoding and decoding together.

use crate::digit::{digit_of, is_hex_digit, lemma_digit_round_trip, nibble_of};
use crate::hex::{
    all_digits, highest_bit, bytes_of, decoded, digits_of, hexified, nibbles_of_bytes, nibbles_of_number,
    prefix_0x, stripped, well_formed,
};
use crate::number::{has_sign, is_number, magnitude_of, number_of};
use crate::text::{chars_of, is_ascii_text, lemma_ascii_is_utf8};
use crate::Error;
use vstd::arithmetic::power2::{
    lemma2_to64, lemma_pow2_adds, lemma_pow2_strictly_increases, lemma_pow2_unfold, pow2,
};
use vstd::prelude::*;
use vstd::utf8::encode_utf8;

verus! {

/// The text of `bytes` has two digits for each byte, and two more bytes where
/// it is prefixed.
pub proof fn lemma_hexified_len(bytes: Seq<u8>, upper: bool, prefixed: bool)
    ensures
        hexified(nibbles_of_bytes(bytes), upper, prefixed).len() == (if prefixed {
            2nat
        } else {
            0nat
        }) + 2 * bytes.len(),
{
}

/// The text of `bytes` is ASCII, so as a string it is made of the very bytes
/// of the text.
pub proof fn lemma_hexified_is_ascii(bytes: Seq<u8>, upper: bool, prefixed: bool)
    ensures
        is_ascii_text(hexified(nibbles_of_bytes(bytes), upper, prefixed)),
        encode_utf8(chars_of(hexified(nibbles_of_bytes(bytes), upper, prefixed))) == hexified(
            nibbles_of_bytes(bytes),
            upper,
            prefixed,
        ),
{
    let text = hexified(nibbles_of_bytes(bytes), upper, prefixed);
    assert forall|i: int| 0 <= i < text.len() implies #[trigger] text[i] < 0x80 by {
        if prefixed && i >= 2 {
            assert(text[i] == digits_of(nibbles_of_bytes(bytes), upper)[i - 2]);
        }
    }
    lemma_ascii_is_utf8(text);
}

/// Whether every item of `nibbles` is a nibble: a number below 16.
pub open spec fn all_nibbles(nibbles: Seq<u8>) -> bool {
    forall|i: int| 0 <= i < nibbles.len() ==> #[trigger] nibbles[i] < 16
}

/// The digits of nibbles are hexadecimal digits, and each spells the nibble
/// it was made from.
pub proof fn lemma_digits_spell_nibbles(nibbles: Seq<u8>, upper: bool)
    requires
        all_nibbles(nibbles),
    ensures
        all_digits(digits_of(nibbles, upper)),
        forall|i: int|
            0 <= i < nibbles.len() ==> nibble_of(#[trigger] digits_of(nibbles, upper)[i]) == Some(
                nibbles[i],
            ),
{
    let digits = digits_of(nibbles, upper);
    assert forall|i: int| 0 <= i < digits.len() implies is_hex_digit(#[trigger] digits[i])
        && nibble_of(digits[i]) == Some(nibbles[i]) by {
        assert(nibbles[i] < 16);
        lemma_digit_round_trip(nibbles[i], upper);
    }
}

/// Taking the prefix off the text of nibbles leaves their digits, whether the
/// text was prefixed or not: digits alone never look like a prefix.
pub proof fn lemma_stripped_hexified(nibbles: Seq<u8>, upper: bool, prefixed: bool)
    requires
        all_nibbles(nibbles),
    ensures
        stripped(hexified(nibbles, upper, prefixed)) == digits_of(nibbles, upper),
{
    let digits = digits_of(nibbles, upper);
    if prefixed {
        assert((prefix_0x() + digits).subrange(2, (prefix_0x() + digits).len() as int) =~= digits);
    } else if digits.len() >= 2 {
        assert(nibbles[1] < 16);
        assert(digits[1] == digit_of(nibbles[1], upper));
        assert(digits[1] != 0x78);
    }
}

/// Decoding the text of `bytes` gives `bytes` back, for every case and with
/// or without the prefix.
pub proof fn lemma_round_trip(bytes: Seq<u8>, upper: bool, prefixed: bool)
    ensures
        decoded(
            stripped(hexified(nibbles_of_bytes(bytes), upper, prefixed)),
            Ok::<Seq<u8>, Error>(bytes),
        ),
{
    let nibbles = nibbles_of_bytes(bytes);
    let digits = digits_of(nibbles, upper);
    lemma_stripped_hexified(nibbles, upper, prefixed);
    lemma_digits_spell_nibbles(nibbles, upper);
    assert(bytes_of(digits) =~= bytes) by {
        assert forall|k: int| 0 <= k < bytes.len() implies bytes_of(digits)[k] == bytes[k] by {
            assert(nibble_of(digits[2 * k]) == Some(nibbles[2 * k]));
            assert(nibble_of(digits[2 * k + 1]) == Some(nibbles[2 * k + 1]));
            assert(nibbles[2 * k] == bytes[k] / 16);
            assert(nibbles[2 * k + 1] == bytes[k] % 16);
        }
    }
}

/// The digits of a number spell that number.
pub proof fn lemma_magnitude_of_digits(value: nat, upper: bool)
    ensures
        all_nibbles(nibbles_of_number(value)),
        magnitude_of(digits_of(nibbles_of_number(value), upper)) == value,
    decreases value,
{
    let nibbles = nibbles_of_number(value);
    let digits = digits_of(nibbles, upper);
    let last = (value % 16) as u8;
    lemma_digit_round_trip(last, upper);
    if value < 16 {
        assert(digits.drop_last() =~= Seq::<u8>::empty());
        assert(magnitude_of(digits.drop_last()) == 0);
    } else {
        lemma_magnitude_of_digits(value / 16, upper);
        let head = nibbles_of_number(value / 16);
        assert(nibbles =~= head.push(last));
        assert(digits.drop_last() =~= digits_of(head, upper));
        assert(digits.last() == digit_of(last, upper));
    }
}

/// Reading the text of a number gives the number back, for every case and
/// with or without the prefix, whether or not the target is signed.
pub proof fn lemma_number_round_trip(value: nat, upper: bool, prefixed: bool, signed: bool)
    ensures
        is_number(stripped(hexified(nibbles_of_number(value), upper, prefixed)), signed),
        number_of(stripped(hexified(nibbles_of_number(value), upper, prefixed)), signed) == value,
{
    let nibbles = nibbles_of_number(value);
    let digits = digits_of(nibbles, upper);
    lemma_magnitude_of_digits(value, upper);
    lemma_number_text_is_minimal(value);
    lemma_stripped_hexified(nibbles, upper, prefixed);
    lemma_digits_spell_nibbles(nibbles, upper);
    assert(is_hex_digit(digits[0]));
    assert(!has_sign(digits, signed));
}

/// On well-formed text the checked decoding succeeds, with the bytes that the
/// unchecked decoding gives.
pub proof fn lemma_unchecked_matches_checked(text: Seq<u8>, outcome: Result<Seq<u8>, Error>)
    requires
        well_formed(text),
        decoded(text, outcome),
    ensures
        outcome == Ok::<Seq<u8>, Error>(bytes_of(text)),
{
    match outcome {
        Ok(_) => {},
        Err(Error::InvalidCharacter { character, index }) => {
            assert(is_hex_digit(text[index as int]));
        },
        Err(_) => {},
    }
}

/// What decoding comes to is settled by the text: no text has two outcomes.
pub proof fn lemma_decoded_is_unique(
    text: Seq<u8>,
    first: Result<Seq<u8>, Error>,
    second: Result<Seq<u8>, Error>,
)
    requires
        decoded(text, first),
        decoded(text, second),
    ensures
        first == second,
{
    match (first, second) {
        (
            Err(Error::InvalidCharacter { character: c1, index: i1 }),
            Err(Error::InvalidCharacter { character: c2, index: i2 }),
        ) => {
            if i1 < i2 {
                assert(is_hex_digit(text[i1 as int]));
            }
            if i2 < i1 {
                assert(is_hex_digit(text[i2 as int]));
            }
        },
        (Err(Error::InvalidCharacter { character, index }), Ok(_)) => {
            assert(is_hex_digit(text[index as int]));
        },
        (Ok(_), Err(Error::InvalidCharacter { character, index })) => {
            assert(is_hex_digit(text[index as int]));
        },
        _ => {},
    }
}

/// A number is never written as the empty text, and only zero starts with
/// the digit 0.
pub proof fn lemma_number_text_is_minimal(value: nat)
    ensures
        nibbles_of_number(value).len() >= 1,
        forall|i: int| 0 <= i < nibbles_of_number(value).len() ==> nibbles_of_number(value)[i] < 16,
        value == 0 ==> nibbles_of_number(value) == seq![0u8],
        value != 0 ==> nibbles_of_number(value)[0] != 0,
    decreases value,
{
    if value >= 16 {
        lemma_number_text_is_minimal(value / 16);
        let head = nibbles_of_number(value / 16);
        assert(nibbles_of_number(value)[0] == head[0]);
        assert(nibbles_of_number(value).len() == head.len() + 1);
    }
}

/// The highest set bit of a number is the power of two that the number has
/// reached without reaching the next one; only zero has none.
pub proof fn lemma_highest_bit_bounds(value: nat)
    requires
        value <= u128::MAX,
    ensures
        value == 0 <==> highest_bit(value) is None,
        highest_bit(value) matches Some(bit) ==> bit < 128 && pow2(bit as nat) <= value < pow2(
            bit as nat + 1,
        ),
    decreases value,
{
    lemma2_to64();
    lemma_pow2_adds(64, 64);
    if value >= 2 {
        lemma_highest_bit_bounds(value / 2);
        let below = highest_bit(value / 2).unwrap();
        lemma_pow2_unfold(below as nat + 1);
        lemma_pow2_unfold(below as nat + 2);
        if below + 1 >= 128 {
            if below + 1 > 128 {
                lemma_pow2_strictly_increases(128, below as nat + 1);
            }
        }
    }
}

} // verus!

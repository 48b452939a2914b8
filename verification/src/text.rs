//! ASCII text as `str` and `String`.
//!
//! The functions of std that turn bytes into text are given their contracts
//! here, over vstd's description of UTF-8. As vstd does for `Vec::push`, the
//! contract of `String::push` leaves aside a string that outgrows what the
//! machine can allocate.

use vstd::prelude::*;
use vstd::string::StringSliceAdditionalSpecFns;
use vstd::utf8::{
    decode_utf8, encode_utf8, encode_utf8_decode_utf8, encode_utf8_valid_utf8, is_ascii_chars,
    is_ascii_chars_encode_utf8, valid_utf8,
};

verus! {

/// std's `FromUtf8Error`, carried as it comes.
#[verifier::external_type_specification]
#[verifier::external_body]
pub struct ExFromUtf8Error(std::string::FromUtf8Error);

/// std's `str::from_utf8`: it succeeds exactly on valid UTF-8, and the text
/// is then made of the very bytes it was given.
pub assume_specification[ core::str::from_utf8 ](v: &[u8]) -> (r: Result<
    &str,
    core::str::Utf8Error,
>)
    ensures
        r is Ok <==> valid_utf8(v@),
        r matches Ok(text) ==> text.spec_bytes() == v@,
;

/// std's `String::from_utf8`: it succeeds exactly on valid UTF-8, and the
/// string then holds the characters that the bytes encode.
pub assume_specification[ String::from_utf8 ](vec: Vec<u8>) -> (r: Result<
    String,
    std::string::FromUtf8Error,
>)
    ensures
        r is Ok <==> valid_utf8(vec@),
        r matches Ok(text) ==> text@ == decode_utf8(vec@),
;

/// std's `String::with_capacity`: an empty string. It panics where the
/// capacity exceeds `isize::MAX` bytes.
pub assume_specification[ String::with_capacity ](capacity: usize) -> (text: String)
    requires
        capacity <= isize::MAX,
    ensures
        text@ == Seq::<char>::empty(),
;

/// std's `String::push`: appends `ch` to the end of the string.
pub assume_specification[ String::push ](text: &mut String, ch: char)
    ensures
        final(text)@ == old(text)@.push(ch),
;

/// Whether every byte of `text` is an ASCII character.
pub open spec fn is_ascii_text(text: Seq<u8>) -> bool {
    forall|i: int| 0 <= i < text.len() ==> #[trigger] text[i] < 0x80
}

/// The characters of the ASCII text `text`, byte by byte.
pub open spec fn chars_of(text: Seq<u8>) -> Seq<char> {
    Seq::new(text.len(), |i: int| text[i] as char)
}

/// ASCII text is valid UTF-8, and each of its bytes encodes one character.
pub proof fn lemma_ascii_is_utf8(text: Seq<u8>)
    requires
        is_ascii_text(text),
    ensures
        valid_utf8(text),
        decode_utf8(text) == chars_of(text),
        encode_utf8(chars_of(text)) == text,
{
    let chars = chars_of(text);
    assert(is_ascii_chars(chars)) by {
        assert forall|i: int| 0 <= i < chars.len() implies '\0' <= #[trigger] chars[i]
            <= '\u{7f}' by {
            assert(text[i] < 0x80);
        }
    }
    is_ascii_chars_encode_utf8(chars);
    assert(encode_utf8(chars) =~= text) by {
        assert forall|i: int| 0 <= i < text.len() implies encode_utf8(chars)[i] == text[i] by {
            assert(text[i] < 0x80);
            assert(chars[i] as u8 == text[i]);
        }
    }
    encode_utf8_decode_utf8(chars);
    encode_utf8_valid_utf8(chars);
}

/// The string that the ASCII bytes `bytes` spell.
pub(crate) fn string_from_ascii(bytes: Vec<u8>) -> (text: String)
    requires
        is_ascii_text(bytes@),
    ensures
        text@ == chars_of(bytes@),
{
    proof {
        lemma_ascii_is_utf8(bytes@);
    }
    String::from_utf8(bytes).expect("ASCII is UTF-8")
}

} // verus!

//! The digit tables: from a nibble to its ASCII digit, and from an ASCII byte
//! back to the nibble it spells.

use vstd::prelude::*;

verus! {

/// The entry of [`HEX2DIGIT`] for a byte that is no hexadecimal digit.
pub const NOT_A_DIGIT: u8 = 0xff;

/// The ASCII digit of each nibble, `a` to `f` in lower case.
pub const HEX_CHARS: [u8; 16] = [
    0x30, 0x31, 0x32, 0x33, 0x34, 0x35, 0x36, 0x37, 0x38, 0x39, 0x61, 0x62, 0x63, 0x64, 0x65, 0x66,
];

/// The ASCII digit of each nibble, `A` to `F` in upper case.
pub const HEX_CHARS_UPPER: [u8; 16] = [
    0x30, 0x31, 0x32, 0x33, 0x34, 0x35, 0x36, 0x37, 0x38, 0x39, 0x41, 0x42, 0x43, 0x44, 0x45, 0x46,
];

/// For every byte value, the nibble that it spells as an ASCII hexadecimal
/// digit, or [`NOT_A_DIGIT`].
pub const HEX2DIGIT: [u8; 256] = [
    0xff, 0xff, 0xff, 0xff, 0xff, 0xff, 0xff, 0xff, 0xff, 0xff, 0xff, 0xff, 0xff, 0xff, 0xff, 0xff,
    0xff, 0xff, 0xff, 0xff, 0xff, 0xff, 0xff, 0xff, 0xff, 0xff, 0xff, 0xff, 0xff, 0xff, 0xff, 0xff,
    0xff, 0xff, 0xff, 0xff, 0xff, 0xff, 0xff, 0xff, 0xff, 0xff, 0xff, 0xff, 0xff, 0xff, 0xff, 0xff,
    0x00, 0x01, 0x02, 0x03, 0x04, 0x05, 0x06, 0x07, 0x08, 0x09, 0xff, 0xff, 0xff, 0xff, 0xff, 0xff,
    0xff, 0x0a, 0x0b, 0x0c, 0x0d, 0x0e, 0x0f, 0xff, 0xff, 0xff, 0xff, 0xff, 0xff, 0xff, 0xff, 0xff,
    0xff, 0xff, 0xff, 0xff, 0xff, 0xff, 0xff, 0xff, 0xff, 0xff, 0xff, 0xff, 0xff, 0xff, 0xff, 0xff,
    0xff, 0x0a, 0x0b, 0x0c, 0x0d, 0x0e, 0x0f, 0xff, 0xff, 0xff, 0xff, 0xff, 0xff, 0xff, 0xff, 0xff,
    0xff, 0xff, 0xff, 0xff, 0xff, 0xff, 0xff, 0xff, 0xff, 0xff, 0xff, 0xff, 0xff, 0xff, 0xff, 0xff,
    0xff, 0xff, 0xff, 0xff, 0xff, 0xff, 0xff, 0xff, 0xff, 0xff, 0xff, 0xff, 0xff, 0xff, 0xff, 0xff,
    0xff, 0xff, 0xff, 0xff, 0xff, 0xff, 0xff, 0xff, 0xff, 0xff, 0xff, 0xff, 0xff, 0xff, 0xff, 0xff,
    0xff, 0xff, 0xff, 0xff, 0xff, 0xff, 0xff, 0xff, 0xff, 0xff, 0xff, 0xff, 0xff, 0xff, 0xff, 0xff,
    0xff, 0xff, 0xff, 0xff, 0xff, 0xff, 0xff, 0xff, 0xff, 0xff, 0xff, 0xff, 0xff, 0xff, 0xff, 0xff,
    0xff, 0xff, 0xff, 0xff, 0xff, 0xff, 0xff, 0xff, 0xff, 0xff, 0xff, 0xff, 0xff, 0xff, 0xff, 0xff,
    0xff, 0xff, 0xff, 0xff, 0xff, 0xff, 0xff, 0xff, 0xff, 0xff, 0xff, 0xff, 0xff, 0xff, 0xff, 0xff,
    0xff, 0xff, 0xff, 0xff, 0xff, 0xff, 0xff, 0xff, 0xff, 0xff, 0xff, 0xff, 0xff, 0xff, 0xff, 0xff,
    0xff, 0xff, 0xff, 0xff, 0xff, 0xff, 0xff, 0xff, 0xff, 0xff, 0xff, 0xff, 0xff, 0xff, 0xff, 0xff,
];

/// The nibble that the ASCII byte `c` spells: `0`-`9` are 0 to 9, `a`-`f` and
/// `A`-`F` are 10 to 15, and no other byte is a digit.
pub open spec fn nibble_of(c: u8) -> Option<u8> {
    if 0x30 <= c <= 0x39 {
        Some((c - 0x30) as u8)
    } else if 0x61 <= c <= 0x66 {
        Some((c - 0x61 + 10) as u8)
    } else if 0x41 <= c <= 0x46 {
        Some((c - 0x41 + 10) as u8)
    } else {
        None
    }
}

/// Whether the ASCII byte `c` is a hexadecimal digit, in either case.
pub open spec fn is_hex_digit(c: u8) -> bool {
    nibble_of(c) is Some
}

/// The ASCII digit of the nibble `n`, in upper case if `upper`.
pub open spec fn digit_of(n: u8, upper: bool) -> u8 {
    if n < 10 {
        (0x30 + n) as u8
    } else if upper {
        (0x41 + (n - 10)) as u8
    } else {
        (0x61 + (n - 10)) as u8
    }
}

/// [`HEX2DIGIT`] holds, for every byte, the nibble that the byte spells, and
/// [`NOT_A_DIGIT`] for a byte that is no digit.
pub proof fn lemma_hex2digit_table(c: u8)
    ensures
        HEX2DIGIT@[c as int] == match nibble_of(c) {
            Some(nibble) => nibble,
            None => NOT_A_DIGIT,
        },
{
}

/// Looks the ASCII byte `c` up in [`HEX2DIGIT`].
pub fn hex2digit(c: u8) -> (nibble: Option<u8>)
    ensures
        nibble == nibble_of(c),
        nibble matches Some(n) ==> n < 16,
{
    proof {
        lemma_hex2digit_table(c);
    }
    let entry = HEX2DIGIT[c as usize];
    if entry == NOT_A_DIGIT {
        None
    } else {
        Some(entry)
    }
}

/// Looks the nibble `n` up in [`HEX_CHARS`], or in [`HEX_CHARS_UPPER`] if
/// `upper`.
pub fn digit2hex(n: u8, upper: bool) -> (c: u8)
    requires
        n < 16,
    ensures
        c == digit_of(n, upper),
        c < 0x80,
{
    if upper {
        HEX_CHARS_UPPER[n as usize]
    } else {
        HEX_CHARS[n as usize]
    }
}

/// Builds the table from ASCII bytes to nibbles: one entry for every byte
/// value, which holds the nibble that the byte spells, or `None` where the
/// byte is no hexadecimal digit.
pub fn build_ascii_to_nibble_table() -> (table: [Option<u8>; 256])
    ensures
        forall|c: u8| #[trigger] table@[c as int] == nibble_of(c),
{
    let mut table: [Option<u8>; 256] = [None;256];
    let mut i: usize = 0;
    while i <= 9
        invariant
            i <= 10,
            forall|c: u8|
                #[trigger] table@[c as int] == if 0x30 <= c < 0x30 + i {
                    nibble_of(c)
                } else {
                    None
                },
        decreases 10 - i,
    {
        table[0x30 + i] = Some(i as u8);
        i += 1;
    }
    i = 0;
    while i <= 5
        invariant
            i <= 6,
            forall|c: u8|
                #[trigger] table@[c as int] == if 0x30 <= c <= 0x39 || 0x61 <= c < 0x61 + i || 0x41
                    <= c < 0x41 + i {
                    nibble_of(c)
                } else {
                    None
                },
        decreases 6 - i,
    {
        table[0x61 + i] = Some((10 + i) as u8);
        table[0x41 + i] = Some((10 + i) as u8);
        i += 1;
    }
    table
}

/// A digit spells the nibble it was made from, whatever its case.
pub proof fn lemma_digit_round_trip(n: u8, upper: bool)
    requires
        n < 16,
    ensures
        nibble_of(digit_of(n, upper)) == Some(n),
{
}

} // verus!

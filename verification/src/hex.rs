//! Hexadecimal text: what it spells, and the conversions to and from it.

mod dehexify;
mod hexify;

pub use dehexify::{
    all_digits, byte_of, bytes_of, decoded, decoded_exactly, first_non_digit_at, stripped,
    well_formed,
};
pub use dehexify::{
    dehexify_array, dehexify_array_then_into, dehexify_ascii, dehexify_ascii_unchecked,
    dehexify_bytes, dehexify_slice_mut, dehexify_vec_then_into, hex2array_unchecked,
    hex2bytes_unchecked, hex2slice_unchecked, strip_0x, Dehexify,
};

pub use hexify::{
    digits_of, hexified, highest_bit, nibbles_of_bytes, nibbles_of_number, prefix_0x,
};
pub use hexify::{
    bytes2hex, hexify_bytes, hexify_hex_bytes, hexify_unsigned, HighestSetBit, Hexify,
};

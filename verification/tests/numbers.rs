use array_bytes::{hexify_unsigned, Dehexify, Error, Hexify, HighestSetBit};

#[test]
fn zero_is_a_single_digit() {
    assert_eq!(0_u8.hexify(), "0");
    assert_eq!(0_u16.hexify_upper(), "0");
    assert_eq!(0_u32.hexify_prefixed(), "0x0");
    assert_eq!(0_u64.hexify_prefixed_upper(), "0x0");
    assert_eq!(0_u128.hexify(), "0");
    assert_eq!(0_usize.hexify_prefixed(), "0x0");
    assert_eq!(0_i8.hexify(), "0");
    assert_eq!(0_i128.hexify_prefixed(), "0x0");
    assert_eq!(hexify_unsigned(0, false, false), "0");
    assert_eq!(hexify_unsigned(0, true, true), "0x0");
}

#[test]
fn a_number_has_no_leading_zero() {
    assert_eq!(1_u8.hexify(), "1");
    assert_eq!(15_u8.hexify(), "f");
    assert_eq!(16_u8.hexify(), "10");
    assert_eq!(255_u8.hexify_upper(), "FF");
    assert_eq!(256_u16.hexify(), "100");
    assert_eq!(0xabc_u16.hexify_prefixed_upper(), "0xABC");
    assert_eq!(u16::MAX.hexify(), "ffff");
    assert_eq!(0x1_0000_u32.hexify(), "10000");
    assert_eq!(u32::MAX.hexify_prefixed(), "0xffffffff");
    assert_eq!(0x0123_4567_89ab_cdef_u64.hexify(), "123456789abcdef");
    assert_eq!(u64::MAX.hexify_upper(), "FFFFFFFFFFFFFFFF");
    assert_eq!((u64::MAX as u128 + 1).hexify(), "10000000000000000");
    assert_eq!(u128::MAX.hexify(), "f".repeat(32));
    assert_eq!((1_u128 << 127).hexify_prefixed(), format!("0x8{}", "0".repeat(31)));
    assert_eq!(usize::MAX.hexify(), "f".repeat(usize::BITS as usize / 4));
    assert_eq!(hexify_unsigned(0x4f5da2, true, true), "0x4F5DA2");
}

#[test]
fn a_negative_number_is_written_with_its_bits() {
    assert_eq!((-1_i8).hexify(), "ff");
    assert_eq!(i8::MIN.hexify(), "80");
    assert_eq!(i8::MAX.hexify(), "7f");
    assert_eq!((-2_i16).hexify_upper(), "FFFE");
    assert_eq!((-1_i32).hexify_prefixed(), "0xffffffff");
    assert_eq!(i64::MIN.hexify(), "8000000000000000");
    assert_eq!((-1_i128).hexify(), "f".repeat(32));
    assert_eq!(i128::MIN.hexify(), format!("8{}", "0".repeat(31)));
    assert_eq!((-1_isize).hexify(), "f".repeat(isize::BITS as usize / 4));
    assert_eq!(5_201_314_i64.hexify_prefixed_upper(), "0x4F5DA2");
}

#[test]
fn the_highest_set_bit_is_found_in_every_width() {
    assert_eq!(u8::MAX.highest_set_bit(), Some(7));
    assert_eq!(0x80_u8.highest_set_bit(), Some(7));
    assert_eq!(0x7f_u8.highest_set_bit(), Some(6));
    assert_eq!(u16::MAX.highest_set_bit(), Some(15));
    assert_eq!(3_u32.highest_set_bit(), Some(1));
    assert_eq!(u32::MAX.highest_set_bit(), Some(31));
    assert_eq!(0_u64.highest_set_bit(), None);
    assert_eq!(u64::MAX.highest_set_bit(), Some(63));
    assert_eq!(0_u128.highest_set_bit(), None);
    assert_eq!(1_u128.highest_set_bit(), Some(0));
    assert_eq!((u64::MAX as u128).highest_set_bit(), Some(63));
    assert_eq!((1_u128 << 64).highest_set_bit(), Some(64));
    assert_eq!(((1_u128 << 64) + 1).highest_set_bit(), Some(64));
    assert_eq!(u128::MAX.highest_set_bit(), Some(127));
    assert_eq!(0_usize.highest_set_bit(), None);
    assert_eq!(usize::MAX.highest_set_bit(), Some(usize::BITS - 1));
}

#[test]
fn a_number_is_read_in_base_16() {
    assert_eq!(u8::dehexify(b"0"), Ok(0));
    assert_eq!(u8::dehexify(b"0x0"), Ok(0));
    assert_eq!(u8::dehexify(b"ff"), Ok(255));
    assert_eq!(u8::dehexify(b"0xFF"), Ok(255));
    assert_eq!(u8::dehexify(b"0x000000005"), Ok(5));
    assert_eq!(u8::dehexify(b"+5"), Ok(5));
    assert_eq!(u8::dehexify(b"0x+5"), Ok(5));
    assert_eq!(u16::dehexify(b"ffff"), Ok(u16::MAX));
    assert_eq!(u32::dehexify(b"0xffffffff"), Ok(u32::MAX));
    assert_eq!(u64::dehexify(b"123456789abcdef"), Ok(0x0123_4567_89ab_cdef));
    assert_eq!(u128::dehexify("f".repeat(32).as_bytes()), Ok(u128::MAX));
    assert_eq!(usize::dehexify(b"0x10"), Ok(16));
    assert_eq!(i8::dehexify(b"7f"), Ok(127));
    assert_eq!(i8::dehexify(b"+7f"), Ok(127));
    assert_eq!(i8::dehexify(b"-80"), Ok(-128));
    assert_eq!(i8::dehexify(b"0x-1"), Ok(-1));
    assert_eq!(i8::dehexify(b"-0"), Ok(0));
    assert_eq!(i16::dehexify(b"-8000"), Ok(i16::MIN));
    assert_eq!(i32::dehexify(b"7fffffff"), Ok(i32::MAX));
    assert_eq!(i64::dehexify(b"-4f5da2"), Ok(-5_201_314));
    assert_eq!(i128::dehexify(b"0x4F5da2"), Ok(5_201_314));
    assert_eq!(isize::dehexify(b"-a"), Ok(-10));
}

#[test]
fn what_was_written_is_read_back() {
    for value in [0_u64, 1, 15, 16, 255, 256, 5_201_314, u64::MAX] {
        assert_eq!(u64::dehexify(value.hexify().as_bytes()), Ok(value));
        assert_eq!(u64::dehexify(value.hexify_upper().as_bytes()), Ok(value));
        assert_eq!(u64::dehexify(value.hexify_prefixed().as_bytes()), Ok(value));
        assert_eq!(u64::dehexify(value.hexify_prefixed_upper().as_bytes()), Ok(value));
        assert_eq!(u128::dehexify(value.hexify().as_bytes()), Ok(value as u128));
    }
}

#[test]
fn text_that_is_no_number_is_refused() {
    assert!(matches!(u8::dehexify(b""), Err(Error::ParseIntError(_))));
    assert!(matches!(u8::dehexify(b"0x"), Err(Error::ParseIntError(_))));
    assert!(matches!(u8::dehexify(b"+"), Err(Error::ParseIntError(_))));
    assert!(matches!(u8::dehexify(b"-"), Err(Error::ParseIntError(_))));
    assert!(matches!(u8::dehexify(b"-5"), Err(Error::ParseIntError(_))));
    assert!(matches!(u8::dehexify(b"++5"), Err(Error::ParseIntError(_))));
    assert!(matches!(u8::dehexify(b"g"), Err(Error::ParseIntError(_))));
    assert!(matches!(u8::dehexify(b"5 "), Err(Error::ParseIntError(_))));
    assert!(matches!(u8::dehexify(b" 5"), Err(Error::ParseIntError(_))));
    assert!(matches!(u8::dehexify(b"1_0"), Err(Error::ParseIntError(_))));
    assert!(matches!(u8::dehexify(b"0X5"), Err(Error::ParseIntError(_))));
    assert!(matches!(u8::dehexify(b"0x0x5"), Err(Error::ParseIntError(_))));
    assert!(matches!(u8::dehexify("é".as_bytes()), Err(Error::ParseIntError(_))));
    assert!(matches!(i8::dehexify(b"-"), Err(Error::ParseIntError(_))));
    assert!(matches!(i8::dehexify(b"+-1"), Err(Error::ParseIntError(_))));
    assert!(matches!(i8::dehexify(b"1-"), Err(Error::ParseIntError(_))));
}

#[test]
fn a_number_that_does_not_fit_is_refused() {
    assert!(matches!(u8::dehexify(b"100"), Err(Error::ParseIntError(_))));
    assert!(matches!(u16::dehexify(b"0x10000"), Err(Error::ParseIntError(_))));
    assert!(matches!(u32::dehexify(b"100000000"), Err(Error::ParseIntError(_))));
    assert!(matches!(u64::dehexify(b"10000000000000000"), Err(Error::ParseIntError(_))));
    assert!(matches!(
        u128::dehexify(format!("1{}", "0".repeat(32)).as_bytes()),
        Err(Error::ParseIntError(_))
    ));
    assert!(matches!(i8::dehexify(b"80"), Err(Error::ParseIntError(_))));
    assert!(matches!(i8::dehexify(b"-81"), Err(Error::ParseIntError(_))));
    assert!(matches!(i16::dehexify(b"8000"), Err(Error::ParseIntError(_))));
    assert!(matches!(i64::dehexify(b"-8000000000000001"), Err(Error::ParseIntError(_))));
}

#[test]
fn text_that_is_not_utf8_is_refused() {
    assert!(matches!(u8::dehexify(&[0xff]), Err(Error::Utf8Error(_))));
    assert!(matches!(u8::dehexify(&[0x30, 0x78, 0x35, 0x80]), Err(Error::Utf8Error(_))));
    assert!(matches!(u64::dehexify(&[0xc3]), Err(Error::Utf8Error(_))));
    assert!(matches!(i32::dehexify(&[0x31, 0xe6, 0x88]), Err(Error::Utf8Error(_))));
    assert!(matches!(u8::dehexify(&[0xed, 0xa0, 0x80]), Err(Error::Utf8Error(_))));
    assert!(matches!(u8::dehexify(&[0xc0, 0x80]), Err(Error::Utf8Error(_))));
}

use array_bytes::{hexify_hex_bytes, Hexify, HighestSetBit};

#[test]
fn hexify_should_work() {
    // Unsigned.
    assert_eq!(52_u8.hexify(), "34");
    assert_eq!(520_u16.hexify_upper(), "208");
    assert_eq!(5_201_314_u32.hexify_prefixed(), "0x4f5da2");
    assert_eq!(5_201_314_u64.hexify_prefixed_upper(), "0x4F5DA2");
    assert_eq!(5_201_314_u128.hexify(), "4f5da2");
    assert_eq!(5_201_314_usize.hexify_upper(), "4F5DA2");
    // `[u8; N]`.
    assert_eq!(*b"Love Jane Forever".hexify(), String::from("4c6f7665204a616e6520466f7265766572"));
    // `&[u8; N]`.
    assert_eq!(b"Love Jane Forever".hexify_upper(), String::from("4C6F7665204A616E6520466F7265766572"));
    // `&[u8]`.
    assert_eq!(
        b"Love Jane Forever".as_slice().hexify_prefixed(),
        String::from("0x4c6f7665204a616e6520466f7265766572")
    );
    // `Vec<u8>`.
    assert_eq!(
        b"Love Jane Forever".to_vec().hexify_prefixed_upper(),
        String::from("0x4C6F7665204A616E6520466F7265766572")
    );
    // `&Vec<u8>`.
    assert_eq!((&b"Love Jane Forever".to_vec()).hexify(), String::from("4c6f7665204a616e6520466f7265766572"));
}

#[test]
fn highest_set_bit_should_work() {
    assert_eq!(0_u8.highest_set_bit(), None);
    assert_eq!(1_u16.highest_set_bit(), Some(0));
    assert_eq!(2_u32.highest_set_bit(), Some(1));
    assert_eq!(4_u64.highest_set_bit(), Some(2));
    assert_eq!(8_u128.highest_set_bit(), Some(3));
    assert_eq!(16_usize.highest_set_bit(), Some(4));
}

#[test]
fn hexify_hex_bytes_should_work() {
    assert_eq!(hexify_hex_bytes(b"4c6f7665204a616e6520466f7265766572"), Ok("4c6f7665204a616e6520466f7265766572"),);
    assert_eq!(hexify_hex_bytes(b"4C6F7665204A616E6520466F7265766572"), Ok("4C6F7665204A616E6520466F7265766572"),);
    assert_eq!(hexify_hex_bytes(b"0x4c6f7665204a616e6520466f7265766572"), Ok("0x4c6f7665204a616e6520466f7265766572"),);
    assert_eq!(hexify_hex_bytes(b"0x4C6F7665204A616E6520466F7265766572"), Ok("0x4C6F7665204A616E6520466F7265766572"),);
}

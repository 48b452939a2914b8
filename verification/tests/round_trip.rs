use array_bytes::{
    bytes2hex, dehexify_array, dehexify_bytes, dehexify_slice_mut, hex2array_unchecked,
    hex2bytes_unchecked, hex2slice_unchecked, hexify_bytes, Dehexify, Hexify,
};

fn every_byte() -> Vec<u8> {
    (0..=255).collect()
}

#[test]
fn every_variant_decodes_to_the_bytes_it_was_made_from() {
    for bytes in [Vec::new(), vec![0], vec![0xff], vec![0x0a, 0xb0], every_byte()] {
        for text in [
            bytes.hexify(),
            bytes.hexify_upper(),
            bytes.hexify_prefixed(),
            bytes.hexify_prefixed_upper(),
            bytes2hex("", &bytes),
            bytes2hex("0x", &bytes),
        ] {
            assert_eq!(<Vec<u8>>::dehexify(text.as_bytes()), Ok(bytes.clone()));
            assert_eq!(dehexify_bytes(text.as_bytes()).unwrap().as_slice(), bytes.as_slice());
        }
    }
}

#[test]
fn the_text_has_two_digits_for_each_byte() {
    for len in [0usize, 1, 2, 63, 64, 65, 127, 128, 129, 1000] {
        let bytes = vec![0xa5; len];

        assert_eq!(bytes.hexify().len(), 2 * len);
        assert_eq!(bytes.hexify_upper().len(), 2 * len);
        assert_eq!(bytes.hexify_prefixed().len(), 2 + 2 * len);
        assert_eq!(bytes.hexify_prefixed_upper().len(), 2 + 2 * len);
        assert_eq!(bytes2hex("", &bytes).len(), 2 * len);
        assert_eq!(bytes2hex("0x", &bytes).len(), 2 + 2 * len);
        assert_eq!(bytes2hex("hex:", &bytes).len(), 4 + 2 * len);
    }
}

#[test]
fn the_prefix_is_written_as_given() {
    assert_eq!(bytes2hex("hex:", &[0xab, 0x01]), "hex:ab01");
    assert_eq!(bytes2hex("0X", &[0xab, 0x01]), "0Xab01");
    assert_eq!(bytes2hex("é", &[0x00]), "é00");
    assert_eq!(bytes2hex("é", &[0x00]).chars().count(), 3);
    assert_eq!(bytes2hex("", &[]), "");
    assert_eq!(bytes2hex("0x", &[]), "0x");
}

#[test]
fn each_byte_is_written_high_nibble_first() {
    assert_eq!([0x01u8].hexify(), "01");
    assert_eq!([0x10u8].hexify(), "10");
    assert_eq!([0xabu8, 0xcd, 0xef].hexify(), "abcdef");
    assert_eq!([0xabu8, 0xcd, 0xef].hexify_upper(), "ABCDEF");
    assert_eq!([0xabu8, 0xcd, 0xef].hexify_prefixed(), "0xabcdef");
    assert_eq!([0xabu8, 0xcd, 0xef].hexify_prefixed_upper(), "0xABCDEF");
    assert_eq!(hexify_bytes(&[0x9a, 0x0f], true, true), "0x9A0F");
    assert_eq!(hexify_bytes(&[0x9a, 0x0f], false, false), "9a0f");
    assert_eq!(every_byte().hexify()[..8], *"00010203");
    assert_eq!(every_byte().hexify()[504..], *"fcfdfeff");
}

#[test]
fn love_is_encoded_and_decoded() {
    assert_eq!(bytes2hex("0x", &[0x4c, 0x6f, 0x76, 0x65]), "0x4c6f7665");
    assert_eq!(<Vec<u8>>::dehexify(b"0x4c6f7665"), Ok(vec![0x4c, 0x6f, 0x76, 0x65]));
    assert_eq!(<[u8; 4]>::dehexify(b"0x4c6f7665"), Ok([0x4c, 0x6f, 0x76, 0x65]));
    assert_eq!(dehexify_array::<4>(b"4C6F7665"), Ok([0x4c, 0x6f, 0x76, 0x65]));
}

#[test]
fn digits_of_either_case_decode_alike() {
    assert_eq!(<Vec<u8>>::dehexify(b"abcdef"), Ok(vec![0xab, 0xcd, 0xef]));
    assert_eq!(<Vec<u8>>::dehexify(b"ABCDEF"), Ok(vec![0xab, 0xcd, 0xef]));
    assert_eq!(<Vec<u8>>::dehexify(b"aBcDeF"), Ok(vec![0xab, 0xcd, 0xef]));
    assert_eq!(<Vec<u8>>::dehexify(b"0123456789"), Ok(vec![0x01, 0x23, 0x45, 0x67, 0x89]));
    assert_eq!(<Vec<u8>>::dehexify(b""), Ok(vec![]));
    assert_eq!(<Vec<u8>>::dehexify(b"0x"), Ok(vec![]));
}

#[test]
fn unchecked_decoding_agrees_with_checked_decoding() {
    for bytes in [Vec::new(), vec![0x00], vec![0x12, 0xef], every_byte()] {
        for text in [bytes.hexify(), bytes.hexify_prefixed_upper()] {
            let checked = <Vec<u8>>::dehexify(text.as_bytes()).unwrap();

            assert_eq!(hex2bytes_unchecked(text.as_bytes()), checked);

            let mut first = vec![0xee; bytes.len()];
            let mut second = vec![0xee; bytes.len()];

            assert_eq!(hex2slice_unchecked(text.as_bytes(), &mut first), checked.as_slice());
            assert_eq!(
                dehexify_slice_mut(text.as_bytes(), &mut second),
                Ok(checked.as_slice())
            );
            assert_eq!(first, second);
        }
    }

    assert_eq!(hex2array_unchecked::<3>(b"0x0a0B0c"), <[u8; 3]>::dehexify(b"0x0a0B0c").unwrap());
    assert_eq!(hex2array_unchecked::<3>(b"0a0B0c"), [0x0a, 0x0b, 0x0c]);
    assert_eq!(hex2array_unchecked::<0>(b""), []);
}

#[test]
fn long_texts_leave_the_inline_buffers() {
    let bytes = vec![0x5a; 300];
    let text = bytes.hexify_prefixed();

    assert_eq!(text, format!("0x{}", "5a".repeat(300)));
    assert_eq!(dehexify_bytes(text.as_bytes()).unwrap().into_vec(), bytes);
    assert_eq!(dehexify_bytes(text.as_bytes()).unwrap().as_slice(), bytes.as_slice());
}

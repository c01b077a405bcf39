use huff_utils::bytes_util::{
    bytes32_to_string, format_even_bytes, hash_bytes, hex_to_usize, pad_n_bytes, str_to_bytes32, str_to_vec,
};

#[test]
fn test_bytes32_to_string() {
    let byte_arr: [u8; 32] = [
        0, 0, 0, 0, 0, 0, 0, 0, 0, 0, 0, 0, 0, 0, 0, 0, 0, 0, 0, 0, 0, 0, 0, 0, 0, 0, 0, 0, 0, 0,
        0, 254,
    ];
    let converted_string = bytes32_to_string(&byte_arr, false);
    assert_eq!(converted_string, "fe");
}

#[test]
fn test_hex_to_usize() {
    for i in 0..255 {
        let str = format!("{i:02x}");
        let converted_usize = hex_to_usize(&str).unwrap();
        assert_eq!(converted_usize, i);
    }
}

#[test]
fn bytes32_round_trip() {
    let mut word = [0u8; 32];
    word[29] = 1;
    word[30] = 0;
    word[31] = 0xab;
    let text = bytes32_to_string(&word, false);
    assert_eq!(text, "0100ab");
    assert_eq!(str_to_bytes32(&text), word);
    assert_eq!(bytes32_to_string(&word, true), "0x0100ab");
    assert_eq!(bytes32_to_string(&[0u8; 32], false), "00");
}

#[test]
fn str_to_bytes32_pads_odd_text() {
    let w = str_to_bytes32("a57b");
    assert_eq!(w[30], 0xa5);
    assert_eq!(w[31], 0x7b);
    let w = str_to_bytes32("abc");
    assert_eq!(w[30], 0x0a);
    assert_eq!(w[31], 0xbc);
    assert!(w[..30].iter().all(|b| *b == 0));
}

#[test]
fn even_and_padded_hex() {
    assert_eq!(format_even_bytes("abc".to_string()), "0abc");
    assert_eq!(format_even_bytes("ab".to_string()), "ab");
    assert_eq!(pad_n_bytes("ab", 3), "0000ab");
    assert_eq!(pad_n_bytes("abcdef12", 2), "abcdef12");
}

#[test]
fn hex_parsing_errors() {
    assert!(hex_to_usize("zz").is_err());
    assert_eq!(hex_to_usize("+ff").unwrap(), 255);
    assert_eq!(str_to_vec("00ff10").unwrap(), vec![0, 255, 16]);
    assert!(str_to_vec("g0").is_err());
}

#[test]
fn keccak_of_empty_text() {
    let mut dest = [0u8; 32];
    hash_bytes(&mut dest, &String::new());
    assert_eq!(bytes32_to_string(&dest, false), "c5d2460186f7233c927e7db2dcc703c0e500b653ca82273b7bfad8045d85a470");
}

#[test]
fn keccak_of_transfer_signature() {
    let mut dest = [0u8; 4];
    hash_bytes(&mut dest, &"transfer(address,uint256)".to_string());
    assert_eq!(dest, [0xa9, 0x05, 0x9c, 0xbb]);
}

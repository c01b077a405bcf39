use huff_utils::types::{AbiToken, EToken};

fn word(tail: &[u8]) -> [u8; 32] {
    let mut w = [0u8; 32];
    w[32 - tail.len()..].copy_from_slice(tail);
    w
}

fn parse(s: &str) -> Result<AbiToken, String> {
    EToken::try_from(s.to_string()).map(|t| t.0)
}

#[test]
fn etoken_reads_booleans() {
    assert_eq!(parse("true"), Ok(AbiToken::Bool(true)));
    assert_eq!(parse("false"), Ok(AbiToken::Bool(false)));
}

#[test]
fn etoken_reads_an_address() {
    let mut a = [0u8; 20];
    a[0] = 0xde;
    a[19] = 0x01;
    assert_eq!(parse("0xde00000000000000000000000000000000000001"), Ok(AbiToken::Address(a)));
}

#[test]
fn etoken_refuses_a_bad_address() {
    assert!(parse("0xg000000000000000000000000000000000000001").is_err());
}

#[test]
fn etoken_reads_fixed_bytes() {
    assert_eq!(parse("0xa57b"), Ok(AbiToken::FixedBytes(word(&[0xa5, 0x7b]).to_vec())));
    assert_eq!(parse("0xabc"), Ok(AbiToken::FixedBytes(word(&[0x0a, 0xbc]).to_vec())));
}

#[test]
fn etoken_reads_long_bytes() {
    let text = format!("0x{}", "ab".repeat(33));
    assert_eq!(parse(&text), Ok(AbiToken::Bytes(vec![0xab; 33])));
    let bad = format!("0x{}zz", "ab".repeat(32));
    assert!(parse(&bad).is_err());
}

#[test]
fn etoken_reads_signed_integers() {
    let minus_five = {
        let mut w = [0xffu8; 32];
        w[31] = 0xfb;
        w
    };
    assert_eq!(parse("-5"), Ok(AbiToken::Int(minus_five)));
    assert_eq!(parse("+7"), Ok(AbiToken::Int(word(&[7]))));
    assert!(parse("-").is_err());
    assert!(parse("-12a").is_err());
}

#[test]
fn etoken_signed_word_matches_ethers() {
    let t = ethers_core::abi::Tokenizable::into_token(-300i128);
    let mut expected = [0u8; 32];
    match t {
        ethers_core::abi::Token::Int(d) => d.to_big_endian(&mut expected),
        _ => panic!("not an int"),
    }
    assert_eq!(parse("-300"), Ok(AbiToken::Int(expected)));
}

#[test]
fn etoken_reads_unsigned_integers() {
    assert_eq!(parse("123"), Ok(AbiToken::Uint(word(&[123]))));
    assert_eq!(parse("256"), Ok(AbiToken::Uint(word(&[1, 0]))));
    assert_eq!(parse(""), Ok(AbiToken::Uint([0u8; 32])));
}

#[test]
fn etoken_refuses_too_large_integers() {
    // 2^256
    let big = "115792089237316195423570985008687907853269984665640564039457584007913129639936";
    assert_eq!(parse(big), Err("the number is too large for the type".to_string()));
    let max = "115792089237316195423570985008687907853269984665640564039457584007913129639935";
    assert_eq!(parse(max), Ok(AbiToken::Uint([0xff; 32])));
}

#[test]
fn etoken_reads_strings() {
    assert_eq!(parse("abc"), Ok(AbiToken::String("abc".to_string())));
}

#[test]
fn etoken_reads_arrays() {
    assert_eq!(
        parse("[1, 2]"),
        Ok(AbiToken::Array(vec![AbiToken::Uint(word(&[1])), AbiToken::Uint(word(&[2]))]))
    );
    assert_eq!(
        parse("[\"ab\", true]"),
        Ok(AbiToken::Array(vec![AbiToken::String("ab".to_string()), AbiToken::Bool(true)]))
    );
    assert_eq!(parse("[]"), Ok(AbiToken::Array(vec![AbiToken::Uint([0u8; 32])])));
}

#[test]
fn etoken_reads_bare_lists() {
    assert_eq!(
        parse("1,true"),
        Ok(AbiToken::Array(vec![AbiToken::Uint(word(&[1])), AbiToken::Bool(true)]))
    );
}

#[test]
fn etoken_refuses_other_text() {
    assert_eq!(parse("a b"), Err("Invalid input: a b".to_string()));
    assert_eq!(
        parse("[1, a b]"),
        Ok(AbiToken::Array(vec![AbiToken::Uint(word(&[1])), AbiToken::String("ab".to_string())]))
    );
}

#[test]
fn etoken_try_read_reports_panicking_text() {
    assert!(EToken::try_read("0x0g".to_string()).is_none());
    assert!(EToken::try_read("[1, 0xzz]".to_string()).is_none());
    assert_eq!(
        EToken::try_read("true".to_string()).map(|r| r.map(|t| t.0)),
        Some(Ok(AbiToken::Bool(true)))
    );
}

#[test]
fn abi_token_clone_is_equal() {
    let t = AbiToken::Array(vec![AbiToken::Bool(true), AbiToken::Bytes(vec![1, 2])]);
    assert_eq!(t.clone(), t);
}

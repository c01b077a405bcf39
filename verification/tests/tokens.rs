use huff_utils::evm::Opcode;
use huff_utils::token::{Token, TokenKind};
use huff_utils::types::PrimitiveEVMType;

#[test]
fn token_display() {
    assert_eq!(TokenKind::Define.display(), "#define");
    assert_eq!(TokenKind::Comment("x".to_string()).display(), "Comment(x)");
    assert_eq!(TokenKind::Num(42).display(), "42");
    assert_eq!(TokenKind::FreeStoragePointer.display(), "FREE_STORAGE_POINTER()");
    assert_eq!(TokenKind::Opcode(Opcode::Sstore).display(), "55");
    assert_eq!(TokenKind::PrimitiveType(PrimitiveEVMType::Uint(8)).display(), "uint8");
    assert_eq!(
        TokenKind::ArrayType(PrimitiveEVMType::Address, vec![2, 0]).display(),
        "address[2][]"
    );
    let mut l = [0u8; 32];
    l[31] = 1;
    assert_eq!(TokenKind::Literal(l).display(), format!("{}01", "00".repeat(31)));
    assert_eq!(TokenKind::BuiltinFunction("__codesize".to_string()).display(), "BuiltinFunction(__codesize)");
}

#[test]
fn token_spans() {
    let t = TokenKind::Add.into_single_span(4);
    assert_eq!(t.kind, TokenKind::Add);
    assert_eq!((t.span.start, t.span.end), (4, 4));
    let t = TokenKind::Div.into_span(1, 3);
    assert_eq!((t.span.start, t.span.end), (1, 3));
    let n = Token::new(TokenKind::Comma, t.span.clone());
    assert_eq!(n.kind, TokenKind::Comma);
}

#[test]
fn primitive_types() {
    assert_eq!(PrimitiveEVMType::try_from("uint".to_string()), Ok(PrimitiveEVMType::Uint(256)));
    assert_eq!(PrimitiveEVMType::try_from("uint64".to_string()), Ok(PrimitiveEVMType::Uint(64)));
    assert_eq!(PrimitiveEVMType::try_from("int".to_string()), Ok(PrimitiveEVMType::Int(256)));
    assert_eq!(PrimitiveEVMType::try_from("bytes32".to_string()), Ok(PrimitiveEVMType::Bytes(32)));
    assert_eq!(PrimitiveEVMType::try_from("bytes".to_string()), Ok(PrimitiveEVMType::DynBytes));
    assert_eq!(PrimitiveEVMType::try_from("bool".to_string()), Ok(PrimitiveEVMType::Bool));
    assert_eq!(PrimitiveEVMType::try_from("address".to_string()), Ok(PrimitiveEVMType::Address));
    assert_eq!(PrimitiveEVMType::try_from("string".to_string()), Ok(PrimitiveEVMType::String));
    assert_eq!(PrimitiveEVMType::try_from("uintx".to_string()), Err("Invalid uint size : x".to_string()));
    assert_eq!(PrimitiveEVMType::try_from("interface".to_string()), Err("Invalid int size : erface".to_string()));
    assert_eq!(PrimitiveEVMType::try_from("bytesx".to_string()), Err("Invalid bytes size : x".to_string()));
    assert_eq!(PrimitiveEVMType::try_from("foo".to_string()), Err("Invalid PrimitiveEVMType type: foo".to_string()));
}

#[test]
fn primitive_types_outside_the_evm_widths() {
    assert_eq!(PrimitiveEVMType::try_from("uint7".to_string()), Err("Invalid uint size : 7".to_string()));
    assert_eq!(PrimitiveEVMType::try_from("uint264".to_string()), Err("Invalid uint size : 264".to_string()));
    assert_eq!(PrimitiveEVMType::try_from("int0".to_string()), Err("Invalid int size : 0".to_string()));
    assert_eq!(PrimitiveEVMType::try_from("bytes33".to_string()), Err("Invalid bytes size : 33".to_string()));
    assert_eq!(PrimitiveEVMType::try_from("bytes0".to_string()), Err("Invalid bytes size : 0".to_string()));
    assert_eq!(PrimitiveEVMType::try_from("int8".to_string()), Ok(PrimitiveEVMType::Int(8)));
    assert_eq!(PrimitiveEVMType::try_from("bytes1".to_string()), Ok(PrimitiveEVMType::Bytes(1)));
}

#[test]
fn primitive_round_trip() {
    for t in [
        PrimitiveEVMType::String,
        PrimitiveEVMType::DynBytes,
        PrimitiveEVMType::Bool,
        PrimitiveEVMType::Uint(8),
        PrimitiveEVMType::Int(128),
        PrimitiveEVMType::Address,
        PrimitiveEVMType::Bytes(4),
    ] {
        assert_eq!(PrimitiveEVMType::try_from(t.display()), Ok(t));
    }
}

#[test]
fn opcode_texts() {
    assert_eq!(Opcode::Stop.string(), "00");
    assert_eq!(Opcode::Push1.string(), "60");
    assert_eq!(Opcode::Selfdestruct.string(), "ff");
    assert_eq!(Opcode::Push1.name(), "Push1");
    assert_eq!(Opcode::Selfdestruct.byte(), 0xff);
}

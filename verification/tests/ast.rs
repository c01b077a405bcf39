use huff_utils::ast::{
    Argument, AstSpan, BuiltinFunctionCall, BuiltinFunctionKind, ConstVal, ConstantDefinition, Contract,
    DecoratorFlag, FreeStoragePointer, Label, MacroArg, MacroDefinition, MacroInvocation, Statement,
    StatementType, TableDefinition, TableKind,
};
use huff_utils::evm::Opcode;
use huff_utils::name_map::NameMap;
use huff_utils::token::TokenKind;

fn stmt(ty: StatementType) -> Statement {
    Statement { ty, span: AstSpan(vec![]) }
}

fn macro_def(name: &str, statements: Vec<Statement>) -> MacroDefinition {
    MacroDefinition::new(name.to_string(), None, vec![], statements, 0, 0, vec![], false, false)
}

fn free_constant(name: &str) -> ConstantDefinition {
    ConstantDefinition {
        name: name.to_string(),
        value: ConstVal::FreeStoragePointer(FreeStoragePointer),
        span: AstSpan(vec![]),
    }
}

fn word(last: u8) -> [u8; 32] {
    let mut w = [0u8; 32];
    w[31] = last;
    w
}

#[test]
fn derive_storage_pointers_numbers_free_pointers_in_walk_order() {
    let mut contract = Contract::default();
    contract.constants.push(free_constant("OWNER"));
    contract.constants.push(free_constant("BALANCE"));
    contract.constants.push(ConstantDefinition {
        name: "FIXED".to_string(),
        value: ConstVal::Literal(word(0x42)),
        span: AstSpan(vec![]),
    });
    contract.constants.push(free_constant("UNUSED"));
    contract.macros.push(macro_def(
        "CONSTRUCTOR",
        vec![stmt(StatementType::Constant("BALANCE".to_string()))],
    ));
    contract.macros.push(macro_def(
        "HELPER",
        vec![stmt(StatementType::Label(Label {
            name: "lbl".to_string(),
            inner: vec![stmt(StatementType::Constant("FIXED".to_string()))],
            span: AstSpan(vec![]),
        }))],
    ));
    contract.macros.push(macro_def(
        "MAIN",
        vec![
            stmt(StatementType::Constant("OWNER".to_string())),
            stmt(StatementType::Constant("BALANCE".to_string())),
            stmt(StatementType::MacroInvocation(MacroInvocation {
                macro_name: "HELPER".to_string(),
                args: vec![MacroArg::Ident("OWNER".to_string())],
                span: AstSpan(vec![]),
            })),
        ],
    ));
    contract.derive_storage_pointers();
    // BALANCE is met first (in CONSTRUCTOR) and gets 0, OWNER gets 1.
    assert_eq!(contract.constants[1].value, ConstVal::Literal(word(0)));
    assert_eq!(contract.constants[0].value, ConstVal::Literal(word(1)));
    assert_eq!(contract.constants[2].value, ConstVal::Literal(word(0x42)));
    assert_eq!(contract.constants[3].value, ConstVal::FreeStoragePointer(FreeStoragePointer));
}

#[test]
fn free_pointer_numbers_read_as_hex() {
    let mut contract = Contract::default();
    let mut stmts = vec![];
    for i in 0..11 {
        let name = format!("C{i}");
        contract.constants.push(free_constant(&name));
        stmts.push(stmt(StatementType::Constant(name)));
    }
    contract.macros.push(macro_def("MAIN", stmts));
    contract.derive_storage_pointers();
    // the eleventh pointer is number 10, whose digits read as hex give 0x10
    assert_eq!(contract.constants[10].value, ConstVal::Literal(word(0x10)));
    assert_eq!(contract.constants[9].value, ConstVal::Literal(word(0x09)));
}

#[test]
fn recurse_counts_from_the_given_pointer() {
    let mut contract = Contract::default();
    contract.constants.push(free_constant("A"));
    contract.macros.push(macro_def(
        "M",
        vec![stmt(StatementType::BuiltinFunctionCall(BuiltinFunctionCall {
            kind: BuiltinFunctionKind::Codesize,
            args: vec![Argument {
                arg_type: None,
                arg_location: None,
                name: Some("N".to_string()),
                indexed: false,
                span: AstSpan(vec![]),
            }],
            span: AstSpan(vec![]),
        }))],
    ));
    contract.macros.push(macro_def("N", vec![stmt(StatementType::Constant("A".to_string()))]));
    let mut pointers = vec![];
    let mut last = 5;
    let m = contract.find_macro_by_name("M").unwrap();
    contract.recurse_ast_constants(m, &mut pointers, &mut last, false);
    assert_eq!(last, 6);
    assert_eq!(pointers, vec![("A".to_string(), word(0x05))]);
}

#[test]
fn recurse_accepts_a_negative_counter_over_literals() {
    let mut contract = Contract::default();
    contract.constants.push(ConstantDefinition {
        name: "L".to_string(),
        value: ConstVal::Literal(word(0x07)),
        span: AstSpan(vec![]),
    });
    contract.macros.push(macro_def("M", vec![stmt(StatementType::Constant("L".to_string()))]));
    let mut pointers = vec![];
    let mut last = -1;
    let m = contract.find_macro_by_name("M").unwrap();
    contract.recurse_ast_constants(m, &mut pointers, &mut last, false);
    assert_eq!(last, -1);
    assert_eq!(pointers, vec![("L".to_string(), word(0x07))]);
}

#[test]
fn find_by_name() {
    let mut contract = Contract::default();
    contract.macros.push(macro_def("A", vec![]));
    contract.tables.push(TableDefinition::new("T".to_string(), TableKind::CodeTable, vec![], word(3), AstSpan(vec![])));
    assert_eq!(contract.find_macro_by_name("A").unwrap().name, "A");
    assert!(contract.find_macro_by_name("B").is_none());
    let t = contract.find_table_by_name("T").unwrap();
    assert_eq!(t.name, "T");
    assert_eq!(t.kind, TableKind::CodeTable);
    assert!(contract.find_table_by_name("U").is_none());
}

#[test]
fn override_constants() {
    let mut contract = Contract::default();
    contract.constants.push(free_constant("A"));
    let mut overrides = NameMap::new();
    overrides.insert("A".to_string(), word(1));
    overrides.insert("B".to_string(), word(2));
    contract.add_override_constants(&Some(overrides));
    assert_eq!(contract.constants.len(), 2);
    assert_eq!(contract.constants[0].value, ConstVal::Literal(word(1)));
    assert_eq!(contract.constants[1].name, "B");
    assert_eq!(contract.constants[1].value, ConstVal::Literal(word(2)));
    contract.add_override_constants(&None);
    assert_eq!(contract.constants.len(), 2);
}

#[test]
fn builtin_and_decorator_names() {
    assert_eq!(BuiltinFunctionKind::try_from(&"__FUNC_SIG".to_string()), Ok(BuiltinFunctionKind::FunctionSignature));
    assert_eq!(BuiltinFunctionKind::from("__VERBATIM".to_string()), BuiltinFunctionKind::Verbatim);
    assert_eq!(BuiltinFunctionKind::try_from(&"__nope".to_string()), Err(()));
    assert_eq!(DecoratorFlag::try_from(&"calldata".to_string()), Ok(DecoratorFlag::Calldata(String::new())));
    assert_eq!(DecoratorFlag::try_from(&"value".to_string()), Ok(DecoratorFlag::Value([0u8; 32])));
    assert_eq!(DecoratorFlag::try_from(&"other".to_string()), Err(()));
    assert_eq!(TableKind::from(TokenKind::JumpTablePacked), TableKind::JumpTablePacked);
}

#[test]
fn statement_display() {
    assert_eq!(StatementType::Literal(word(0x1f)).display(), "LITERAL: 0x1f");
    assert_eq!(StatementType::Opcode(Opcode::Add).display(), "OPCODE: 01");
    assert_eq!(StatementType::Constant("X".to_string()).display(), "CONSTANT: X");
    assert_eq!(
        StatementType::BuiltinFunctionCall(BuiltinFunctionCall {
            kind: BuiltinFunctionKind::Tablesize,
            args: vec![],
            span: AstSpan(vec![])
        })
        .display(),
        "BUILTIN FUNCTION CALL: Tablesize"
    );
}

use huff_utils::abi::{Abi, FunctionParamType};
use huff_utils::ast::{Argument, Contract, EventDefinition, FunctionDefinition, FunctionType, AstSpan};
use std::collections::HashMap;

#[test]
fn convert_function_param_type() {
    let func_types = [
        "bool",
        "string",
        "address",
        "uint198",
        "bytes32",
        "bytes",
        "uint[][]",
        "address[5][]",
        "bool[][1][][2]",
    ];

    let expected_fn_types = HashMap::from([
        (0, FunctionParamType::Bool),
        (1, FunctionParamType::String),
        (2, FunctionParamType::Address),
        (3, FunctionParamType::Uint(198)),
        (4, FunctionParamType::FixedBytes(32)),
        (5, FunctionParamType::Bytes),
        (6, FunctionParamType::Array(Box::new(FunctionParamType::Uint(256)), vec![0, 0])),
        (7, FunctionParamType::Array(Box::new(FunctionParamType::Address), vec![5, 0])),
        (8, FunctionParamType::Array(Box::new(FunctionParamType::Bool), vec![0, 1, 0, 2])),
    ]);

    for (index, func_type) in func_types.into_iter().enumerate() {
        let ac_func_type = FunctionParamType::convert_string_to_type(func_type).unwrap();
        assert_eq!(ac_func_type, *expected_fn_types.get(&index).unwrap());
    }
}

#[test]
fn test_display_func_param_type() {
    let func_types = [
        "bool",
        "string",
        "address",
        "uint198",
        "uint",
        "bytes32",
        "bytes",
        "uint256[][]",
        "address[5][]",
        "bool[][1][][2]",
    ];

    let expected_fn_types = HashMap::from([
        (0, FunctionParamType::Bool),
        (1, FunctionParamType::String),
        (2, FunctionParamType::Address),
        (3, FunctionParamType::Uint(198)),
        (4, FunctionParamType::Uint(256)),
        (5, FunctionParamType::FixedBytes(32)),
        (6, FunctionParamType::Bytes),
        (7, FunctionParamType::Array(Box::new(FunctionParamType::Uint(256)), vec![0, 0])),
        (8, FunctionParamType::Array(Box::new(FunctionParamType::Address), vec![5, 0])),
        (9, FunctionParamType::Array(Box::new(FunctionParamType::Bool), vec![0, 1, 0, 2])),
    ]);

    for (index, func_type) in func_types.into_iter().enumerate() {
        let ac_func_type = FunctionParamType::convert_string_to_type(func_type).unwrap();
        assert_eq!(ac_func_type, *expected_fn_types.get(&index).unwrap());
        // manual check for uints since "uint" is coalesced to "uint256"
        match ac_func_type {
            FunctionParamType::Uint(s) => {
                assert_eq!(ac_func_type.display(), format!("uint{s}"));
                // The printed spelling reads back as the same type.
                assert_eq!(FunctionParamType::convert_string_to_type(&format!("uint{s}")).unwrap(), ac_func_type);
            }
            _ => {
                assert_eq!(ac_func_type.display(), func_types[index]);
                // The printed spelling reads back as the same type.
                assert_eq!(FunctionParamType::convert_string_to_type(&ac_func_type.display()).unwrap(), ac_func_type);
            }
        }
    }
}

#[test]
fn convert_is_case_insensitive_and_reports_unknown_types() {
    assert_eq!(FunctionParamType::convert_string_to_type("UINT8").unwrap(), FunctionParamType::Uint(8));
    assert_eq!(FunctionParamType::convert_string_to_type("int").unwrap(), FunctionParamType::Int(256));
    let err = FunctionParamType::convert_string_to_type("foo").unwrap_err();
    assert_eq!(err.input, "foo");
    assert_eq!(err.message(), "Failed to create FunctionParamType from string: foo");
}

#[test]
fn try_convert_refuses_what_would_panic() {
    assert!(FunctionParamType::try_convert_string_to_type("uintx").is_none());
    assert!(FunctionParamType::try_convert_string_to_type("bool[x]").is_none());
    assert_eq!(
        FunctionParamType::try_convert_string_to_type("bool[3]"),
        Some(Ok(FunctionParamType::Array(Box::new(FunctionParamType::Bool), vec![3])))
    );
}

#[test]
fn memory_types() {
    assert!(FunctionParamType::Bytes.is_memory_type());
    assert!(FunctionParamType::String.is_memory_type());
    assert!(FunctionParamType::Array(Box::new(FunctionParamType::Bool), vec![1]).is_memory_type());
    assert!(!FunctionParamType::Uint(256).is_memory_type());
    assert!(!FunctionParamType::Address.is_memory_type());
}

#[test]
fn display_reads_back() {
    for t in ["address", "bool", "uint8", "int16", "bytes4", "string", "bytes", "uint256[3][]"] {
        let parsed = FunctionParamType::convert_string_to_type(t).unwrap();
        let shown = parsed.display();
        assert_eq!(FunctionParamType::convert_string_to_type(&shown).unwrap(), parsed);
    }
}

fn arg(ty: &str, name: &str) -> Argument {
    Argument {
        arg_type: Some(ty.to_string()),
        arg_location: None,
        name: Some(name.to_string()),
        indexed: false,
        span: AstSpan(vec![]),
    }
}

#[test]
fn abi_from_contract() {
    let mut contract = Contract::default();
    contract.functions.push(FunctionDefinition {
        name: "transfer".to_string(),
        signature: [0xa9, 0x05, 0x9c, 0xbb],
        inputs: vec![arg("address", "to"), arg("uint256", "amount")],
        fn_type: FunctionType::NonPayable,
        outputs: vec![arg("bool", "")],
        span: AstSpan(vec![]),
    });
    contract.functions.push(FunctionDefinition {
        name: "constructor".to_string(),
        signature: [0, 0, 0, 0],
        inputs: vec![arg("uint8", "decimals")],
        fn_type: FunctionType::NonPayable,
        outputs: vec![],
        span: AstSpan(vec![]),
    });
    contract.events.push(EventDefinition {
        name: "Transfer".to_string(),
        parameters: vec![arg("address", "from")],
        span: AstSpan(vec![]),
        hash: [0u8; 32],
    });
    let abi = Abi::from_contract(&contract);
    let ctor = abi.constructor.as_ref().unwrap();
    assert_eq!(ctor.inputs.len(), 1);
    assert_eq!(ctor.inputs[0].kind, FunctionParamType::Uint(8));
    let f = abi.functions.get("transfer").unwrap();
    assert_eq!(f.inputs.len(), 2);
    assert_eq!(f.inputs[1].name, "amount");
    assert_eq!(f.outputs[0].kind, FunctionParamType::Bool);
    assert!(abi.events.get("Transfer").is_some());
    assert!(abi.errors.get("Transfer").is_none());
    assert!(Abi::try_from_contract(&contract).is_some());

    contract.functions[0].inputs.push(arg("uint8[x]", "bad"));
    assert!(Abi::try_from_contract(&contract).is_none());
}

use std::sync::Arc;

use huff_utils::abi::{Abi, Event, EventParam, Function, FunctionParam, FunctionParamType};
use huff_utils::artifact::Artifact;
use huff_utils::ast::FunctionType;
use huff_utils::config::HuffConfig;
use huff_utils::evm_version::{EVMVersion, SupportedEVMVersions};
use huff_utils::files::FileSource;
use huff_utils::foundry::FoundryConfig;
use huff_utils::io::{parse_extension, unpack_files, UnpackError};
use huff_utils::name_map::NameMap;
use huff_utils::remapper::Remapper;
use huff_utils::sol_interface::{gen_sol_interfaces, try_gen_sol_interfaces};

const FOUNDRY_DOC: &str = "[profile.default]\nevm_version = \"paris\"\nremappings = [\"a/=from-foundry/\"]\nother = [1]\n";

#[test]
fn foundry_config_reads_remappings_and_version() {
    let config = FoundryConfig::new(Some(FOUNDRY_DOC));
    assert_eq!(config.evm_version, Some("paris".to_string()));
    assert_eq!(config.remappings.len(), 1);
    assert_eq!(config.remappings.get("a/").unwrap(), "from-foundry/");
    let empty = FoundryConfig::new(None);
    assert_eq!(empty.evm_version, None);
    assert_eq!(empty.remappings.len(), 0);
    let broken = FoundryConfig::new(Some("[profile\nremappings = ["));
    assert_eq!(broken.evm_version, None);
    assert_eq!(broken.remappings.len(), 0);
    assert_eq!(FoundryConfig::split_remappings("k=v"), Some(("k".to_string(), "v".to_string())));
    FoundryConfig::parse_remappings();
}

#[test]
fn huff_config_prefers_foundry_remappings() {
    let config = HuffConfig::new("root/", Some(FOUNDRY_DOC), Some("a/=from-file/\nb/=bee/"));
    assert_eq!(config.base_dir, "root/");
    assert_eq!(config.evm_version, EVMVersion::new(SupportedEVMVersions::paris));
    assert_eq!(config.remappings.get("a/").unwrap(), "from-foundry/");
    assert_eq!(config.remappings.get("b/").unwrap(), "bee/");
    assert_eq!(config.remap("b/x.huff"), Some("root/bee/x.huff".to_string()));
    assert_eq!(config.remap("c/x.huff"), None);

    let plain = HuffConfig::new("r", None, None);
    assert_eq!(plain.evm_version, EVMVersion::default());
    assert_eq!(plain.remappings.len(), 0);

    let v = HuffConfig::from_evm_version(EVMVersion::new(SupportedEVMVersions::paris));
    assert_eq!(v.base_dir, "");
    assert_eq!(v.remappings.len(), 0);
}

#[test]
fn evm_versions() {
    assert_eq!(EVMVersion::default(), EVMVersion::new(SupportedEVMVersions::shanghai));
    assert_eq!(EVMVersion::from_name(&Some("paris".to_string())), EVMVersion::new(SupportedEVMVersions::paris));
    assert_eq!(EVMVersion::from_name(&Some("london".to_string())), EVMVersion::default());
    assert_eq!(EVMVersion::from_name(&None), EVMVersion::default());
    assert!(SupportedEVMVersions::paris < SupportedEVMVersions::shanghai);
}

#[test]
fn unpacking_files() {
    assert_eq!(parse_extension("a/b.huff"), Some("huff"));
    assert_eq!(parse_extension("a/b"), None);
    assert_eq!(unpack_files("x.huff", None), Ok(vec!["x.huff".to_string()]));
    assert_eq!(unpack_files("x.txt", None), Err(UnpackError::UnsupportedExtension("x.txt".to_string())));
    assert_eq!(unpack_files("dir", None), Err(UnpackError::InvalidDirectory("dir".to_string())));
    let listing = vec!["dir/a.huff".to_string(), "dir/b.txt".to_string(), "dir/c.huff".to_string(), "dir/d".to_string()];
    assert_eq!(unpack_files("dir", Some(listing)), Ok(vec!["dir/a.huff".to_string(), "dir/c.huff".to_string()]));
}

fn param(kind: FunctionParamType) -> FunctionParam {
    FunctionParam { name: String::new(), kind, internal_type: None }
}

#[test]
fn solidity_interfaces() {
    let mut abi = Abi::new();
    abi.functions.insert(
        "balanceOf".to_string(),
        Function {
            name: "balanceOf".to_string(),
            inputs: vec![param(FunctionParamType::Address)],
            outputs: vec![param(FunctionParamType::Uint(256))],
            constant: false,
            state_mutability: FunctionType::View,
        },
    );
    abi.functions.insert(
        "setName".to_string(),
        Function {
            name: "setName".to_string(),
            inputs: vec![param(FunctionParamType::String), param(FunctionParamType::Bool)],
            outputs: vec![],
            constant: false,
            state_mutability: FunctionType::NonPayable,
        },
    );
    abi.events.insert(
        "Transfer".to_string(),
        Event {
            name: "Transfer".to_string(),
            inputs: vec![
                EventParam { name: "from".to_string(), kind: FunctionParamType::Address, indexed: true },
                EventParam { name: "value".to_string(), kind: FunctionParamType::Uint(256), indexed: false },
            ],
            anonymous: false,
        },
    );
    let artifact = Arc::new(Artifact {
        file: FileSource {
            id: uuid::Uuid::nil(),
            path: "./src/Token.huff".to_string(),
            source: None,
            access: None,
            dependencies: None,
        },
        bytecode: String::new(),
        runtime: String::new(),
        abi: Some(abi),
    });
    let no_abi = Arc::new(Artifact {
        file: FileSource::default(),
        bytecode: String::new(),
        runtime: String::new(),
        abi: None,
    });
    let out = gen_sol_interfaces(&vec![artifact.clone(), no_abi], None);
    assert_eq!(out.len(), 1);
    assert_eq!(out[0].0, "./src");
    assert_eq!(out[0].1, "IToken");
    assert_eq!(
        out[0].2,
        "interface IToken {\n\tevent Transfer(address indexed, uint256);\n\tfunction balanceOf(address) external view returns (uint256);\n\tfunction setName(string memory, bool) external;\n}"
    );
    let named = try_gen_sol_interfaces(&vec![artifact], Some("IThing".to_string())).unwrap();
    assert_eq!(named[0].1, "IThing");
    assert!(named[0].2.starts_with("interface IThing {"));
}

#[test]
fn name_map_keeps_names_in_order() {
    let mut m: NameMap<u8> = NameMap::new();
    m.insert("b".to_string(), 2);
    m.insert("a".to_string(), 1);
    m.insert("b".to_string(), 3);
    assert_eq!(m.len(), 2);
    assert_eq!(m.get("b"), Some(&3));
    assert_eq!(m.get("c"), None);
    let names: Vec<&str> = m.entries().iter().map(|e| e.0.as_str()).collect();
    assert_eq!(names, vec!["a", "b"]);
    let mut other = NameMap::new();
    other.insert("a".to_string(), 9);
    other.insert("c".to_string(), 7);
    m.extend(other);
    assert_eq!(m.len(), 3);
    assert_eq!(m.get("a"), Some(&9));
    assert_eq!(m.get("c"), Some(&7));
}

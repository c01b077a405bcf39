//! Utilities shared by the Huff compiler: byte and hex helpers, ABI types,
//! EVM opcodes, remappings and file-path handling.

pub mod text;
pub mod bytes_util;
pub mod evm;
pub mod abi;
pub mod files;
pub mod ast;
pub mod name_map;
pub mod artifact;
pub mod sol_interface;
pub mod foundry;
pub mod evm_version;
pub mod remapper;
pub mod config;
pub mod storage_pointers;
pub mod types;
pub mod token;
pub mod ast_span;
pub mod io;
pub mod error;
pub mod bytecode;
pub mod report;
pub mod lexer;

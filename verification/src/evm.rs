//! EVM opcodes and their byte encodings.

use vstd::prelude::*;

use crate::bytes_util::{hex_of_bytes, hex_char, hex_digit_char, lemma_hex_of_byte};
use crate::text::string_of;

verus! {

/// EVM opcodes (see <https://evm.codes>).
#[derive(Debug, Clone, Copy, PartialEq, Eq, PartialOrd, Ord, Structural)]
pub enum Opcode {
    /// Halts execution.
    Stop,
    /// Addition operation
    Add,
    /// Multiplication Operation
    Mul,
    /// Subtraction Operation
    Sub,
    /// Integer Division Operation
    Div,
    /// Signed Integer Division Operation
    Sdiv,
    /// Modulo Remainder Operation
    Mod,
    /// Signed Modulo Remainder Operation
    Smod,
    /// Modulo Addition Operation
    Addmod,
    /// Modulo Multiplication Operation
    Mulmod,
    /// Exponential Operation
    Exp,
    /// Extend Length of Two's Complement Signed Integer
    Signextend,
    /// Less-than Comparison
    Lt,
    /// Greater-than Comparison
    Gt,
    /// Signed Less-than Comparison
    Slt,
    /// Signed Greater-than Comparison
    Sgt,
    /// Equality Comparison
    Eq,
    /// Not Operation
    Iszero,
    /// Bitwise AND Operation
    And,
    /// Bitwise OR Operation
    Or,
    /// Bitwise XOR Operation
    Xor,
    /// Bitwise NOT Operation
    Not,
    /// Retrieve Single Byte from Word
    Byte,
    /// Left Shift Operation
    Shl,
    /// Right Shift Operation
    Shr,
    /// Arithmetic Shift Right Operation
    Sar,
    /// Compute the Keccak-256 hash of a 32-byte word
    Sha3,
    /// Address of currently executing account
    Address,
    /// Balance of a given account
    Balance,
    /// Address of execution origination
    Origin,
    /// Address of the caller
    Caller,
    /// Value of the call
    Callvalue,
    /// Loads Calldata
    Calldataload,
    /// Size of the Calldata
    Calldatasize,
    /// Copies the Calldata to Memory
    Calldatacopy,
    /// Size of the Executing Code
    Codesize,
    /// Copies Executing Code to Memory
    Codecopy,
    /// Current Price of Gas
    Gasprice,
    /// Size of an Account's Code
    Extcodesize,
    /// Copies an Account's Code to Memory
    Extcodecopy,
    /// Size of Output Data from Previous Call
    Returndatasize,
    /// Copies Output Data from Previous Call to Memory
    Returndatacopy,
    /// Hash of a Block from the most recent 256 blocks
    Blockhash,
    /// The Current Blocks Beneficiary Address
    Coinbase,
    /// The Current Blocks Timestamp
    Timestamp,
    /// The Current Blocks Number
    Number,
    /// The Current Blocks Difficulty
    Difficulty,
    /// The Current Blocks Gas Limit
    Gaslimit,
    /// The Chain ID
    Chainid,
    /// Balance of the Currently Executing Account
    Selfbalance,
    /// Base Fee
    Basefee,
    /// Removes an Item from the Stack
    Pop,
    /// Loads a word from Memory
    Mload,
    /// Stores a word in Memory
    Mstore,
    /// Stores a byte in Memory
    Mstore8,
    /// Load a word from Storage
    Sload,
    /// Store a word in Storage
    Sstore,
    /// Alter the Program Counter
    Jump,
    /// Conditionally Alter the Program Counter
    Jumpi,
    /// Value of the Program Counter Before the Current Instruction
    Pc,
    /// Size of Active Memory in Bytes
    Msize,
    /// Amount of available gas including the cost of the current instruction
    Gas,
    /// Marks a valid destination for jumps
    Jumpdest,
    /// Places 1 byte item on top of the stack
    Push1,
    /// Places 2 byte item on top of the stack
    Push2,
    /// Places 3 byte item on top of the stack
    Push3,
    /// Places 4 byte item on top of the stack
    Push4,
    /// Places 5 byte item on top of the stack
    Push5,
    /// Places 6 byte item on top of the stack
    Push6,
    /// Places 7 byte item on top of the stack
    Push7,
    /// Places 8 byte item on top of the stack
    Push8,
    /// Places 9 byte item on top of the stack
    Push9,
    /// Places 10 byte item on top of the stack
    Push10,
    /// Places 11 byte item on top of the stack
    Push11,
    /// Places 12 byte item on top of the stack
    Push12,
    /// Places 13 byte item on top of the stack
    Push13,
    /// Places 14 byte item on top of the stack
    Push14,
    /// Places 15 byte item on top of the stack
    Push15,
    /// Places 16 byte item on top of the stack
    Push16,
    /// Places 17 byte item on top of the stack
    Push17,
    /// Places 18 byte item on top of the stack
    Push18,
    /// Places 19 byte item on top of the stack
    Push19,
    /// Places 20 byte item on top of the stack
    Push20,
    /// Places 21 byte item on top of the stack
    Push21,
    /// Places 22 byte item on top of the stack
    Push22,
    /// Places 23 byte item on top of the stack
    Push23,
    /// Places 24 byte item on top of the stack
    Push24,
    /// Places 25 byte item on top of the stack
    Push25,
    /// Places 26 byte item on top of the stack
    Push26,
    /// Places 27 byte item on top of the stack
    Push27,
    /// Places 28 byte item on top of the stack
    Push28,
    /// Places 29 byte item on top of the stack
    Push29,
    /// Places 30 byte item on top of the stack
    Push30,
    /// Places 31 byte item on top of the stack
    Push31,
    /// Places 32 byte item on top of the stack
    Push32,
    /// Duplicates the first stack item
    Dup1,
    /// Duplicates the 2nd stack item
    Dup2,
    /// Duplicates the 3rd stack item
    Dup3,
    /// Duplicates the 4th stack item
    Dup4,
    /// Duplicates the 5th stack item
    Dup5,
    /// Duplicates the 6th stack item
    Dup6,
    /// Duplicates the 7th stack item
    Dup7,
    /// Duplicates the 8th stack item
    Dup8,
    /// Duplicates the 9th stack item
    Dup9,
    /// Duplicates the 10th stack item
    Dup10,
    /// Duplicates the 11th stack item
    Dup11,
    /// Duplicates the 12th stack item
    Dup12,
    /// Duplicates the 13th stack item
    Dup13,
    /// Duplicates the 14th stack item
    Dup14,
    /// Duplicates the 15th stack item
    Dup15,
    /// Duplicates the 16th stack item
    Dup16,
    /// Exchange the top two stack items
    Swap1,
    /// Exchange the first and third stack items
    Swap2,
    /// Exchange the first and fourth stack items
    Swap3,
    /// Exchange the first and fifth stack items
    Swap4,
    /// Exchange the first and sixth stack items
    Swap5,
    /// Exchange the first and seventh stack items
    Swap6,
    /// Exchange the first and eighth stack items
    Swap7,
    /// Exchange the first and ninth stack items
    Swap8,
    /// Exchange the first and tenth stack items
    Swap9,
    /// Exchange the first and eleventh stack items
    Swap10,
    /// Exchange the first and twelfth stack items
    Swap11,
    /// Exchange the first and thirteenth stack items
    Swap12,
    /// Exchange the first and fourteenth stack items
    Swap13,
    /// Exchange the first and fifteenth stack items
    Swap14,
    /// Exchange the first and sixteenth stack items
    Swap15,
    /// Exchange the first and seventeenth stack items
    Swap16,
    /// Append Log Record with no Topics
    Log0,
    /// Append Log Record with 1 Topic
    Log1,
    /// Append Log Record with 2 Topics
    Log2,
    /// Append Log Record with 3 Topics
    Log3,
    /// Append Log Record with 4 Topics
    Log4,
    /// Create a new account with associated code
    Create,
    /// Message-call into an account
    Call,
    /// Message-call into this account with an alternative accounts code
    Callcode,
    /// Halt execution, returning output data
    Return,
    /// value
    Delegatecall,
    /// Create a new account with associated code
    Create2,
    /// Static Message-call into an account
    Staticcall,
    /// Halt execution, reverting state changes, but returning data and remaining gas
    Revert,
    /// Invalid Instruction
    Invalid,
    /// Halt Execution and Register Account for later deletion
    Selfdestruct,
}

impl Opcode {
    /// The byte that encodes the opcode in EVM bytecode.
    pub open spec fn code(self) -> u8 {
        match self {
            Opcode::Stop => 0x00,
            Opcode::Add => 0x01,
            Opcode::Mul => 0x02,
            Opcode::Sub => 0x03,
            Opcode::Div => 0x04,
            Opcode::Sdiv => 0x05,
            Opcode::Mod => 0x06,
            Opcode::Smod => 0x07,
            Opcode::Addmod => 0x08,
            Opcode::Mulmod => 0x09,
            Opcode::Exp => 0x0a,
            Opcode::Signextend => 0x0b,
            Opcode::Lt => 0x10,
            Opcode::Gt => 0x11,
            Opcode::Slt => 0x12,
            Opcode::Sgt => 0x13,
            Opcode::Eq => 0x14,
            Opcode::Iszero => 0x15,
            Opcode::And => 0x16,
            Opcode::Or => 0x17,
            Opcode::Xor => 0x18,
            Opcode::Not => 0x19,
            Opcode::Byte => 0x1a,
            Opcode::Shl => 0x1b,
            Opcode::Shr => 0x1c,
            Opcode::Sar => 0x1d,
            Opcode::Sha3 => 0x20,
            Opcode::Address => 0x30,
            Opcode::Balance => 0x31,
            Opcode::Origin => 0x32,
            Opcode::Caller => 0x33,
            Opcode::Callvalue => 0x34,
            Opcode::Calldataload => 0x35,
            Opcode::Calldatasize => 0x36,
            Opcode::Calldatacopy => 0x37,
            Opcode::Codesize => 0x38,
            Opcode::Codecopy => 0x39,
            Opcode::Gasprice => 0x3a,
            Opcode::Extcodesize => 0x3b,
            Opcode::Extcodecopy => 0x3c,
            Opcode::Returndatasize => 0x3d,
            Opcode::Returndatacopy => 0x3e,
            Opcode::Blockhash => 0x40,
            Opcode::Coinbase => 0x41,
            Opcode::Timestamp => 0x42,
            Opcode::Number => 0x43,
            Opcode::Difficulty => 0x44,
            Opcode::Gaslimit => 0x45,
            Opcode::Chainid => 0x46,
            Opcode::Selfbalance => 0x47,
            Opcode::Basefee => 0x48,
            Opcode::Pop => 0x50,
            Opcode::Mload => 0x51,
            Opcode::Mstore => 0x52,
            Opcode::Mstore8 => 0x53,
            Opcode::Sload => 0x54,
            Opcode::Sstore => 0x55,
            Opcode::Jump => 0x56,
            Opcode::Jumpi => 0x57,
            Opcode::Pc => 0x58,
            Opcode::Msize => 0x59,
            Opcode::Gas => 0x5a,
            Opcode::Jumpdest => 0x5b,
            Opcode::Push1 => 0x60,
            Opcode::Push2 => 0x61,
            Opcode::Push3 => 0x62,
            Opcode::Push4 => 0x63,
            Opcode::Push5 => 0x64,
            Opcode::Push6 => 0x65,
            Opcode::Push7 => 0x66,
            Opcode::Push8 => 0x67,
            Opcode::Push9 => 0x68,
            Opcode::Push10 => 0x69,
            Opcode::Push11 => 0x6a,
            Opcode::Push12 => 0x6b,
            Opcode::Push13 => 0x6c,
            Opcode::Push14 => 0x6d,
            Opcode::Push15 => 0x6e,
            Opcode::Push16 => 0x6f,
            Opcode::Push17 => 0x70,
            Opcode::Push18 => 0x71,
            Opcode::Push19 => 0x72,
            Opcode::Push20 => 0x73,
            Opcode::Push21 => 0x74,
            Opcode::Push22 => 0x75,
            Opcode::Push23 => 0x76,
            Opcode::Push24 => 0x77,
            Opcode::Push25 => 0x78,
            Opcode::Push26 => 0x79,
            Opcode::Push27 => 0x7a,
            Opcode::Push28 => 0x7b,
            Opcode::Push29 => 0x7c,
            Opcode::Push30 => 0x7d,
            Opcode::Push31 => 0x7e,
            Opcode::Push32 => 0x7f,
            Opcode::Dup1 => 0x80,
            Opcode::Dup2 => 0x81,
            Opcode::Dup3 => 0x82,
            Opcode::Dup4 => 0x83,
            Opcode::Dup5 => 0x84,
            Opcode::Dup6 => 0x85,
            Opcode::Dup7 => 0x86,
            Opcode::Dup8 => 0x87,
            Opcode::Dup9 => 0x88,
            Opcode::Dup10 => 0x89,
            Opcode::Dup11 => 0x8a,
            Opcode::Dup12 => 0x8b,
            Opcode::Dup13 => 0x8c,
            Opcode::Dup14 => 0x8d,
            Opcode::Dup15 => 0x8e,
            Opcode::Dup16 => 0x8f,
            Opcode::Swap1 => 0x90,
            Opcode::Swap2 => 0x91,
            Opcode::Swap3 => 0x92,
            Opcode::Swap4 => 0x93,
            Opcode::Swap5 => 0x94,
            Opcode::Swap6 => 0x95,
            Opcode::Swap7 => 0x96,
            Opcode::Swap8 => 0x97,
            Opcode::Swap9 => 0x98,
            Opcode::Swap10 => 0x99,
            Opcode::Swap11 => 0x9a,
            Opcode::Swap12 => 0x9b,
            Opcode::Swap13 => 0x9c,
            Opcode::Swap14 => 0x9d,
            Opcode::Swap15 => 0x9e,
            Opcode::Swap16 => 0x9f,
            Opcode::Log0 => 0xa0,
            Opcode::Log1 => 0xa1,
            Opcode::Log2 => 0xa2,
            Opcode::Log3 => 0xa3,
            Opcode::Log4 => 0xa4,
            Opcode::Create => 0xf0,
            Opcode::Call => 0xf1,
            Opcode::Callcode => 0xf2,
            Opcode::Return => 0xf3,
            Opcode::Delegatecall => 0xf4,
            Opcode::Create2 => 0xf5,
            Opcode::Staticcall => 0xfa,
            Opcode::Revert => 0xfd,
            Opcode::Invalid => 0xfe,
            Opcode::Selfdestruct => 0xff,
        }
    }

    /// The byte that encodes the opcode in EVM bytecode.
    pub fn byte(&self) -> (b: u8)
        ensures
            b == self.code(),
    {
        match self {
            Opcode::Stop => 0x00,
            Opcode::Add => 0x01,
            Opcode::Mul => 0x02,
            Opcode::Sub => 0x03,
            Opcode::Div => 0x04,
            Opcode::Sdiv => 0x05,
            Opcode::Mod => 0x06,
            Opcode::Smod => 0x07,
            Opcode::Addmod => 0x08,
            Opcode::Mulmod => 0x09,
            Opcode::Exp => 0x0a,
            Opcode::Signextend => 0x0b,
            Opcode::Lt => 0x10,
            Opcode::Gt => 0x11,
            Opcode::Slt => 0x12,
            Opcode::Sgt => 0x13,
            Opcode::Eq => 0x14,
            Opcode::Iszero => 0x15,
            Opcode::And => 0x16,
            Opcode::Or => 0x17,
            Opcode::Xor => 0x18,
            Opcode::Not => 0x19,
            Opcode::Byte => 0x1a,
            Opcode::Shl => 0x1b,
            Opcode::Shr => 0x1c,
            Opcode::Sar => 0x1d,
            Opcode::Sha3 => 0x20,
            Opcode::Address => 0x30,
            Opcode::Balance => 0x31,
            Opcode::Origin => 0x32,
            Opcode::Caller => 0x33,
            Opcode::Callvalue => 0x34,
            Opcode::Calldataload => 0x35,
            Opcode::Calldatasize => 0x36,
            Opcode::Calldatacopy => 0x37,
            Opcode::Codesize => 0x38,
            Opcode::Codecopy => 0x39,
            Opcode::Gasprice => 0x3a,
            Opcode::Extcodesize => 0x3b,
            Opcode::Extcodecopy => 0x3c,
            Opcode::Returndatasize => 0x3d,
            Opcode::Returndatacopy => 0x3e,
            Opcode::Blockhash => 0x40,
            Opcode::Coinbase => 0x41,
            Opcode::Timestamp => 0x42,
            Opcode::Number => 0x43,
            Opcode::Difficulty => 0x44,
            Opcode::Gaslimit => 0x45,
            Opcode::Chainid => 0x46,
            Opcode::Selfbalance => 0x47,
            Opcode::Basefee => 0x48,
            Opcode::Pop => 0x50,
            Opcode::Mload => 0x51,
            Opcode::Mstore => 0x52,
            Opcode::Mstore8 => 0x53,
            Opcode::Sload => 0x54,
            Opcode::Sstore => 0x55,
            Opcode::Jump => 0x56,
            Opcode::Jumpi => 0x57,
            Opcode::Pc => 0x58,
            Opcode::Msize => 0x59,
            Opcode::Gas => 0x5a,
            Opcode::Jumpdest => 0x5b,
            Opcode::Push1 => 0x60,
            Opcode::Push2 => 0x61,
            Opcode::Push3 => 0x62,
            Opcode::Push4 => 0x63,
            Opcode::Push5 => 0x64,
            Opcode::Push6 => 0x65,
            Opcode::Push7 => 0x66,
            Opcode::Push8 => 0x67,
            Opcode::Push9 => 0x68,
            Opcode::Push10 => 0x69,
            Opcode::Push11 => 0x6a,
            Opcode::Push12 => 0x6b,
            Opcode::Push13 => 0x6c,
            Opcode::Push14 => 0x6d,
            Opcode::Push15 => 0x6e,
            Opcode::Push16 => 0x6f,
            Opcode::Push17 => 0x70,
            Opcode::Push18 => 0x71,
            Opcode::Push19 => 0x72,
            Opcode::Push20 => 0x73,
            Opcode::Push21 => 0x74,
            Opcode::Push22 => 0x75,
            Opcode::Push23 => 0x76,
            Opcode::Push24 => 0x77,
            Opcode::Push25 => 0x78,
            Opcode::Push26 => 0x79,
            Opcode::Push27 => 0x7a,
            Opcode::Push28 => 0x7b,
            Opcode::Push29 => 0x7c,
            Opcode::Push30 => 0x7d,
            Opcode::Push31 => 0x7e,
            Opcode::Push32 => 0x7f,
            Opcode::Dup1 => 0x80,
            Opcode::Dup2 => 0x81,
            Opcode::Dup3 => 0x82,
            Opcode::Dup4 => 0x83,
            Opcode::Dup5 => 0x84,
            Opcode::Dup6 => 0x85,
            Opcode::Dup7 => 0x86,
            Opcode::Dup8 => 0x87,
            Opcode::Dup9 => 0x88,
            Opcode::Dup10 => 0x89,
            Opcode::Dup11 => 0x8a,
            Opcode::Dup12 => 0x8b,
            Opcode::Dup13 => 0x8c,
            Opcode::Dup14 => 0x8d,
            Opcode::Dup15 => 0x8e,
            Opcode::Dup16 => 0x8f,
            Opcode::Swap1 => 0x90,
            Opcode::Swap2 => 0x91,
            Opcode::Swap3 => 0x92,
            Opcode::Swap4 => 0x93,
            Opcode::Swap5 => 0x94,
            Opcode::Swap6 => 0x95,
            Opcode::Swap7 => 0x96,
            Opcode::Swap8 => 0x97,
            Opcode::Swap9 => 0x98,
            Opcode::Swap10 => 0x99,
            Opcode::Swap11 => 0x9a,
            Opcode::Swap12 => 0x9b,
            Opcode::Swap13 => 0x9c,
            Opcode::Swap14 => 0x9d,
            Opcode::Swap15 => 0x9e,
            Opcode::Swap16 => 0x9f,
            Opcode::Log0 => 0xa0,
            Opcode::Log1 => 0xa1,
            Opcode::Log2 => 0xa2,
            Opcode::Log3 => 0xa3,
            Opcode::Log4 => 0xa4,
            Opcode::Create => 0xf0,
            Opcode::Call => 0xf1,
            Opcode::Callcode => 0xf2,
            Opcode::Return => 0xf3,
            Opcode::Delegatecall => 0xf4,
            Opcode::Create2 => 0xf5,
            Opcode::Staticcall => 0xfa,
            Opcode::Revert => 0xfd,
            Opcode::Invalid => 0xfe,
            Opcode::Selfdestruct => 0xff,
        }
    }

    /// The opcode that a byte encodes, if any.
    pub open spec fn from_code(b: u8) -> Option<Opcode> {
        if b == 0x00 {
            Some(Opcode::Stop)
        } else if b == 0x01 {
            Some(Opcode::Add)
        } else if b == 0x02 {
            Some(Opcode::Mul)
        } else if b == 0x03 {
            Some(Opcode::Sub)
        } else if b == 0x04 {
            Some(Opcode::Div)
        } else if b == 0x05 {
            Some(Opcode::Sdiv)
        } else if b == 0x06 {
            Some(Opcode::Mod)
        } else if b == 0x07 {
            Some(Opcode::Smod)
        } else if b == 0x08 {
            Some(Opcode::Addmod)
        } else if b == 0x09 {
            Some(Opcode::Mulmod)
        } else if b == 0x0a {
            Some(Opcode::Exp)
        } else if b == 0x0b {
            Some(Opcode::Signextend)
        } else if b == 0x10 {
            Some(Opcode::Lt)
        } else if b == 0x11 {
            Some(Opcode::Gt)
        } else if b == 0x12 {
            Some(Opcode::Slt)
        } else if b == 0x13 {
            Some(Opcode::Sgt)
        } else if b == 0x14 {
            Some(Opcode::Eq)
        } else if b == 0x15 {
            Some(Opcode::Iszero)
        } else if b == 0x16 {
            Some(Opcode::And)
        } else if b == 0x17 {
            Some(Opcode::Or)
        } else if b == 0x18 {
            Some(Opcode::Xor)
        } else if b == 0x19 {
            Some(Opcode::Not)
        } else if b == 0x1a {
            Some(Opcode::Byte)
        } else if b == 0x1b {
            Some(Opcode::Shl)
        } else if b == 0x1c {
            Some(Opcode::Shr)
        } else if b == 0x1d {
            Some(Opcode::Sar)
        } else if b == 0x20 {
            Some(Opcode::Sha3)
        } else if b == 0x30 {
            Some(Opcode::Address)
        } else if b == 0x31 {
            Some(Opcode::Balance)
        } else if b == 0x32 {
            Some(Opcode::Origin)
        } else if b == 0x33 {
            Some(Opcode::Caller)
        } else if b == 0x34 {
            Some(Opcode::Callvalue)
        } else if b == 0x35 {
            Some(Opcode::Calldataload)
        } else if b == 0x36 {
            Some(Opcode::Calldatasize)
        } else if b == 0x37 {
            Some(Opcode::Calldatacopy)
        } else if b == 0x38 {
            Some(Opcode::Codesize)
        } else if b == 0x39 {
            Some(Opcode::Codecopy)
        } else if b == 0x3a {
            Some(Opcode::Gasprice)
        } else if b == 0x3b {
            Some(Opcode::Extcodesize)
        } else if b == 0x3c {
            Some(Opcode::Extcodecopy)
        } else if b == 0x3d {
            Some(Opcode::Returndatasize)
        } else if b == 0x3e {
            Some(Opcode::Returndatacopy)
        } else if b == 0x40 {
            Some(Opcode::Blockhash)
        } else if b == 0x41 {
            Some(Opcode::Coinbase)
        } else if b == 0x42 {
            Some(Opcode::Timestamp)
        } else if b == 0x43 {
            Some(Opcode::Number)
        } else if b == 0x44 {
            Some(Opcode::Difficulty)
        } else if b == 0x45 {
            Some(Opcode::Gaslimit)
        } else if b == 0x46 {
            Some(Opcode::Chainid)
        } else if b == 0x47 {
            Some(Opcode::Selfbalance)
        } else if b == 0x48 {
            Some(Opcode::Basefee)
        } else if b == 0x50 {
            Some(Opcode::Pop)
        } else if b == 0x51 {
            Some(Opcode::Mload)
        } else if b == 0x52 {
            Some(Opcode::Mstore)
        } else if b == 0x53 {
            Some(Opcode::Mstore8)
        } else if b == 0x54 {
            Some(Opcode::Sload)
        } else if b == 0x55 {
            Some(Opcode::Sstore)
        } else if b == 0x56 {
            Some(Opcode::Jump)
        } else if b == 0x57 {
            Some(Opcode::Jumpi)
        } else if b == 0x58 {
            Some(Opcode::Pc)
        } else if b == 0x59 {
            Some(Opcode::Msize)
        } else if b == 0x5a {
            Some(Opcode::Gas)
        } else if b == 0x5b {
            Some(Opcode::Jumpdest)
        } else if b == 0x60 {
            Some(Opcode::Push1)
        } else if b == 0x61 {
            Some(Opcode::Push2)
        } else if b == 0x62 {
            Some(Opcode::Push3)
        } else if b == 0x63 {
            Some(Opcode::Push4)
        } else if b == 0x64 {
            Some(Opcode::Push5)
        } else if b == 0x65 {
            Some(Opcode::Push6)
        } else if b == 0x66 {
            Some(Opcode::Push7)
        } else if b == 0x67 {
            Some(Opcode::Push8)
        } else if b == 0x68 {
            Some(Opcode::Push9)
        } else if b == 0x69 {
            Some(Opcode::Push10)
        } else if b == 0x6a {
            Some(Opcode::Push11)
        } else if b == 0x6b {
            Some(Opcode::Push12)
        } else if b == 0x6c {
            Some(Opcode::Push13)
        } else if b == 0x6d {
            Some(Opcode::Push14)
        } else if b == 0x6e {
            Some(Opcode::Push15)
        } else if b == 0x6f {
            Some(Opcode::Push16)
        } else if b == 0x70 {
            Some(Opcode::Push17)
        } else if b == 0x71 {
            Some(Opcode::Push18)
        } else if b == 0x72 {
            Some(Opcode::Push19)
        } else if b == 0x73 {
            Some(Opcode::Push20)
        } else if b == 0x74 {
            Some(Opcode::Push21)
        } else if b == 0x75 {
            Some(Opcode::Push22)
        } else if b == 0x76 {
            Some(Opcode::Push23)
        } else if b == 0x77 {
            Some(Opcode::Push24)
        } else if b == 0x78 {
            Some(Opcode::Push25)
        } else if b == 0x79 {
            Some(Opcode::Push26)
        } else if b == 0x7a {
            Some(Opcode::Push27)
        } else if b == 0x7b {
            Some(Opcode::Push28)
        } else if b == 0x7c {
            Some(Opcode::Push29)
        } else if b == 0x7d {
            Some(Opcode::Push30)
        } else if b == 0x7e {
            Some(Opcode::Push31)
        } else if b == 0x7f {
            Some(Opcode::Push32)
        } else if b == 0x80 {
            Some(Opcode::Dup1)
        } else if b == 0x81 {
            Some(Opcode::Dup2)
        } else if b == 0x82 {
            Some(Opcode::Dup3)
        } else if b == 0x83 {
            Some(Opcode::Dup4)
        } else if b == 0x84 {
            Some(Opcode::Dup5)
        } else if b == 0x85 {
            Some(Opcode::Dup6)
        } else if b == 0x86 {
            Some(Opcode::Dup7)
        } else if b == 0x87 {
            Some(Opcode::Dup8)
        } else if b == 0x88 {
            Some(Opcode::Dup9)
        } else if b == 0x89 {
            Some(Opcode::Dup10)
        } else if b == 0x8a {
            Some(Opcode::Dup11)
        } else if b == 0x8b {
            Some(Opcode::Dup12)
        } else if b == 0x8c {
            Some(Opcode::Dup13)
        } else if b == 0x8d {
            Some(Opcode::Dup14)
        } else if b == 0x8e {
            Some(Opcode::Dup15)
        } else if b == 0x8f {
            Some(Opcode::Dup16)
        } else if b == 0x90 {
            Some(Opcode::Swap1)
        } else if b == 0x91 {
            Some(Opcode::Swap2)
        } else if b == 0x92 {
            Some(Opcode::Swap3)
        } else if b == 0x93 {
            Some(Opcode::Swap4)
        } else if b == 0x94 {
            Some(Opcode::Swap5)
        } else if b == 0x95 {
            Some(Opcode::Swap6)
        } else if b == 0x96 {
            Some(Opcode::Swap7)
        } else if b == 0x97 {
            Some(Opcode::Swap8)
        } else if b == 0x98 {
            Some(Opcode::Swap9)
        } else if b == 0x99 {
            Some(Opcode::Swap10)
        } else if b == 0x9a {
            Some(Opcode::Swap11)
        } else if b == 0x9b {
            Some(Opcode::Swap12)
        } else if b == 0x9c {
            Some(Opcode::Swap13)
        } else if b == 0x9d {
            Some(Opcode::Swap14)
        } else if b == 0x9e {
            Some(Opcode::Swap15)
        } else if b == 0x9f {
            Some(Opcode::Swap16)
        } else if b == 0xa0 {
            Some(Opcode::Log0)
        } else if b == 0xa1 {
            Some(Opcode::Log1)
        } else if b == 0xa2 {
            Some(Opcode::Log2)
        } else if b == 0xa3 {
            Some(Opcode::Log3)
        } else if b == 0xa4 {
            Some(Opcode::Log4)
        } else if b == 0xf0 {
            Some(Opcode::Create)
        } else if b == 0xf1 {
            Some(Opcode::Call)
        } else if b == 0xf2 {
            Some(Opcode::Callcode)
        } else if b == 0xf3 {
            Some(Opcode::Return)
        } else if b == 0xf4 {
            Some(Opcode::Delegatecall)
        } else if b == 0xf5 {
            Some(Opcode::Create2)
        } else if b == 0xfa {
            Some(Opcode::Staticcall)
        } else if b == 0xfd {
            Some(Opcode::Revert)
        } else if b == 0xfe {
            Some(Opcode::Invalid)
        } else if b == 0xff {
            Some(Opcode::Selfdestruct)
        } else {
            None
        }
    }
}

impl Opcode {
    /// Translates an opcode into its byte as two lower-case hex digits (`Push1` gives `60`).
    pub fn string(&self) -> (s: String)
        ensures
            s@ == hex_of_bytes(seq![self.code()]),
    {
        let b = self.byte();
        let mut v: Vec<char> = Vec::new();
        v.push(hex_digit_char(b / 16));
        v.push(hex_digit_char(b % 16));
        proof {
            lemma_hex_of_byte(b);
            assert(v@ =~= hex_of_bytes(seq![b]));
        }
        string_of(&v)
    }
}

/// Reading back the byte of an opcode gives the opcode: no two opcodes share a byte.
pub proof fn lemma_code_decodes(op: Opcode)
    ensures
        Opcode::from_code(op.code()) == Some(op),
{
}

proof fn lemma_hex_char_injective(a: nat, b: nat)
    requires
        a < 16,
        b < 16,
        hex_char(a) == hex_char(b),
    ensures
        a == b,
{
}

/// Distinct opcodes translate to distinct strings.
pub proof fn lemma_string_injective(a: Opcode, b: Opcode)
    requires
        a != b,
    ensures
        hex_of_bytes(seq![a.code()]) != hex_of_bytes(seq![b.code()]),
{
    lemma_code_decodes(a);
    lemma_code_decodes(b);
    let x = a.code();
    let y = b.code();
    lemma_hex_of_byte(x);
    lemma_hex_of_byte(y);
    let hx = hex_of_bytes(seq![x]);
    let hy = hex_of_bytes(seq![y]);
    assert(hx =~= seq![hex_char(x as nat / 16), hex_char(x as nat % 16)]);
    assert(hy =~= seq![hex_char(y as nat / 16), hex_char(y as nat % 16)]);
    if hx == hy {
        assert(hx[0] == hy[0]);
        assert(hx[1] == hy[1]);
        lemma_hex_char_injective(x as nat / 16, y as nat / 16);
        lemma_hex_char_injective(x as nat % 16, y as nat % 16);
        assert(x == y);
    }
}


impl Opcode {
    /// The name of the opcode as `Debug` writes it: its variant's name.
    pub open spec fn name_text(self) -> Seq<char> {
        match self {
            Opcode::Stop => seq!['S', 't', 'o', 'p'],
            Opcode::Add => seq!['A', 'd', 'd'],
            Opcode::Mul => seq!['M', 'u', 'l'],
            Opcode::Sub => seq!['S', 'u', 'b'],
            Opcode::Div => seq!['D', 'i', 'v'],
            Opcode::Sdiv => seq!['S', 'd', 'i', 'v'],
            Opcode::Mod => seq!['M', 'o', 'd'],
            Opcode::Smod => seq!['S', 'm', 'o', 'd'],
            Opcode::Addmod => seq!['A', 'd', 'd', 'm', 'o', 'd'],
            Opcode::Mulmod => seq!['M', 'u', 'l', 'm', 'o', 'd'],
            Opcode::Exp => seq!['E', 'x', 'p'],
            Opcode::Signextend => seq!['S', 'i', 'g', 'n', 'e', 'x', 't', 'e', 'n', 'd'],
            Opcode::Lt => seq!['L', 't'],
            Opcode::Gt => seq!['G', 't'],
            Opcode::Slt => seq!['S', 'l', 't'],
            Opcode::Sgt => seq!['S', 'g', 't'],
            Opcode::Eq => seq!['E', 'q'],
            Opcode::Iszero => seq!['I', 's', 'z', 'e', 'r', 'o'],
            Opcode::And => seq!['A', 'n', 'd'],
            Opcode::Or => seq!['O', 'r'],
            Opcode::Xor => seq!['X', 'o', 'r'],
            Opcode::Not => seq!['N', 'o', 't'],
            Opcode::Byte => seq!['B', 'y', 't', 'e'],
            Opcode::Shl => seq!['S', 'h', 'l'],
            Opcode::Shr => seq!['S', 'h', 'r'],
            Opcode::Sar => seq!['S', 'a', 'r'],
            Opcode::Sha3 => seq!['S', 'h', 'a', '3'],
            Opcode::Address => seq!['A', 'd', 'd', 'r', 'e', 's', 's'],
            Opcode::Balance => seq!['B', 'a', 'l', 'a', 'n', 'c', 'e'],
            Opcode::Origin => seq!['O', 'r', 'i', 'g', 'i', 'n'],
            Opcode::Caller => seq!['C', 'a', 'l', 'l', 'e', 'r'],
            Opcode::Callvalue => seq!['C', 'a', 'l', 'l', 'v', 'a', 'l', 'u', 'e'],
            Opcode::Calldataload => seq!['C', 'a', 'l', 'l', 'd', 'a', 't', 'a', 'l', 'o', 'a', 'd'],
            Opcode::Calldatasize => seq!['C', 'a', 'l', 'l', 'd', 'a', 't', 'a', 's', 'i', 'z', 'e'],
            Opcode::Calldatacopy => seq!['C', 'a', 'l', 'l', 'd', 'a', 't', 'a', 'c', 'o', 'p', 'y'],
            Opcode::Codesize => seq!['C', 'o', 'd', 'e', 's', 'i', 'z', 'e'],
            Opcode::Codecopy => seq!['C', 'o', 'd', 'e', 'c', 'o', 'p', 'y'],
            Opcode::Gasprice => seq!['G', 'a', 's', 'p', 'r', 'i', 'c', 'e'],
            Opcode::Extcodesize => seq!['E', 'x', 't', 'c', 'o', 'd', 'e', 's', 'i', 'z', 'e'],
            Opcode::Extcodecopy => seq!['E', 'x', 't', 'c', 'o', 'd', 'e', 'c', 'o', 'p', 'y'],
            Opcode::Returndatasize => seq!['R', 'e', 't', 'u', 'r', 'n', 'd', 'a', 't', 'a', 's', 'i', 'z', 'e'],
            Opcode::Returndatacopy => seq!['R', 'e', 't', 'u', 'r', 'n', 'd', 'a', 't', 'a', 'c', 'o', 'p', 'y'],
            Opcode::Blockhash => seq!['B', 'l', 'o', 'c', 'k', 'h', 'a', 's', 'h'],
            Opcode::Coinbase => seq!['C', 'o', 'i', 'n', 'b', 'a', 's', 'e'],
            Opcode::Timestamp => seq!['T', 'i', 'm', 'e', 's', 't', 'a', 'm', 'p'],
            Opcode::Number => seq!['N', 'u', 'm', 'b', 'e', 'r'],
            Opcode::Difficulty => seq!['D', 'i', 'f', 'f', 'i', 'c', 'u', 'l', 't', 'y'],
            Opcode::Gaslimit => seq!['G', 'a', 's', 'l', 'i', 'm', 'i', 't'],
            Opcode::Chainid => seq!['C', 'h', 'a', 'i', 'n', 'i', 'd'],
            Opcode::Selfbalance => seq!['S', 'e', 'l', 'f', 'b', 'a', 'l', 'a', 'n', 'c', 'e'],
            Opcode::Basefee => seq!['B', 'a', 's', 'e', 'f', 'e', 'e'],
            Opcode::Pop => seq!['P', 'o', 'p'],
            Opcode::Mload => seq!['M', 'l', 'o', 'a', 'd'],
            Opcode::Mstore => seq!['M', 's', 't', 'o', 'r', 'e'],
            Opcode::Mstore8 => seq!['M', 's', 't', 'o', 'r', 'e', '8'],
            Opcode::Sload => seq!['S', 'l', 'o', 'a', 'd'],
            Opcode::Sstore => seq!['S', 's', 't', 'o', 'r', 'e'],
            Opcode::Jump => seq!['J', 'u', 'm', 'p'],
            Opcode::Jumpi => seq!['J', 'u', 'm', 'p', 'i'],
            Opcode::Pc => seq!['P', 'c'],
            Opcode::Msize => seq!['M', 's', 'i', 'z', 'e'],
            Opcode::Gas => seq!['G', 'a', 's'],
            Opcode::Jumpdest => seq!['J', 'u', 'm', 'p', 'd', 'e', 's', 't'],
            Opcode::Push1 => seq!['P', 'u', 's', 'h', '1'],
            Opcode::Push2 => seq!['P', 'u', 's', 'h', '2'],
            Opcode::Push3 => seq!['P', 'u', 's', 'h', '3'],
            Opcode::Push4 => seq!['P', 'u', 's', 'h', '4'],
            Opcode::Push5 => seq!['P', 'u', 's', 'h', '5'],
            Opcode::Push6 => seq!['P', 'u', 's', 'h', '6'],
            Opcode::Push7 => seq!['P', 'u', 's', 'h', '7'],
            Opcode::Push8 => seq!['P', 'u', 's', 'h', '8'],
            Opcode::Push9 => seq!['P', 'u', 's', 'h', '9'],
            Opcode::Push10 => seq!['P', 'u', 's', 'h', '1', '0'],
            Opcode::Push11 => seq!['P', 'u', 's', 'h', '1', '1'],
            Opcode::Push12 => seq!['P', 'u', 's', 'h', '1', '2'],
            Opcode::Push13 => seq!['P', 'u', 's', 'h', '1', '3'],
            Opcode::Push14 => seq!['P', 'u', 's', 'h', '1', '4'],
            Opcode::Push15 => seq!['P', 'u', 's', 'h', '1', '5'],
            Opcode::Push16 => seq!['P', 'u', 's', 'h', '1', '6'],
            Opcode::Push17 => seq!['P', 'u', 's', 'h', '1', '7'],
            Opcode::Push18 => seq!['P', 'u', 's', 'h', '1', '8'],
            Opcode::Push19 => seq!['P', 'u', 's', 'h', '1', '9'],
            Opcode::Push20 => seq!['P', 'u', 's', 'h', '2', '0'],
            Opcode::Push21 => seq!['P', 'u', 's', 'h', '2', '1'],
            Opcode::Push22 => seq!['P', 'u', 's', 'h', '2', '2'],
            Opcode::Push23 => seq!['P', 'u', 's', 'h', '2', '3'],
            Opcode::Push24 => seq!['P', 'u', 's', 'h', '2', '4'],
            Opcode::Push25 => seq!['P', 'u', 's', 'h', '2', '5'],
            Opcode::Push26 => seq!['P', 'u', 's', 'h', '2', '6'],
            Opcode::Push27 => seq!['P', 'u', 's', 'h', '2', '7'],
            Opcode::Push28 => seq!['P', 'u', 's', 'h', '2', '8'],
            Opcode::Push29 => seq!['P', 'u', 's', 'h', '2', '9'],
            Opcode::Push30 => seq!['P', 'u', 's', 'h', '3', '0'],
            Opcode::Push31 => seq!['P', 'u', 's', 'h', '3', '1'],
            Opcode::Push32 => seq!['P', 'u', 's', 'h', '3', '2'],
            Opcode::Dup1 => seq!['D', 'u', 'p', '1'],
            Opcode::Dup2 => seq!['D', 'u', 'p', '2'],
            Opcode::Dup3 => seq!['D', 'u', 'p', '3'],
            Opcode::Dup4 => seq!['D', 'u', 'p', '4'],
            Opcode::Dup5 => seq!['D', 'u', 'p', '5'],
            Opcode::Dup6 => seq!['D', 'u', 'p', '6'],
            Opcode::Dup7 => seq!['D', 'u', 'p', '7'],
            Opcode::Dup8 => seq!['D', 'u', 'p', '8'],
            Opcode::Dup9 => seq!['D', 'u', 'p', '9'],
            Opcode::Dup10 => seq!['D', 'u', 'p', '1', '0'],
            Opcode::Dup11 => seq!['D', 'u', 'p', '1', '1'],
            Opcode::Dup12 => seq!['D', 'u', 'p', '1', '2'],
            Opcode::Dup13 => seq!['D', 'u', 'p', '1', '3'],
            Opcode::Dup14 => seq!['D', 'u', 'p', '1', '4'],
            Opcode::Dup15 => seq!['D', 'u', 'p', '1', '5'],
            Opcode::Dup16 => seq!['D', 'u', 'p', '1', '6'],
            Opcode::Swap1 => seq!['S', 'w', 'a', 'p', '1'],
            Opcode::Swap2 => seq!['S', 'w', 'a', 'p', '2'],
            Opcode::Swap3 => seq!['S', 'w', 'a', 'p', '3'],
            Opcode::Swap4 => seq!['S', 'w', 'a', 'p', '4'],
            Opcode::Swap5 => seq!['S', 'w', 'a', 'p', '5'],
            Opcode::Swap6 => seq!['S', 'w', 'a', 'p', '6'],
            Opcode::Swap7 => seq!['S', 'w', 'a', 'p', '7'],
            Opcode::Swap8 => seq!['S', 'w', 'a', 'p', '8'],
            Opcode::Swap9 => seq!['S', 'w', 'a', 'p', '9'],
            Opcode::Swap10 => seq!['S', 'w', 'a', 'p', '1', '0'],
            Opcode::Swap11 => seq!['S', 'w', 'a', 'p', '1', '1'],
            Opcode::Swap12 => seq!['S', 'w', 'a', 'p', '1', '2'],
            Opcode::Swap13 => seq!['S', 'w', 'a', 'p', '1', '3'],
            Opcode::Swap14 => seq!['S', 'w', 'a', 'p', '1', '4'],
            Opcode::Swap15 => seq!['S', 'w', 'a', 'p', '1', '5'],
            Opcode::Swap16 => seq!['S', 'w', 'a', 'p', '1', '6'],
            Opcode::Log0 => seq!['L', 'o', 'g', '0'],
            Opcode::Log1 => seq!['L', 'o', 'g', '1'],
            Opcode::Log2 => seq!['L', 'o', 'g', '2'],
            Opcode::Log3 => seq!['L', 'o', 'g', '3'],
            Opcode::Log4 => seq!['L', 'o', 'g', '4'],
            Opcode::Create => seq!['C', 'r', 'e', 'a', 't', 'e'],
            Opcode::Call => seq!['C', 'a', 'l', 'l'],
            Opcode::Callcode => seq!['C', 'a', 'l', 'l', 'c', 'o', 'd', 'e'],
            Opcode::Return => seq!['R', 'e', 't', 'u', 'r', 'n'],
            Opcode::Delegatecall => seq!['D', 'e', 'l', 'e', 'g', 'a', 't', 'e', 'c', 'a', 'l', 'l'],
            Opcode::Create2 => seq!['C', 'r', 'e', 'a', 't', 'e', '2'],
            Opcode::Staticcall => seq!['S', 't', 'a', 't', 'i', 'c', 'c', 'a', 'l', 'l'],
            Opcode::Revert => seq!['R', 'e', 'v', 'e', 'r', 't'],
            Opcode::Invalid => seq!['I', 'n', 'v', 'a', 'l', 'i', 'd'],
            Opcode::Selfdestruct => seq!['S', 'e', 'l', 'f', 'd', 'e', 's', 't', 'r', 'u', 'c', 't'],
        }
    }

    /// The name of the opcode as `Debug` writes it: its variant's name.
    pub fn name(&self) -> (r: &'static str)
        ensures
            r@ == self.name_text(),
    {
        proof {
            reveal_strlit("Stop");
            reveal_strlit("Add");
            reveal_strlit("Mul");
            reveal_strlit("Sub");
            reveal_strlit("Div");
            reveal_strlit("Sdiv");
            reveal_strlit("Mod");
            reveal_strlit("Smod");
            reveal_strlit("Addmod");
            reveal_strlit("Mulmod");
            reveal_strlit("Exp");
            reveal_strlit("Signextend");
            reveal_strlit("Lt");
            reveal_strlit("Gt");
            reveal_strlit("Slt");
            reveal_strlit("Sgt");
            reveal_strlit("Eq");
            reveal_strlit("Iszero");
            reveal_strlit("And");
            reveal_strlit("Or");
            reveal_strlit("Xor");
            reveal_strlit("Not");
            reveal_strlit("Byte");
            reveal_strlit("Shl");
            reveal_strlit("Shr");
            reveal_strlit("Sar");
            reveal_strlit("Sha3");
            reveal_strlit("Address");
            reveal_strlit("Balance");
            reveal_strlit("Origin");
            reveal_strlit("Caller");
            reveal_strlit("Callvalue");
            reveal_strlit("Calldataload");
            reveal_strlit("Calldatasize");
            reveal_strlit("Calldatacopy");
            reveal_strlit("Codesize");
            reveal_strlit("Codecopy");
            reveal_strlit("Gasprice");
            reveal_strlit("Extcodesize");
            reveal_strlit("Extcodecopy");
            reveal_strlit("Returndatasize");
            reveal_strlit("Returndatacopy");
            reveal_strlit("Blockhash");
            reveal_strlit("Coinbase");
            reveal_strlit("Timestamp");
            reveal_strlit("Number");
            reveal_strlit("Difficulty");
            reveal_strlit("Gaslimit");
            reveal_strlit("Chainid");
            reveal_strlit("Selfbalance");
            reveal_strlit("Basefee");
            reveal_strlit("Pop");
            reveal_strlit("Mload");
            reveal_strlit("Mstore");
            reveal_strlit("Mstore8");
            reveal_strlit("Sload");
            reveal_strlit("Sstore");
            reveal_strlit("Jump");
            reveal_strlit("Jumpi");
            reveal_strlit("Pc");
            reveal_strlit("Msize");
            reveal_strlit("Gas");
            reveal_strlit("Jumpdest");
            reveal_strlit("Push1");
            reveal_strlit("Push2");
            reveal_strlit("Push3");
            reveal_strlit("Push4");
            reveal_strlit("Push5");
            reveal_strlit("Push6");
            reveal_strlit("Push7");
            reveal_strlit("Push8");
            reveal_strlit("Push9");
            reveal_strlit("Push10");
            reveal_strlit("Push11");
            reveal_strlit("Push12");
            reveal_strlit("Push13");
            reveal_strlit("Push14");
            reveal_strlit("Push15");
            reveal_strlit("Push16");
            reveal_strlit("Push17");
            reveal_strlit("Push18");
            reveal_strlit("Push19");
            reveal_strlit("Push20");
            reveal_strlit("Push21");
            reveal_strlit("Push22");
            reveal_strlit("Push23");
            reveal_strlit("Push24");
            reveal_strlit("Push25");
            reveal_strlit("Push26");
            reveal_strlit("Push27");
            reveal_strlit("Push28");
            reveal_strlit("Push29");
            reveal_strlit("Push30");
            reveal_strlit("Push31");
            reveal_strlit("Push32");
            reveal_strlit("Dup1");
            reveal_strlit("Dup2");
            reveal_strlit("Dup3");
            reveal_strlit("Dup4");
            reveal_strlit("Dup5");
            reveal_strlit("Dup6");
            reveal_strlit("Dup7");
            reveal_strlit("Dup8");
            reveal_strlit("Dup9");
            reveal_strlit("Dup10");
            reveal_strlit("Dup11");
            reveal_strlit("Dup12");
            reveal_strlit("Dup13");
            reveal_strlit("Dup14");
            reveal_strlit("Dup15");
            reveal_strlit("Dup16");
            reveal_strlit("Swap1");
            reveal_strlit("Swap2");
            reveal_strlit("Swap3");
            reveal_strlit("Swap4");
            reveal_strlit("Swap5");
            reveal_strlit("Swap6");
            reveal_strlit("Swap7");
            reveal_strlit("Swap8");
            reveal_strlit("Swap9");
            reveal_strlit("Swap10");
            reveal_strlit("Swap11");
            reveal_strlit("Swap12");
            reveal_strlit("Swap13");
            reveal_strlit("Swap14");
            reveal_strlit("Swap15");
            reveal_strlit("Swap16");
            reveal_strlit("Log0");
            reveal_strlit("Log1");
            reveal_strlit("Log2");
            reveal_strlit("Log3");
            reveal_strlit("Log4");
            reveal_strlit("Create");
            reveal_strlit("Call");
            reveal_strlit("Callcode");
            reveal_strlit("Return");
            reveal_strlit("Delegatecall");
            reveal_strlit("Create2");
            reveal_strlit("Staticcall");
            reveal_strlit("Revert");
            reveal_strlit("Invalid");
            reveal_strlit("Selfdestruct");
        }
        match self {
            Opcode::Stop => "Stop",
            Opcode::Add => "Add",
            Opcode::Mul => "Mul",
            Opcode::Sub => "Sub",
            Opcode::Div => "Div",
            Opcode::Sdiv => "Sdiv",
            Opcode::Mod => "Mod",
            Opcode::Smod => "Smod",
            Opcode::Addmod => "Addmod",
            Opcode::Mulmod => "Mulmod",
            Opcode::Exp => "Exp",
            Opcode::Signextend => "Signextend",
            Opcode::Lt => "Lt",
            Opcode::Gt => "Gt",
            Opcode::Slt => "Slt",
            Opcode::Sgt => "Sgt",
            Opcode::Eq => "Eq",
            Opcode::Iszero => "Iszero",
            Opcode::And => "And",
            Opcode::Or => "Or",
            Opcode::Xor => "Xor",
            Opcode::Not => "Not",
            Opcode::Byte => "Byte",
            Opcode::Shl => "Shl",
            Opcode::Shr => "Shr",
            Opcode::Sar => "Sar",
            Opcode::Sha3 => "Sha3",
            Opcode::Address => "Address",
            Opcode::Balance => "Balance",
            Opcode::Origin => "Origin",
            Opcode::Caller => "Caller",
            Opcode::Callvalue => "Callvalue",
            Opcode::Calldataload => "Calldataload",
            Opcode::Calldatasize => "Calldatasize",
            Opcode::Calldatacopy => "Calldatacopy",
            Opcode::Codesize => "Codesize",
            Opcode::Codecopy => "Codecopy",
            Opcode::Gasprice => "Gasprice",
            Opcode::Extcodesize => "Extcodesize",
            Opcode::Extcodecopy => "Extcodecopy",
            Opcode::Returndatasize => "Returndatasize",
            Opcode::Returndatacopy => "Returndatacopy",
            Opcode::Blockhash => "Blockhash",
            Opcode::Coinbase => "Coinbase",
            Opcode::Timestamp => "Timestamp",
            Opcode::Number => "Number",
            Opcode::Difficulty => "Difficulty",
            Opcode::Gaslimit => "Gaslimit",
            Opcode::Chainid => "Chainid",
            Opcode::Selfbalance => "Selfbalance",
            Opcode::Basefee => "Basefee",
            Opcode::Pop => "Pop",
            Opcode::Mload => "Mload",
            Opcode::Mstore => "Mstore",
            Opcode::Mstore8 => "Mstore8",
            Opcode::Sload => "Sload",
            Opcode::Sstore => "Sstore",
            Opcode::Jump => "Jump",
            Opcode::Jumpi => "Jumpi",
            Opcode::Pc => "Pc",
            Opcode::Msize => "Msize",
            Opcode::Gas => "Gas",
            Opcode::Jumpdest => "Jumpdest",
            Opcode::Push1 => "Push1",
            Opcode::Push2 => "Push2",
            Opcode::Push3 => "Push3",
            Opcode::Push4 => "Push4",
            Opcode::Push5 => "Push5",
            Opcode::Push6 => "Push6",
            Opcode::Push7 => "Push7",
            Opcode::Push8 => "Push8",
            Opcode::Push9 => "Push9",
            Opcode::Push10 => "Push10",
            Opcode::Push11 => "Push11",
            Opcode::Push12 => "Push12",
            Opcode::Push13 => "Push13",
            Opcode::Push14 => "Push14",
            Opcode::Push15 => "Push15",
            Opcode::Push16 => "Push16",
            Opcode::Push17 => "Push17",
            Opcode::Push18 => "Push18",
            Opcode::Push19 => "Push19",
            Opcode::Push20 => "Push20",
            Opcode::Push21 => "Push21",
            Opcode::Push22 => "Push22",
            Opcode::Push23 => "Push23",
            Opcode::Push24 => "Push24",
            Opcode::Push25 => "Push25",
            Opcode::Push26 => "Push26",
            Opcode::Push27 => "Push27",
            Opcode::Push28 => "Push28",
            Opcode::Push29 => "Push29",
            Opcode::Push30 => "Push30",
            Opcode::Push31 => "Push31",
            Opcode::Push32 => "Push32",
            Opcode::Dup1 => "Dup1",
            Opcode::Dup2 => "Dup2",
            Opcode::Dup3 => "Dup3",
            Opcode::Dup4 => "Dup4",
            Opcode::Dup5 => "Dup5",
            Opcode::Dup6 => "Dup6",
            Opcode::Dup7 => "Dup7",
            Opcode::Dup8 => "Dup8",
            Opcode::Dup9 => "Dup9",
            Opcode::Dup10 => "Dup10",
            Opcode::Dup11 => "Dup11",
            Opcode::Dup12 => "Dup12",
            Opcode::Dup13 => "Dup13",
            Opcode::Dup14 => "Dup14",
            Opcode::Dup15 => "Dup15",
            Opcode::Dup16 => "Dup16",
            Opcode::Swap1 => "Swap1",
            Opcode::Swap2 => "Swap2",
            Opcode::Swap3 => "Swap3",
            Opcode::Swap4 => "Swap4",
            Opcode::Swap5 => "Swap5",
            Opcode::Swap6 => "Swap6",
            Opcode::Swap7 => "Swap7",
            Opcode::Swap8 => "Swap8",
            Opcode::Swap9 => "Swap9",
            Opcode::Swap10 => "Swap10",
            Opcode::Swap11 => "Swap11",
            Opcode::Swap12 => "Swap12",
            Opcode::Swap13 => "Swap13",
            Opcode::Swap14 => "Swap14",
            Opcode::Swap15 => "Swap15",
            Opcode::Swap16 => "Swap16",
            Opcode::Log0 => "Log0",
            Opcode::Log1 => "Log1",
            Opcode::Log2 => "Log2",
            Opcode::Log3 => "Log3",
            Opcode::Log4 => "Log4",
            Opcode::Create => "Create",
            Opcode::Call => "Call",
            Opcode::Callcode => "Callcode",
            Opcode::Return => "Return",
            Opcode::Delegatecall => "Delegatecall",
            Opcode::Create2 => "Create2",
            Opcode::Staticcall => "Staticcall",
            Opcode::Revert => "Revert",
            Opcode::Invalid => "Invalid",
            Opcode::Selfdestruct => "Selfdestruct",
        }
    }
}

} // verus!

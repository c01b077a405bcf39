//! Primitive EVM types, and reading ABI values from text.

use ethers_core::abi::{Token, Tokenizable};
use ethers_core::types::{H160, U256};
use std::num::ParseIntError;
use std::str::FromStr;
use vstd::prelude::*;
use vstd::string::StringSliceAdditionalSpecFns;
use vstd::utf8::encode_utf8;

use crate::abi::{split_chars, split_on};
use crate::bytes_util::{
    bytes32_of_text, bytes32_text_ok, format_even_bytes, hex_digit, hex_pairs_from, read_hex_pairs,
    str_to_bytes32,
};
use crate::files::lemma_encode_utf8_concat;

use crate::text::{chars_eq, chars_of, contains_char, decimal_text, has_prefix, parse_usize, push_chars, push_vec, slice_chars, starts_with_chars, string_of, usize_text, usize_value};

verus! {

/// Primitive EVM types
#[derive(Debug, PartialEq, Eq, PartialOrd, Ord, Clone, Copy, Structural)]
pub enum PrimitiveEVMType {
    /// String type
    String,
    /// Bytes array type
    DynBytes,
    /// Boolean type
    Bool,
    /// Uint ; should start from uint8 to uint256 by step of 8
    Uint(usize),
    /// Int ; should start from int8 to int256 by step of 8
    Int(usize),
    /// Address type
    Address,
    /// Bytes type ; bytes1, bytes2, ..., bytes32
    Bytes(usize),
}

/// `uint`
pub open spec fn uint_word() -> Seq<char> {
    seq!['u', 'i', 'n', 't']
}

/// `int`
pub open spec fn int_word() -> Seq<char> {
    seq!['i', 'n', 't']
}

/// `bytes`
pub open spec fn bytes_word() -> Seq<char> {
    seq!['b', 'y', 't', 'e', 's']
}

/// `bool`
pub open spec fn bool_word() -> Seq<char> {
    seq!['b', 'o', 'o', 'l']
}

/// `address`
pub open spec fn address_word() -> Seq<char> {
    seq!['a', 'd', 'd', 'r', 'e', 's', 's']
}

/// `string`
pub open spec fn string_word() -> Seq<char> {
    seq!['s', 't', 'r', 'i', 'n', 'g']
}

/// The size after a type word: 256 where there is none, else the number it reads as.
pub open spec fn type_size(rest: Seq<char>) -> Option<nat> {
    if rest.len() == 0 {
        Some(256)
    } else {
        usize_value(rest)
    }
}

/// Whether an integer width is one the EVM has: a multiple of 8 from 8 to 256.
pub open spec fn int_width_ok(n: nat) -> bool {
    n % 8 == 0 && 8 <= n <= 256
}

/// Whether a fixed byte size is one the EVM has: 1 to 32.
pub open spec fn bytes_size_ok(n: nat) -> bool {
    1 <= n <= 32
}

/// What `PrimitiveEVMType::try_from` gives for a text: `uint` and `int` with an optional
/// width (256 by default) that is a multiple of 8 from 8 to 256, `bytes` with a size from 1
/// to 32, `bool`, `address`, `string` and `bytes`; an error message otherwise (a width or
/// size out of range is refused with the same message as one that is no number).
pub open spec fn primitive_of(input: Seq<char>) -> Result<PrimitiveEVMType, Seq<char>> {
    if has_prefix(input, uint_word()) {
        let rest = input.skip(4);
        match type_size(rest) {
            Some(n) if int_width_ok(n) => Ok(PrimitiveEVMType::Uint(n as usize)),
            _ => Err(seq!['I', 'n', 'v', 'a', 'l', 'i', 'd', ' ', 'u', 'i', 'n', 't', ' ', 's', 'i', 'z', 'e', ' ', ':', ' '] + rest),
        }
    } else if has_prefix(input, int_word()) {
        let rest = input.skip(3);
        match type_size(rest) {
            Some(n) if int_width_ok(n) => Ok(PrimitiveEVMType::Int(n as usize)),
            _ => Err(seq!['I', 'n', 'v', 'a', 'l', 'i', 'd', ' ', 'i', 'n', 't', ' ', 's', 'i', 'z', 'e', ' ', ':', ' '] + rest),
        }
    } else if has_prefix(input, bytes_word()) && input.len() != 5 {
        let rest = input.skip(5);
        match usize_value(rest) {
            Some(n) if bytes_size_ok(n) => Ok(PrimitiveEVMType::Bytes(n as usize)),
            _ => Err(seq!['I', 'n', 'v', 'a', 'l', 'i', 'd', ' ', 'b', 'y', 't', 'e', 's', ' ', 's', 'i', 'z', 'e', ' ', ':', ' '] + rest),
        }
    } else if input == bool_word() {
        Ok(PrimitiveEVMType::Bool)
    } else if input == address_word() {
        Ok(PrimitiveEVMType::Address)
    } else if input == string_word() {
        Ok(PrimitiveEVMType::String)
    } else if input == bytes_word() {
        Ok(PrimitiveEVMType::DynBytes)
    } else {
        Err(
            seq!['I', 'n', 'v', 'a', 'l', 'i', 'd', ' ', 'P', 'r', 'i', 'm', 'i', 't', 'i', 'v', 'e', 'E', 'V', 'M', 'T', 'y', 'p', 'e', ' ', 't', 'y', 'p', 'e', ':', ' ']
                + input,
        )
    }
}

/// A result with its error taken by its text.
pub open spec fn result_text<T>(r: Result<T, String>) -> Result<T, Seq<char>> {
    match r {
        Ok(v) => Ok(v),
        Err(e) => Err(e@),
    }
}

impl PrimitiveEVMType {
    /// The text of the type: `address`, `string`, `bool`, `bytes`, or the word and its size.
    pub open spec fn text(self) -> Seq<char> {
        match self {
            PrimitiveEVMType::Address => address_word(),
            PrimitiveEVMType::String => string_word(),
            PrimitiveEVMType::Bool => bool_word(),
            PrimitiveEVMType::DynBytes => bytes_word(),
            PrimitiveEVMType::Uint(s) => uint_word() + decimal_text(s as nat),
            PrimitiveEVMType::Int(s) => int_word() + decimal_text(s as nat),
            PrimitiveEVMType::Bytes(s) => bytes_word() + decimal_text(s as nat),
        }
    }

    /// Automatically converts an input string to a PrimitiveEVMType.
    /// Example : PrimitiveEVMType::from("uint256") => PrimitiveEVMType::Uint(256)
    pub fn try_from(input: String) -> (r: Result<Self, String>)
        ensures
            result_text(r) == primitive_of(input@),
    {
        let c = chars_of(input.as_str());
        proof {
            let u = ['u', 'i', 'n', 't'];
            assert(u@ =~= uint_word());
            let i = ['i', 'n', 't'];
            assert(i@ =~= int_word());
            let b = ['b', 'y', 't', 'e', 's'];
            assert(b@ =~= bytes_word());
            let bo = ['b', 'o', 'o', 'l'];
            assert(bo@ =~= bool_word());
            let a = ['a', 'd', 'd', 'r', 'e', 's', 's'];
            assert(a@ =~= address_word());
            let s = ['s', 't', 'r', 'i', 'n', 'g'];
            assert(s@ =~= string_word());
        }
        if crate::text::starts_with_chars(&c, &['u', 'i', 'n', 't']) {
            let rest = crate::text::slice_chars(&c, 4, c.len());
            assert(rest@ =~= input@.skip(4));
            if rest.len() == 0 {
                return Ok(PrimitiveEVMType::Uint(256));
            }
            return match parse_usize(&rest) {
                Some(n) if n % 8 == 0 && 8 <= n && n <= 256 => Ok(PrimitiveEVMType::Uint(n)),
                _ => {
                    let mut m: Vec<char> = Vec::new();
                    push_chars(&mut m, &['I', 'n', 'v', 'a', 'l', 'i', 'd', ' ', 'u', 'i', 'n', 't', ' ', 's', 'i', 'z', 'e', ' ', ':', ' ']);
                    push_vec(&mut m, &rest);
                    Err(string_of(&m))
                },
            };
        }
        if crate::text::starts_with_chars(&c, &['i', 'n', 't']) {
            let rest = crate::text::slice_chars(&c, 3, c.len());
            assert(rest@ =~= input@.skip(3));
            if rest.len() == 0 {
                return Ok(PrimitiveEVMType::Int(256));
            }
            return match parse_usize(&rest) {
                Some(n) if n % 8 == 0 && 8 <= n && n <= 256 => Ok(PrimitiveEVMType::Int(n)),
                _ => {
                    let mut m: Vec<char> = Vec::new();
                    push_chars(&mut m, &['I', 'n', 'v', 'a', 'l', 'i', 'd', ' ', 'i', 'n', 't', ' ', 's', 'i', 'z', 'e', ' ', ':', ' ']);
                    push_vec(&mut m, &rest);
                    Err(string_of(&m))
                },
            };
        }
        if crate::text::starts_with_chars(&c, &['b', 'y', 't', 'e', 's']) && c.len() != 5 {
            let rest = crate::text::slice_chars(&c, 5, c.len());
            assert(rest@ =~= input@.skip(5));
            return match parse_usize(&rest) {
                Some(n) if 1 <= n && n <= 32 => Ok(PrimitiveEVMType::Bytes(n)),
                _ => {
                    let mut m: Vec<char> = Vec::new();
                    push_chars(&mut m, &['I', 'n', 'v', 'a', 'l', 'i', 'd', ' ', 'b', 'y', 't', 'e', 's', ' ', 's', 'i', 'z', 'e', ' ', ':', ' ']);
                    push_vec(&mut m, &rest);
                    Err(string_of(&m))
                },
            };
        }
        if chars_eq(&c, &['b', 'o', 'o', 'l']) {
            return Ok(PrimitiveEVMType::Bool);
        }
        if chars_eq(&c, &['a', 'd', 'd', 'r', 'e', 's', 's']) {
            return Ok(PrimitiveEVMType::Address);
        }
        if chars_eq(&c, &['s', 't', 'r', 'i', 'n', 'g']) {
            return Ok(PrimitiveEVMType::String);
        }
        if chars_eq(&c, &['b', 'y', 't', 'e', 's']) {
            Ok(PrimitiveEVMType::DynBytes)
        } else {
            let mut m: Vec<char> = Vec::new();
            push_chars(&mut m, &['I', 'n', 'v', 'a', 'l', 'i', 'd', ' ', 'P', 'r', 'i', 'm', 'i', 't', 'i', 'v', 'e', 'E', 'V', 'M', 'T', 'y', 'p', 'e', ' ', 't', 'y', 'p', 'e', ':', ' ']);
            push_vec(&mut m, &c);
            Err(string_of(&m))
        }
    }

    /// The text of the type, as it is displayed.
    pub fn display(&self) -> (r: String)
        ensures
            r@ == self.text(),
    {
        let mut m: Vec<char> = Vec::new();
        match *self {
            PrimitiveEVMType::Address => push_chars(&mut m, &['a', 'd', 'd', 'r', 'e', 's', 's']),
            PrimitiveEVMType::String => push_chars(&mut m, &['s', 't', 'r', 'i', 'n', 'g']),
            PrimitiveEVMType::Bool => push_chars(&mut m, &['b', 'o', 'o', 'l']),
            PrimitiveEVMType::DynBytes => push_chars(&mut m, &['b', 'y', 't', 'e', 's']),
            PrimitiveEVMType::Uint(s) => {
                push_chars(&mut m, &['u', 'i', 'n', 't']);
                push_vec(&mut m, &usize_text(s));
            },
            PrimitiveEVMType::Int(s) => {
                push_chars(&mut m, &['i', 'n', 't']);
                push_vec(&mut m, &usize_text(s));
            },
            PrimitiveEVMType::Bytes(s) => {
                push_chars(&mut m, &['b', 'y', 't', 'e', 's']);
                push_vec(&mut m, &usize_text(s));
            },
        }
        proof {
            let u = ['u', 'i', 'n', 't'];
            assert(u@ =~= uint_word());
            let i = ['i', 'n', 't'];
            assert(i@ =~= int_word());
            let b = ['b', 'y', 't', 'e', 's'];
            assert(b@ =~= bytes_word());
            let bo = ['b', 'o', 'o', 'l'];
            assert(bo@ =~= bool_word());
            let a = ['a', 'd', 'd', 'r', 'e', 's', 's'];
            assert(a@ =~= address_word());
            let s = ['s', 't', 'r', 'i', 'n', 'g'];
            assert(s@ =~= string_word());
            assert(m@ =~= self.text());
        }
        string_of(&m)
    }
}

impl PrimitiveEVMType {
    /// Whether the type is one the EVM has: integer widths a multiple of 8 from 8 to 256,
    /// fixed byte sizes from 1 to 32.
    pub open spec fn valid(self) -> bool {
        match self {
            PrimitiveEVMType::Uint(n) => int_width_ok(n as nat),
            PrimitiveEVMType::Int(n) => int_width_ok(n as nat),
            PrimitiveEVMType::Bytes(n) => bytes_size_ok(n as nat),
            _ => true,
        }
    }
}

/// Reading back the displayed text of a type of the EVM gives the type: `try_from` after
/// `display` is the identity.
pub proof fn lemma_primitive_round_trip(t: PrimitiveEVMType)
    requires
        t.valid(),
    ensures
        primitive_of(t.text()) == Ok::<PrimitiveEVMType, Seq<char>>(t),
{
    let x = t.text();
    match t {
        PrimitiveEVMType::Uint(n) => {
            lemma_digits_size(n as nat);
            assert(x.take(4) =~= uint_word());
            assert(x.skip(4) =~= decimal_text(n as nat));
        },
        PrimitiveEVMType::Int(n) => {
            lemma_digits_size(n as nat);
            assert(x.take(4) != uint_word()) by {
                assert(x[0] == 'i');
                assert(uint_word()[0] == 'u');
            }
            assert(x.take(3) =~= int_word());
            assert(x.skip(3) =~= decimal_text(n as nat));
        },
        PrimitiveEVMType::Bytes(n) => {
            lemma_digits_size(n as nat);
            assert(x[0] == 'b');
            assert(x.take(4) != uint_word()) by {
                assert(x.take(4)[0] == 'b');
            }
            assert(x.take(3) != int_word()) by {
                assert(x.take(3)[0] == 'b');
            }
            assert(x.take(5) =~= bytes_word());
            assert(x.skip(5) =~= decimal_text(n as nat));
        },
        PrimitiveEVMType::Address => {
            assert(x.take(4) != uint_word()) by {
                assert(x.take(4)[0] == 'a');
            }
            assert(x.take(3) != int_word()) by {
                assert(x.take(3)[0] == 'a');
            }
            assert(x.take(5) != bytes_word()) by {
                assert(x.take(5)[0] == 'a');
            }
        },
        PrimitiveEVMType::String => {
            assert(x.take(4) != uint_word()) by {
                assert(x.take(4)[0] == 's');
            }
            assert(x.take(3) != int_word()) by {
                assert(x.take(3)[0] == 's');
            }
            assert(x.take(5) != bytes_word()) by {
                assert(x.take(5)[0] == 's');
            }
            assert(x != bool_word()) by {
                assert(x[0] != bool_word()[0]);
            }
            assert(x != address_word()) by {
                assert(x[0] != address_word()[0]);
            }
        },
        PrimitiveEVMType::Bool => {
            assert(x.take(4) != uint_word()) by {
                assert(x.take(4)[0] == 'b');
            }
            assert(x.take(3) != int_word()) by {
                assert(x.take(3)[0] == 'b');
            }
            assert(x.len() == 4);
        },
        PrimitiveEVMType::DynBytes => {
            assert(x.take(4) != uint_word()) by {
                assert(x.take(4)[0] == 'b');
            }
            assert(x.take(3) != int_word()) by {
                assert(x.take(3)[0] == 'b');
            }
            assert(x != bool_word()) by {
                assert(x.len() != bool_word().len());
            }
            assert(x != address_word()) by {
                assert(x[0] != address_word()[0]);
            }
            assert(x != string_word()) by {
                assert(x[0] != string_word()[0]);
            }
        },
    }
}

/// The decimal text of a size reads back as the size, and is not empty.
proof fn lemma_digits_size(n: nat)
    requires
        n <= usize::MAX,
    ensures
        type_size(decimal_text(n)) == Some(n),
        usize_value(decimal_text(n)) == Some(n),
        decimal_text(n).len() >= 1,
{
    crate::text::lemma_decimal_text(n);
    let d = decimal_text(n);
    assert(d[0] != '+');
}


// ---------------------------------------------------------------------------
// ABI values read from text
// ---------------------------------------------------------------------------

/// A value of the Ethereum ABI (the values of ethabi's `Token`): an address as its 20
/// bytes, and the 256-bit integers as 32-byte big-endian words (a signed one in two's
/// complement).
#[derive(Debug, PartialEq, Eq)]
pub enum AbiToken {
    /// Address.
    Address([u8; 20]),
    /// Vector of bytes with known size.
    FixedBytes(Vec<u8>),
    /// Vector of bytes of unknown size.
    Bytes(Vec<u8>),
    /// Signed integer.
    Int([u8; 32]),
    /// Unsigned integer.
    Uint([u8; 32]),
    /// Boolean value.
    Bool(bool),
    /// String.
    String(String),
    /// Array with known size.
    FixedArray(Vec<AbiToken>),
    /// Array of unknown size.
    Array(Vec<AbiToken>),
    /// Tuple of values.
    Tuple(Vec<AbiToken>),
}

/// The mathematical value of an [`AbiToken`]: integers as numbers.
pub enum TokenValue {
    Address(Seq<u8>),
    FixedBytes(Seq<u8>),
    Bytes(Seq<u8>),
    Int(nat),
    Uint(nat),
    Bool(bool),
    Str(Seq<char>),
    FixedArray(Seq<TokenValue>),
    Array(Seq<TokenValue>),
    Tuple(Seq<TokenValue>),
}

/// 2^256, the number of 256-bit words.
pub open spec fn word_modulus() -> nat {
    0x1_0000_0000_0000_0000_0000_0000_0000_0000_0000_0000_0000_0000_0000_0000_0000_0000nat
}

/// The number that bytes stand for, most significant first.
pub open spec fn be_value(b: Seq<u8>) -> nat
    decreases b.len(),
{
    if b.len() == 0 {
        0
    } else {
        be_value(b.drop_last()) * 256 + b.last() as nat
    }
}

/// The 256-bit two's complement word of an integer.
pub open spec fn twos_word(v: int) -> nat {
    if v >= 0 {
        v as nat
    } else {
        (word_modulus() + v) as nat
    }
}

impl AbiToken {
    /// The value this token stands for.
    pub open spec fn model(self) -> TokenValue
        decreases self,
    {
        match self {
            AbiToken::Address(a) => TokenValue::Address(a@),
            AbiToken::FixedBytes(b) => TokenValue::FixedBytes(b@),
            AbiToken::Bytes(b) => TokenValue::Bytes(b@),
            AbiToken::Int(w) => TokenValue::Int(be_value(w@)),
            AbiToken::Uint(w) => TokenValue::Uint(be_value(w@)),
            AbiToken::Bool(b) => TokenValue::Bool(b),
            AbiToken::String(s) => TokenValue::Str(s@),
            AbiToken::FixedArray(v) => TokenValue::FixedArray(token_models(v@)),
            AbiToken::Array(v) => TokenValue::Array(token_models(v@)),
            AbiToken::Tuple(v) => TokenValue::Tuple(token_models(v@)),
        }
    }
}

/// The values of a sequence of tokens.
pub open spec fn token_models(s: Seq<AbiToken>) -> Seq<TokenValue>
    decreases s,
{
    if s.len() == 0 {
        Seq::empty()
    } else {
        token_models(s.drop_last()).push(s.last().model())
    }
}

proof fn lemma_token_models(s: Seq<AbiToken>)
    ensures
        token_models(s).len() == s.len(),
        forall|i: int| 0 <= i < s.len() ==> #[trigger] token_models(s)[i] == s[i].model(),
    decreases s.len(),
{
    if s.len() > 0 {
        lemma_token_models(s.drop_last());
        assert forall|i: int| 0 <= i < s.len() implies #[trigger] token_models(s)[i]
            == s[i].model() by {
            if i < s.len() - 1 {
                assert(s.drop_last()[i] == s[i]);
            }
        }
    }
}

impl AbiToken {
    /// A copy of the token.
    pub fn copy_token(&self) -> (r: AbiToken)
        ensures
            r.model() == self.model(),
        decreases self,
    {
        match self {
            AbiToken::Address(a) => AbiToken::Address(*a),
            AbiToken::FixedBytes(b) => AbiToken::FixedBytes(copy_bytes(b)),
            AbiToken::Bytes(b) => AbiToken::Bytes(copy_bytes(b)),
            AbiToken::Int(w) => AbiToken::Int(*w),
            AbiToken::Uint(w) => AbiToken::Uint(*w),
            AbiToken::Bool(b) => AbiToken::Bool(*b),
            AbiToken::String(s) => AbiToken::String(s.clone()),
            AbiToken::FixedArray(inner) | AbiToken::Array(inner) | AbiToken::Tuple(inner) => {
                let mut v: Vec<AbiToken> = Vec::new();
                let mut i: usize = 0;
                proof {
                    lemma_token_models(inner@);
                }
                assert(decreases_to!(*self => *inner));
                while i < inner.len()
                    invariant
                        decreases_to!(*self => *inner),
                        i <= inner@.len(),
                        token_models(v@) == token_models(inner@).take(i as int),
                        token_models(inner@).len() == inner@.len(),
                        forall|j: int|
                            0 <= j < inner@.len() ==> #[trigger] token_models(inner@)[j]
                                == inner@[j].model(),
                    decreases inner.len() - i,
                {
                    proof {
                        vstd::std_specs::vec::axiom_vec_index_decreases(*inner, i as int);
                        assert(decreases_to!(*self => inner@[i as int]));
                    }
                    let c = inner[i].copy_token();
                    let ghost old_v = v@;
                    v.push(c);
                    proof {
                        assert(v@.drop_last() =~= old_v);
                        assert(token_models(inner@).take(i + 1) =~= token_models(inner@).take(
                            i as int,
                        ).push(inner@[i as int].model()));
                    }
                    i = i + 1;
                }
                assert(token_models(inner@).take(inner@.len() as int) =~= token_models(inner@));
                match self {
                    AbiToken::FixedArray(_) => AbiToken::FixedArray(v),
                    AbiToken::Array(_) => AbiToken::Array(v),
                    _ => AbiToken::Tuple(v),
                }
            },
        }
    }
}

/// A copy of bytes.
fn copy_bytes(b: &Vec<u8>) -> (r: Vec<u8>)
    ensures
        r@ == b@,
{
    let mut r: Vec<u8> = Vec::new();
    let mut i: usize = 0;
    while i < b.len()
        invariant
            i <= b@.len(),
            r@ == b@.take(i as int),
        decreases b.len() - i,
    {
        r.push(b[i]);
        assert(b@.take(i + 1) =~= b@.take(i as int).push(b@[i as int]));
        i = i + 1;
    }
    assert(b@.take(b@.len() as int) =~= b@);
    r
}

impl Clone for AbiToken {
    fn clone(&self) -> (r: AbiToken)
        ensures
            r.model() == self.model(),
    {
        self.copy_token()
    }
}

/// Wrap ether-rs Token to allow to derive the TryFrom trait
#[derive(Debug, PartialEq, Eq, Clone)]
pub struct EToken(pub AbiToken);

/// Whether every byte is a hex digit.
pub open spec fn all_hex(b: Seq<u8>) -> bool {
    forall|i: int| 0 <= i < b.len() ==> (#[trigger] hex_digit(b[i])) is Some
}

/// The bytes that pairs of hex digits stand for.
pub open spec fn hex_bytes(b: Seq<u8>) -> Seq<u8> {
    Seq::new(
        b.len() / 2,
        |i: int| (hex_digit(b[2 * i])->0 * 16 + hex_digit(b[2 * i + 1])->0) as u8,
    )
}

/// The message of the error that `H160::from_str` (ethers-core) gives for a text.
pub uninterp spec fn address_error_text(s: Seq<char>) -> Seq<char>;

/// `H160::from_str` (ethers-core, from fixed-hash), on a text of 40 bytes, as the address's
/// bytes and the error's message.
///
/// Claims what its source shows: after an optional `0x`, the text is read as hex digit
/// pairs (white space skipped), and exactly 20 bytes must come out, so a 40-byte text is
/// accepted exactly when all its bytes are hex digits. The message is named only.
#[verifier::external_body]
fn address_from_hex(s: &str) -> (r: Result<[u8; 20], String>)
    requires
        s.spec_bytes().len() == 40,
    ensures
        r is Ok <==> all_hex(s.spec_bytes()),
        r matches Ok(a) ==> a@ == hex_bytes(s.spec_bytes()),
        r matches Err(m) ==> m@ == address_error_text(s@),
{
    H160::from_str(s).map(|h| h.0).map_err(|e| e.to_string())
}

/// Whether every character is an ASCII decimal digit.
pub open spec fn all_ascii_digits(s: Seq<char>) -> bool {
    forall|i: int| 0 <= i < s.len() ==> '0' <= #[trigger] s[i] <= '9'
}

/// `the number is too large for the type`
pub open spec fn too_large_text() -> Seq<char> {
    "the number is too large for the type"@
}

/// `U256::from_str_radix(s, 10)` (ethers-core, from uint), on a text of decimal digits, as
/// the number's 32-byte big-endian word and the error's message.
///
/// Claims what its source shows: the digits are read as a number, which must be below
/// 2^256 (an empty text reads as zero); the only error left for digits is that one, and
/// its message is `the number is too large for the type`.
#[verifier::external_body]
fn u256_from_decimal(s: &str) -> (r: Result<[u8; 32], String>)
    requires
        all_ascii_digits(s@),
    ensures
        r is Ok <==> crate::text::dec_digits_value(s@)->0 < word_modulus(),
        r matches Ok(w) ==> be_value(w@) == crate::text::dec_digits_value(s@)->0,
        r matches Err(m) ==> m@ == too_large_text(),
{
    match U256::from_str_radix(s, 10) {
        Ok(v) => {
            let mut w = [0u8; 32];
            v.to_big_endian(&mut w);
            Ok(w)
        },
        Err(e) => Err(e.to_string()),
    }
}

/// The integer that `str::parse::<i128>` reads: an optional `+` or `-` and at least one
/// decimal digit, whose value must fit in `i128`.
pub open spec fn i128_text_value(s: Seq<char>) -> Option<int> {
    let v: Option<int> = if s.len() == 0 {
        None
    } else if s[0] == '-' || s[0] == '+' {
        if s.len() == 1 {
            None
        } else {
            match crate::text::dec_digits_value(s.drop_first()) {
                Some(d) => Some(if s[0] == '-' { -d } else { d as int }),
                None => None,
            }
        }
    } else {
        match crate::text::dec_digits_value(s) {
            Some(d) => Some(d as int),
            None => None,
        }
    };
    match v {
        Some(x) => if i128::MIN <= x <= i128::MAX {
            Some(x)
        } else {
            None
        },
        None => None,
    }
}

/// The message of the error that `str::parse::<i128>` (std) gives for a text.
pub uninterp spec fn int_error_text(s: Seq<char>) -> Seq<char>;

/// `str::parse::<i128>` (std), with the error taken by its message.
///
/// Claims what std documents: the text is an optional `+` or `-` sign followed by decimal
/// digits, and the value must fit. The message is named only.
#[verifier::external_body]
fn parse_i128(s: &str) -> (r: Result<i128, String>)
    ensures
        r is Ok <==> i128_text_value(s@) is Some,
        r matches Ok(v) ==> i128_text_value(s@) == Some(v as int),
        r matches Err(m) ==> m@ == int_error_text(s@),
{
    s.parse::<i128>().map_err(|e| e.to_string())
}

/// `Tokenizable::into_token` for `i128` (ethers-core), as the word of its `Token::Int`.
///
/// Claims what its source shows: the token is an `Int` holding the value sign-extended to
/// 256 bits.
#[verifier::external_body]
fn int_token_word(v: i128) -> (r: [u8; 32])
    ensures
        be_value(r@) == twos_word(v as int),
{
    let mut w = [0u8; 32];
    if let Token::Int(d) = v.into_token() {
        d.to_big_endian(&mut w);
    }
    w
}

/// Whether `char::is_alphanumeric` (std) holds of a character: the Unicode `Alphabetic` or
/// numeric property.
pub uninterp spec fn alphanumeric(c: char) -> bool;

/// Whether a character is an ASCII letter.
pub open spec fn ascii_letter(c: char) -> bool {
    ('a' <= c <= 'z') || ('A' <= c <= 'Z')
}

/// `char::is_alphanumeric` (std).
///
/// Claims that the result is the named property of the character, and, for an ASCII
/// character, that it holds of the letters and digits alone (the Unicode `Alphabetic`
/// and numeric properties within ASCII). Beyond ASCII the property is named only.
#[verifier::external_body]
pub(crate) fn is_alphanumeric(c: char) -> (r: bool)
    ensures
        r == alphanumeric(c),
        c <= '\u{7f}' ==> (r <==> (ascii_letter(c) || ('0' <= c <= '9'))),
{
    c.is_alphanumeric()
}

/// The message of a `ParseIntError` (std), through its `Display`.
///
/// Nothing is claimed of the message.
#[verifier::external_body]
fn parse_int_error_text(e: &ParseIntError) -> (r: String) {
    e.to_string()
}

/// `s` without its leading `c`s.
pub open spec fn trim_start(s: Seq<char>, c: char) -> Seq<char>
    decreases s.len(),
{
    if s.len() > 0 && s[0] == c {
        trim_start(s.drop_first(), c)
    } else {
        s
    }
}

/// `s` without its trailing `c`s.
pub open spec fn trim_end(s: Seq<char>, c: char) -> Seq<char>
    decreases s.len(),
{
    if s.len() > 0 && s.last() == c {
        trim_end(s.drop_last(), c)
    } else {
        s
    }
}

/// The characters dropped from the items of a list: space and quotes.
pub open spec fn is_filler(c: char) -> bool {
    c == ' ' || c == '"' || c == '\''
}

/// `s` without spaces and quotes.
pub open spec fn strip_fillers(s: Seq<char>) -> Seq<char>
    decreases s.len(),
{
    if s.len() == 0 {
        s
    } else if is_filler(s.last()) {
        strip_fillers(s.drop_last())
    } else {
        strip_fillers(s.drop_last()).push(s.last())
    }
}

/// The items of a comma-separated list, without spaces and quotes.
pub open spec fn list_items(s: Seq<char>) -> Seq<Seq<char>> {
    split_on(s, ',').map_values(|p: Seq<char>| strip_fillers(p))
}

/// The outcome of reading a text as a token: `None` where the reader panics, else its
/// result, an error's message being `None` where it is left unsaid.
pub type TokenOutcome = Option<Result<TokenValue, Option<Seq<char>>>>;

/// The outcome of reading a list's items in order: the first that panics or fails decides,
/// else the values of all. An item longer than `bound` never occurs (the items of a list
/// are shorter than the list's text).
pub open spec fn items_parse(items: Seq<Seq<char>>, bound: nat) -> Option<
    Result<Seq<TokenValue>, Option<Seq<char>>>,
>
    decreases bound, items.len(),
{
    if items.len() == 0 {
        Some(Ok(Seq::empty()))
    } else if items[0].len() > bound {
        None
    } else {
        match etoken_parse(items[0]) {
            None => None,
            Some(Err(e)) => Some(Err(e)),
            Some(Ok(v)) => match items_parse(items.drop_first(), bound) {
                Some(Ok(vs)) => Some(Ok(seq![v] + vs)),
                other => other,
            },
        }
    }
}

/// A list's outcome as an array's.
pub open spec fn array_outcome(r: Option<Result<Seq<TokenValue>, Option<Seq<char>>>>) -> TokenOutcome {
    match r {
        None => None,
        Some(Ok(vs)) => Some(Ok(TokenValue::Array(vs))),
        Some(Err(e)) => Some(Err(e)),
    }
}

/// What `EToken::try_from` gives for a text:
/// - `0x` and up to 64 bytes of hex: an address where the text has 42 bytes, else the
///   bytes read as a 32-byte word (a panic where they are no hex); longer: the bytes read
///   in pairs (a panic where a pair runs past the end);
/// - `[` and a list: an array of the comma-separated items, brackets, spaces and quotes
///   removed;
/// - a sign: a signed integer; `true` or `false`: a boolean; decimal digits: an unsigned
///   integer; alphanumeric characters: a string;
/// - text with a comma: an array of its items; anything else: an error.
pub open spec fn etoken_parse(input: Seq<char>) -> TokenOutcome
    decreases input.len(), 0nat,
{
    if has_prefix(input, seq!['0', 'x']) {
        let cleaned = input.skip(2);
        let cb = encode_utf8(cleaned);
        if cb.len() <= 64 {
            if encode_utf8(input).len() == 42 {
                if all_hex(cb) {
                    Some(Ok(TokenValue::Address(hex_bytes(cb))))
                } else {
                    Some(Err(Some(address_error_text(cleaned))))
                }
            } else if bytes32_text_ok(cleaned) {
                Some(Ok(TokenValue::FixedBytes(bytes32_of_text(cleaned))))
            } else {
                None
            }
        } else {
            match hex_pairs_from(cb, 0) {
                Some(Ok(v)) => Some(Ok(TokenValue::Bytes(v))),
                Some(Err(_)) => Some(Err(None)),
                None => None,
            }
        }
    } else if input.len() > 0 && input[0] == '[' {
        array_outcome(
            items_parse(list_items(trim_end(trim_start(input, '['), ']')), (input.len() - 1) as nat),
        )
    } else if input.len() > 0 && (input[0] == '-' || input[0] == '+') {
        match i128_text_value(input) {
            Some(v) => Some(Ok(TokenValue::Int(twos_word(v)))),
            None => Some(Err(Some(int_error_text(input)))),
        }
    } else if input == seq!['t', 'r', 'u', 'e'] || input == seq!['f', 'a', 'l', 's', 'e'] {
        Some(Ok(TokenValue::Bool(input == seq!['t', 'r', 'u', 'e'])))
    } else if all_ascii_digits(input) {
        let v = crate::text::dec_digits_value(input)->0;
        if v < word_modulus() {
            Some(Ok(TokenValue::Uint(v)))
        } else {
            Some(Err(Some(too_large_text())))
        }
    } else if forall|i: int| 0 <= i < input.len() ==> alphanumeric(#[trigger] input[i]) {
        Some(Ok(TokenValue::Str(input)))
    } else if input.contains(',') {
        array_outcome(items_parse(list_items(input), (input.len() - 1) as nat))
    } else {
        Some(Err(Some("Invalid input: "@ + input)))
    }
}

/// Whether a result of the reader is the outcome: the same value, or an error with the
/// outcome's message where that is said.
pub open spec fn matches_outcome(r: Option<Result<AbiToken, String>>, o: TokenOutcome) -> bool {
    match (r, o) {
        (None, None) => true,
        (Some(Ok(t)), Some(Ok(v))) => t.model() == v,
        (Some(Err(e)), Some(Err(Some(m)))) => e@ == m,
        (Some(Err(_)), Some(Err(None))) => true,
        _ => false,
    }
}

/// `s` without its leading `c`s.
fn trim_start_chars(s: &Vec<char>, c: char) -> (r: Vec<char>)
    ensures
        r@ == trim_start(s@, c),
{
    let mut i: usize = 0;
    assert(s@.skip(0) =~= s@);
    while i < s.len() && s[i] == c
        invariant
            i <= s@.len(),
            trim_start(s@, c) == trim_start(s@.skip(i as int), c),
        decreases s.len() - i,
    {
        assert(s@.skip(i as int).drop_first() =~= s@.skip(i + 1));
        i = i + 1;
    }
    assert(s@.skip(i as int) =~= s@.subrange(i as int, s@.len() as int));
    slice_chars(s, i, s.len())
}

/// `s` without its trailing `c`s.
fn trim_end_chars(s: &Vec<char>, c: char) -> (r: Vec<char>)
    ensures
        r@ == trim_end(s@, c),
{
    let mut j: usize = s.len();
    assert(s@.take(j as int) =~= s@);
    while j > 0 && s[j - 1] == c
        invariant
            j <= s@.len(),
            trim_end(s@, c) == trim_end(s@.take(j as int), c),
        decreases j,
    {
        assert(s@.take(j as int).drop_last() =~= s@.take(j - 1));
        j = j - 1;
    }
    assert(s@.take(j as int) =~= s@.subrange(0, j as int));
    slice_chars(s, 0, j)
}

/// Whether `c` is a space or a quote.
fn filler(c: char) -> (r: bool)
    ensures
        r == is_filler(c),
{
    c == ' ' || c == '"' || c == '\''
}

/// `s` without spaces and quotes.
fn strip_filler_chars(s: &Vec<char>) -> (r: Vec<char>)
    ensures
        r@ == strip_fillers(s@),
{
    let mut r: Vec<char> = Vec::new();
    let mut i: usize = 0;
    while i < s.len()
        invariant
            i <= s@.len(),
            r@ == strip_fillers(s@.take(i as int)),
        decreases s.len() - i,
    {
        assert(s@.take(i + 1).drop_last() =~= s@.take(i as int));
        if !filler(s[i]) {
            r.push(s[i]);
        }
        i = i + 1;
    }
    assert(s@.take(s@.len() as int) =~= s@);
    r
}

/// Each part without spaces and quotes.
fn strip_parts(parts: &Vec<Vec<char>>) -> (r: Vec<Vec<char>>)
    ensures
        r@.len() == parts@.len(),
        forall|j: int| 0 <= j < parts@.len() ==> (#[trigger] r@[j])@ == strip_fillers(parts@[j]@),
{
    let mut r: Vec<Vec<char>> = Vec::new();
    let mut i: usize = 0;
    while i < parts.len()
        invariant
            i <= parts@.len(),
            r@.len() == i,
            forall|j: int| 0 <= j < i ==> (#[trigger] r@[j])@ == strip_fillers(parts@[j]@),
        decreases parts.len() - i,
    {
        r.push(strip_filler_chars(&parts[i]));
        i = i + 1;
    }
    r
}

/// Whether every character is an ASCII decimal digit.
fn digits_only(s: &Vec<char>) -> (r: bool)
    ensures
        r == all_ascii_digits(s@),
{
    let mut i: usize = 0;
    while i < s.len()
        invariant
            i <= s@.len(),
            forall|j: int| 0 <= j < i ==> '0' <= #[trigger] s@[j] <= '9',
        decreases s.len() - i,
    {
        if !('0' <= s[i] && s[i] <= '9') {
            return false;
        }
        i = i + 1;
    }
    true
}

/// Whether every character is alphanumeric.
fn alphanumeric_only(s: &Vec<char>) -> (r: bool)
    ensures
        r == (forall|i: int| 0 <= i < s@.len() ==> alphanumeric(#[trigger] s@[i])),
{
    let mut i: usize = 0;
    while i < s.len()
        invariant
            i <= s@.len(),
            forall|j: int| 0 <= j < i ==> alphanumeric(#[trigger] s@[j]),
        decreases s.len() - i,
    {
        if !is_alphanumeric(s[i]) {
            return false;
        }
        i = i + 1;
    }
    true
}

proof fn lemma_trim_start_len(s: Seq<char>, c: char)
    ensures
        trim_start(s, c).len() <= s.len(),
        s.len() > 0 && s[0] == c ==> trim_start(s, c).len() < s.len(),
    decreases s.len(),
{
    if s.len() > 0 && s[0] == c {
        lemma_trim_start_len(s.drop_first(), c);
    }
}

proof fn lemma_trim_end_len(s: Seq<char>, c: char)
    ensures
        trim_end(s, c).len() <= s.len(),
    decreases s.len(),
{
    if s.len() > 0 && s.last() == c {
        lemma_trim_end_len(s.drop_last(), c);
    }
}

proof fn lemma_strip_len(s: Seq<char>)
    ensures
        strip_fillers(s).len() <= s.len(),
    decreases s.len(),
{
    if s.len() > 0 {
        lemma_strip_len(s.drop_last());
    }
}

/// A piece of a text split at `c` is no longer than the text, and shorter where the text
/// holds a `c`.
proof fn lemma_split_len(s: Seq<char>, c: char)
    ensures
        forall|i: int|
            0 <= i < split_on(s, c).len() ==> (#[trigger] split_on(s, c)[i]).len() + (if s.contains(
                c,
            ) {
                1int
            } else {
                0int
            }) <= s.len(),
    decreases s.len(),
{
    if s.len() > 0 {
        let d = s.drop_last();
        lemma_split_len(d, c);
        crate::abi::lemma_split_nonempty(d, c);
        if d.contains(c) {
            let k = choose|k: int| 0 <= k < d.len() && d[k] == c;
            assert(s[k] == c);
        }
        if s.last() == c {
            assert(s.contains(c)) by {
                assert(s[s.len() - 1] == c);
            }
        } else {
            assert(s.contains(c) ==> d.contains(c)) by {
                if s.contains(c) {
                    let k = choose|k: int| 0 <= k < s.len() && s[k] == c;
                    assert(k < s.len() - 1);
                    assert(d[k] == c);
                }
            }
        }
    }
}

/// Every item of a list is no longer than `bound`, where each piece of the list's text is.
proof fn lemma_items_len(t: Seq<char>, bound: int)
    requires
        forall|i: int| 0 <= i < split_on(t, ',').len() ==> (#[trigger] split_on(t, ',')[i]).len() <= bound,
    ensures
        forall|i: int| 0 <= i < list_items(t).len() ==> (#[trigger] list_items(t)[i]).len() <= bound,
{
    assert forall|i: int| 0 <= i < list_items(t).len() implies (#[trigger] list_items(t)[i]).len()
        <= bound by {
        lemma_strip_len(split_on(t, ',')[i]);
    }
}

/// Values read before a list's remaining items, put in front of what those give.
pub open spec fn prepend_values(
    done: Seq<TokenValue>,
    r: Option<Result<Seq<TokenValue>, Option<Seq<char>>>>,
) -> Option<Result<Seq<TokenValue>, Option<Seq<char>>>> {
    match r {
        Some(Ok(vs)) => Some(Ok(done + vs)),
        other => other,
    }
}

/// Reads a token from its text as `EToken::try_from` does; `None` where that panics.
fn read_token(cs: &Vec<char>) -> (r: Option<Result<AbiToken, String>>)
    ensures
        matches_outcome(r, etoken_parse(cs@)),
    decreases cs@.len(),
{
    let input = string_of(cs);
    assert(input@ == cs@);
    if starts_with_chars(cs, &['0', 'x']) {
        let cleaned = slice_chars(cs, 2, cs.len());
        let cleaned_s = string_of(&cleaned);
        proof {
            assert(cleaned@ =~= cs@.skip(2));
            assert(cleaned_s@ == cs@.skip(2));
        }
        let clen = cleaned_s.as_str().as_bytes().len();
        let ilen = input.as_str().as_bytes().len();
        assert(clen == encode_utf8(cleaned@).len());
        assert(ilen == encode_utf8(cs@).len());
        assert(has_prefix(cs@, seq!['0', 'x']));
        if clen <= 64 {
            if ilen == 42 {
                proof {
                    let p = seq!['0', 'x'];
                    assert(has_prefix(cs@, p));
                    assert(cs@ =~= p + cleaned@);
                    lemma_encode_utf8_concat(p, cleaned@);
                    assert(vstd::utf8::is_ascii_chars(p));
                    vstd::utf8::is_ascii_chars_encode_utf8(p);
                    assert(encode_utf8(cs@).len() == 2 + encode_utf8(cleaned@).len());
                }
                return match address_from_hex(cleaned_s.as_str()) {
                    Ok(a) => Some(Ok(AbiToken::Address(a))),
                    Err(m) => Some(Err(m)),
                };
            }
            let even = format_even_bytes(string_of(&cleaned));
            assert(even@ == crate::bytes_util::even_hex(cleaned@));
            let fits = match read_hex_pairs(even.as_str()) {
                Some(Ok(v)) => v.len() <= 32,
                _ => false,
            };
            assert(fits == bytes32_text_ok(cleaned@));
            if !fits {
                return None;
            }
            let w = str_to_bytes32(cleaned_s.as_str());
            return Some(Ok(AbiToken::FixedBytes(vstd::slice::slice_to_vec(w.as_slice()))));
        }
        return match read_hex_pairs(cleaned_s.as_str()) {
            None => None,
            Some(Ok(v)) => Some(Ok(AbiToken::Bytes(v))),
            Some(Err(e)) => Some(Err(parse_int_error_text(&e))),
        };
    }
    let ghost bound: nat = (cs@.len() - 1) as nat;
    let ghost bracketed = cs@.len() > 0 && cs@[0] == '[';
    let ghost items = if bracketed {
        list_items(trim_end(trim_start(cs@, '['), ']'))
    } else {
        list_items(cs@)
    };
    let pieces: Vec<Vec<char>> = if cs.len() > 0 && cs[0] == '[' {
        let t = trim_end_chars(&trim_start_chars(cs, '['), ']');
        let parts = split_chars(&t, ',');
        proof {
            lemma_trim_start_len(cs@, '[');
            lemma_trim_end_len(trim_start(cs@, '['), ']');
            lemma_split_len(t@, ',');
            lemma_items_len(t@, bound as int);
            assert forall|j: int| 0 <= j < parts@.len() implies (#[trigger] parts@[j])@ == split_on(
                t@,
                ',',
            )[j] by {
                assert(parts@.map_values(|v: Vec<char>| v@)[j] == parts@[j]@);
            }
        }
        strip_parts(&parts)
    } else {
        if cs.len() > 0 && (cs[0] == '-' || cs[0] == '+') {
            return match parse_i128(input.as_str()) {
                Ok(v) => Some(Ok(AbiToken::Int(int_token_word(v)))),
                Err(m) => Some(Err(m)),
            };
        }
        let is_true = chars_eq(cs, &['t', 'r', 'u', 'e']);
        if is_true || chars_eq(cs, &['f', 'a', 'l', 's', 'e']) {
            return Some(Ok(AbiToken::Bool(is_true)));
        }
        if digits_only(cs) {
            proof {
                lemma_digits_value_some(cs@);
            }
            return match u256_from_decimal(input.as_str()) {
                Ok(w) => Some(Ok(AbiToken::Uint(w))),
                Err(m) => Some(Err(m)),
            };
        }
        if alphanumeric_only(cs) {
            return Some(Ok(AbiToken::String(input)));
        }
        if !contains_char(cs, ',') {
            let mut msg = chars_of("Invalid input: ");
            push_vec(&mut msg, cs);
            return Some(Err(string_of(&msg)));
        }
        let parts = split_chars(cs, ',');
        proof {
            lemma_split_len(cs@, ',');
            lemma_items_len(cs@, bound as int);
            assert forall|j: int| 0 <= j < parts@.len() implies (#[trigger] parts@[j])@ == split_on(
                cs@,
                ',',
            )[j] by {
                assert(parts@.map_values(|v: Vec<char>| v@)[j] == parts@[j]@);
            }
        }
        strip_parts(&parts)
    };
    assert(pieces@.len() == items.len());
    assert(etoken_parse(cs@) == array_outcome(items_parse(items, bound)));
    let mut out: Vec<AbiToken> = Vec::new();
    let mut i: usize = 0;
    proof {
        lemma_token_models(out@);
        assert(items.skip(0) =~= items);
        assert(token_models(out@) =~= Seq::<TokenValue>::empty());
        assert(prepend_values(Seq::empty(), items_parse(items, bound)) == items_parse(items, bound)) by {
            match items_parse(items, bound) {
                Some(Ok(vs)) => {
                    assert(Seq::<TokenValue>::empty() + vs =~= vs);
                },
                _ => {},
            }
        }
    }
    while i < pieces.len()
        invariant
            i <= pieces@.len(),
            pieces@.len() == items.len(),
            bound + 1 == cs@.len(),
            forall|j: int| 0 <= j < pieces@.len() ==> (#[trigger] pieces@[j])@ == items[j],
            forall|j: int| 0 <= j < items.len() ==> (#[trigger] items[j]).len() <= bound,
            items_parse(items, bound) == prepend_values(
                token_models(out@),
                items_parse(items.skip(i as int), bound),
            ),
            etoken_parse(cs@) == array_outcome(items_parse(items, bound)),
        decreases pieces.len() - i,
    {
        assert(pieces@[i as int]@ == items[i as int]);
        let ghost rest = items.skip(i as int);
        assert(rest[0] == items[i as int]);
        assert(rest.drop_first() =~= items.skip(i + 1));
        let r = read_token(&pieces[i]);
        match r {
            None => {
                return None;
            },
            Some(Err(e)) => {
                return Some(Err(e));
            },
            Some(Ok(t)) => {
                let ghost before = token_models(out@);
                proof {
                    lemma_token_models(out@);
                }
                out.push(t);
                proof {
                    lemma_token_models(out@);
                    assert(token_models(out@) =~= before.push(t.model()));
                    match items_parse(items.skip(i + 1), bound) {
                        Some(Ok(vs)) => {
                            assert(before + (seq![t.model()] + vs) =~= before.push(t.model()) + vs);
                        },
                        _ => {},
                    }
                }
            },
        }
        i = i + 1;
    }
    proof {
        assert(items.skip(i as int) =~= Seq::<Seq<char>>::empty());
        assert(token_models(out@) + Seq::<TokenValue>::empty() =~= token_models(out@));
    }
    Some(Ok(AbiToken::Array(out)))
}

/// A text of decimal digits has a value.
proof fn lemma_digits_value_some(s: Seq<char>)
    requires
        all_ascii_digits(s),
    ensures
        crate::text::dec_digits_value(s) is Some,
    decreases s.len(),
{
    if s.len() > 0 {
        assert(all_ascii_digits(s.drop_last())) by {
            assert forall|i: int| 0 <= i < s.drop_last().len() implies '0' <= #[trigger] s.drop_last()[i] <= '9' by {
                assert(s.drop_last()[i] == s[i]);
            }
        }
        lemma_digits_value_some(s.drop_last());
        assert('0' <= s[s.len() - 1] <= '9');
    }
}

/// A reader's result for a token wrapped in `EToken`.
pub open spec fn etoken_result(r: Result<EToken, String>) -> Option<Result<AbiToken, String>> {
    match r {
        Ok(t) => Some(Ok(t.0)),
        Err(e) => Some(Err(e)),
    }
}

impl EToken {
    /// Reads an ABI value from text (in the manner of `TryFrom<String>`): see
    /// [`etoken_parse`] for what each form of text gives.
    ///
    /// Hex text that is no hex (up to 64 bytes) or has an odd length (longer), also inside a
    /// list, is not accepted (reading it panics); `try_read` reports it.
    pub fn try_from(input: String) -> (r: Result<EToken, String>)
        requires
            etoken_parse(input@) is Some,
        ensures
            matches_outcome(etoken_result(r), etoken_parse(input@)),
    {
        let cs = chars_of(input.as_str());
        match read_token(&cs) {
            Some(Ok(t)) => Ok(EToken(t)),
            Some(Err(e)) => Err(e),
            None => {
                assert(false);
                Err(String::new())
            },
        }
    }

    /// Reads an ABI value from text as `try_from` does, where that does not panic; `None`
    /// where it does.
    pub fn try_read(input: String) -> (r: Option<Result<EToken, String>>)
        ensures
            r is None <==> etoken_parse(input@) is None,
            r matches Some(x) ==> matches_outcome(etoken_result(x), etoken_parse(input@)),
    {
        let cs = chars_of(input.as_str());
        match read_token(&cs) {
            None => None,
            Some(_) => Some(EToken::try_from(input)),
        }
    }
}

} // verus!

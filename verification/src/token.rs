//! Tokens of Huff source.

use vstd::prelude::*;

use crate::bytes_util::{hex_of_bytes, push_hex_bytes};
use crate::evm::Opcode;
use crate::files::Span;
use crate::text::{chars_of, decimal_text, push_chars, push_vec, string_of, usize_text};
use crate::types::PrimitiveEVMType;

verus! {

/// A 32-byte literal.
pub type Literal = [u8; 32];

/// A single Token
#[derive(Debug, PartialEq, Eq, Clone)]
pub struct Token {
    /// The kind of token
    pub kind: TokenKind,
    /// An associated Span
    pub span: Span,
}

impl Token {
    /// Public associated function that instantiates a Token.
    pub fn new(kind: TokenKind, span: Span) -> (r: Self)
        ensures
            r.kind == kind,
            r.span == span,
    {
        Self { kind, span }
    }
}

/// The kind of token
#[derive(Debug, PartialEq, Eq, PartialOrd, Ord, Clone)]
pub enum TokenKind {
    /// EOF Token
    Eof,
    /// A Comment
    Comment(String),
    /// Division
    /// Lexing done at the comment level due to clash
    Div,
    /// "#define" keyword
    Define,
    /// "#include" keyword
    Include,
    /// "macro" keyword
    Macro,
    /// "fn" keyword
    Fn,
    /// "test" keyword
    Test,
    /// "function" keyword
    Function,
    /// "event" keyword
    Event,
    /// "constant" keyword
    Constant,
    /// "error" keyword
    Error,
    /// "takes" keyword
    Takes,
    /// "returns" keyword
    Returns,
    /// "view" keyword
    View,
    /// "pure" keyword
    Pure,
    /// "payable" keyword
    Payable,
    /// "nonpayable" keyword
    NonPayable,
    /// "indexed" keyword
    Indexed,
    /// "FREE_STORAGE_POINTER()" keyword
    FreeStoragePointer,
    /// An Identifier
    Ident(String),
    /// Equal Sign
    Assign,
    /// An open parenthesis
    OpenParen,
    /// A close parenthesis
    CloseParen,
    /// An open bracket
    OpenBracket,
    /// A close bracket
    CloseBracket,
    /// An open brace
    OpenBrace,
    /// A close brace
    CloseBrace,
    /// A Less-Than Angle Bracket
    LeftAngle,
    /// A Greater-Than Angle Bracket
    RightAngle,
    /// Addition
    Add,
    /// Subtraction
    Sub,
    /// Multiplication
    Mul,
    /// A comma
    Comma,
    /// A Colon
    Colon,
    /// A pound
    Pound,
    /// Number
    Num(usize),
    /// A Space
    Whitespace,
    /// A string literal
    Str(String),
    /// Hex
    Literal(Literal),
    /// Opcode
    Opcode(Opcode),
    /// Huff label (aka PC)
    Label(String),
    /// EVM Type
    PrimitiveType(PrimitiveEVMType),
    /// Array of EVM Types
    /// uint256[5][2][3] => ArrayType(PrimitiveEVMType::Uint(256), [5, 2, 3])
    ArrayType(PrimitiveEVMType, Vec<usize>),
    /// A Jump Table
    JumpTable,
    /// A Packed Jump Table
    JumpTablePacked,
    /// A Code Table
    CodeTable,
    /// A builtin function (__codesize, __tablesize, __tablestart)
    BuiltinFunction(String),
    /// Calldata Data Location
    Calldata,
    /// Memory Data Location
    Memory,
    /// Storage Data Location
    Storage,
}

/// The brackets of an array type: `[n]` for each size `n`, `[]` for a zero size.
pub open spec fn array_suffix(sizes: Seq<usize>) -> Seq<char>
    decreases sizes.len(),
{
    if sizes.len() == 0 {
        Seq::empty()
    } else {
        array_suffix(sizes.drop_last()) + if sizes.last() > 0 {
            seq!['['] + decimal_text(sizes.last() as nat) + seq![']']
        } else {
            seq!['[', ']']
        }
    }
}

fn push_array_suffix(m: &mut Vec<char>, sizes: &Vec<usize>)
    ensures
        final(m)@ == old(m)@ + array_suffix(sizes@),
{
    let ghost head = m@;
    let mut i: usize = 0;
    while i < sizes.len()
        invariant
            i <= sizes@.len(),
            m@ == head + array_suffix(sizes@.take(i as int)),
        decreases sizes.len() - i,
    {
        proof {
            let t = sizes@.take(i + 1);
            assert(t.drop_last() =~= sizes@.take(i as int));
        }
        if sizes[i] > 0 {
            m.push('[');
            push_vec(m, &usize_text(sizes[i]));
            m.push(']');
        } else {
            m.push('[');
            m.push(']');
        }
        i = i + 1;
    }
    assert(sizes@.take(sizes@.len() as int) =~= sizes@);
}

impl TokenKind {
    /// The text of the token, as it is displayed.
    pub open spec fn text(self) -> Seq<char> {
        match self {
            TokenKind::Eof => seq!['E', 'O', 'F'],
            TokenKind::Comment(s) => seq!['C', 'o', 'm', 'm', 'e', 'n', 't', '('] + s@ + seq![')'],
            TokenKind::Div => seq!['/'],
            TokenKind::Define => seq!['#', 'd', 'e', 'f', 'i', 'n', 'e'],
            TokenKind::Include => seq!['#', 'i', 'n', 'c', 'l', 'u', 'd', 'e'],
            TokenKind::Macro => seq!['m', 'a', 'c', 'r', 'o'],
            TokenKind::Fn => seq!['f', 'n'],
            TokenKind::Test => seq!['t', 'e', 's', 't'],
            TokenKind::Function => seq!['f', 'u', 'n', 'c', 't', 'i', 'o', 'n'],
            TokenKind::Event => seq!['e', 'v', 'e', 'n', 't'],
            TokenKind::Constant => seq!['c', 'o', 'n', 's', 't', 'a', 'n', 't'],
            TokenKind::Error => seq!['e', 'r', 'r', 'o', 'r'],
            TokenKind::Takes => seq!['t', 'a', 'k', 'e', 's'],
            TokenKind::Returns => seq!['r', 'e', 't', 'u', 'r', 'n', 's'],
            TokenKind::View => seq!['v', 'i', 'e', 'w'],
            TokenKind::Pure => seq!['p', 'u', 'r', 'e'],
            TokenKind::Payable => seq!['p', 'a', 'y', 'a', 'b', 'l', 'e'],
            TokenKind::NonPayable => seq!['n', 'o', 'n', 'p', 'a', 'y', 'a', 'b', 'l', 'e'],
            TokenKind::Indexed => seq!['i', 'n', 'd', 'e', 'x', 'e', 'd'],
            TokenKind::FreeStoragePointer => seq!['F', 'R', 'E', 'E', '_', 'S', 'T', 'O', 'R', 'A', 'G', 'E', '_', 'P', 'O', 'I', 'N', 'T', 'E', 'R', '(', ')'],
            TokenKind::Ident(s) => s@,
            TokenKind::Assign => seq!['='],
            TokenKind::OpenParen => seq!['('],
            TokenKind::CloseParen => seq![')'],
            TokenKind::OpenBracket => seq!['['],
            TokenKind::CloseBracket => seq![']'],
            TokenKind::OpenBrace => seq!['{'],
            TokenKind::CloseBrace => seq!['}'],
            TokenKind::LeftAngle => seq!['<'],
            TokenKind::RightAngle => seq!['>'],
            TokenKind::Add => seq!['+'],
            TokenKind::Sub => seq!['-'],
            TokenKind::Mul => seq!['*'],
            TokenKind::Comma => seq![','],
            TokenKind::Colon => seq![':'],
            TokenKind::Pound => seq!['#'],
            TokenKind::Num(n) => decimal_text(n as nat),
            TokenKind::Whitespace => seq![' '],
            TokenKind::Str(s) => s@,
            TokenKind::Literal(l) => hex_of_bytes(l@),
            TokenKind::Opcode(o) => hex_of_bytes(seq![o.code()]),
            TokenKind::Label(s) => s@,
            TokenKind::PrimitiveType(pt) => pt.text(),
            TokenKind::ArrayType(pt, sizes) => pt.text() + array_suffix(sizes@),
            TokenKind::JumpTable => seq!['j', 'u', 'm', 'p', 't', 'a', 'b', 'l', 'e'],
            TokenKind::JumpTablePacked => seq!['j', 'u', 'm', 'p', 't', 'a', 'b', 'l', 'e', '_', '_', 'p', 'a', 'c', 'k', 'e', 'd'],
            TokenKind::CodeTable => seq!['t', 'a', 'b', 'l', 'e'],
            TokenKind::BuiltinFunction(s) => seq!['B', 'u', 'i', 'l', 't', 'i', 'n', 'F', 'u', 'n', 'c', 't', 'i', 'o', 'n', '('] + s@ + seq![')'],
            TokenKind::Calldata => seq!['c', 'a', 'l', 'l', 'd', 'a', 't', 'a'],
            TokenKind::Memory => seq!['m', 'e', 'm', 'o', 'r', 'y'],
            TokenKind::Storage => seq!['s', 't', 'o', 'r', 'a', 'g', 'e'],
        }
    }

    /// Transform a single char TokenKind into a Token given a single position
    pub fn into_single_span(self, position: u32) -> (r: Token)
        ensures
            r.kind == self,
            r.span.start == position,
            r.span.end == position,
            r.span.file is None,
    {
        self.into_span(position, position)
    }

    /// Transform a TokenKind into a Token given a start and end position
    pub fn into_span(self, start: u32, end: u32) -> (r: Token)
        ensures
            r.kind == self,
            r.span.start == start,
            r.span.end == end,
            r.span.file is None,
    {
        Token { kind: self, span: Span { start: start as usize, end: end as usize, file: None } }
    }

    /// The text of the token, as it is displayed.
    pub fn display(&self) -> (r: String)
        ensures
            r@ == self.text(),
    {
        let mut m: Vec<char> = Vec::new();
        match self {
            TokenKind::Eof => push_chars(&mut m, &['E', 'O', 'F']),
            TokenKind::Comment(s) => {
                push_chars(&mut m, &['C', 'o', 'm', 'm', 'e', 'n', 't', '(']);
                push_vec(&mut m, &chars_of(s.as_str()));
                m.push(')');
            },
            TokenKind::Div => push_chars(&mut m, &['/']),
            TokenKind::Define => push_chars(&mut m, &['#', 'd', 'e', 'f', 'i', 'n', 'e']),
            TokenKind::Include => push_chars(&mut m, &['#', 'i', 'n', 'c', 'l', 'u', 'd', 'e']),
            TokenKind::Macro => push_chars(&mut m, &['m', 'a', 'c', 'r', 'o']),
            TokenKind::Fn => push_chars(&mut m, &['f', 'n']),
            TokenKind::Test => push_chars(&mut m, &['t', 'e', 's', 't']),
            TokenKind::Function => push_chars(&mut m, &['f', 'u', 'n', 'c', 't', 'i', 'o', 'n']),
            TokenKind::Event => push_chars(&mut m, &['e', 'v', 'e', 'n', 't']),
            TokenKind::Constant => push_chars(&mut m, &['c', 'o', 'n', 's', 't', 'a', 'n', 't']),
            TokenKind::Error => push_chars(&mut m, &['e', 'r', 'r', 'o', 'r']),
            TokenKind::Takes => push_chars(&mut m, &['t', 'a', 'k', 'e', 's']),
            TokenKind::Returns => push_chars(&mut m, &['r', 'e', 't', 'u', 'r', 'n', 's']),
            TokenKind::View => push_chars(&mut m, &['v', 'i', 'e', 'w']),
            TokenKind::Pure => push_chars(&mut m, &['p', 'u', 'r', 'e']),
            TokenKind::Payable => push_chars(&mut m, &['p', 'a', 'y', 'a', 'b', 'l', 'e']),
            TokenKind::NonPayable => push_chars(&mut m, &['n', 'o', 'n', 'p', 'a', 'y', 'a', 'b', 'l', 'e']),
            TokenKind::Indexed => push_chars(&mut m, &['i', 'n', 'd', 'e', 'x', 'e', 'd']),
            TokenKind::FreeStoragePointer => push_chars(&mut m, &['F', 'R', 'E', 'E', '_', 'S', 'T', 'O', 'R', 'A', 'G', 'E', '_', 'P', 'O', 'I', 'N', 'T', 'E', 'R', '(', ')']),
            TokenKind::Ident(s) => push_vec(&mut m, &chars_of(s.as_str())),
            TokenKind::Assign => push_chars(&mut m, &['=']),
            TokenKind::OpenParen => push_chars(&mut m, &['(']),
            TokenKind::CloseParen => push_chars(&mut m, &[')']),
            TokenKind::OpenBracket => push_chars(&mut m, &['[']),
            TokenKind::CloseBracket => push_chars(&mut m, &[']']),
            TokenKind::OpenBrace => push_chars(&mut m, &['{']),
            TokenKind::CloseBrace => push_chars(&mut m, &['}']),
            TokenKind::LeftAngle => push_chars(&mut m, &['<']),
            TokenKind::RightAngle => push_chars(&mut m, &['>']),
            TokenKind::Add => push_chars(&mut m, &['+']),
            TokenKind::Sub => push_chars(&mut m, &['-']),
            TokenKind::Mul => push_chars(&mut m, &['*']),
            TokenKind::Comma => push_chars(&mut m, &[',']),
            TokenKind::Colon => push_chars(&mut m, &[':']),
            TokenKind::Pound => push_chars(&mut m, &['#']),
            TokenKind::Num(n) => push_vec(&mut m, &usize_text(*n)),
            TokenKind::Whitespace => push_chars(&mut m, &[' ']),
            TokenKind::Str(s) => push_vec(&mut m, &chars_of(s.as_str())),
            TokenKind::Literal(l) => push_hex_bytes(&mut m, l),
            TokenKind::Opcode(o) => push_vec(&mut m, &chars_of(o.string().as_str())),
            TokenKind::Label(s) => push_vec(&mut m, &chars_of(s.as_str())),
            TokenKind::PrimitiveType(pt) => push_vec(&mut m, &chars_of(pt.display().as_str())),
            TokenKind::ArrayType(pt, sizes) => {
                push_vec(&mut m, &chars_of(pt.display().as_str()));
                push_array_suffix(&mut m, sizes);
            },
            TokenKind::JumpTable => push_chars(&mut m, &['j', 'u', 'm', 'p', 't', 'a', 'b', 'l', 'e']),
            TokenKind::JumpTablePacked => push_chars(&mut m, &['j', 'u', 'm', 'p', 't', 'a', 'b', 'l', 'e', '_', '_', 'p', 'a', 'c', 'k', 'e', 'd']),
            TokenKind::CodeTable => push_chars(&mut m, &['t', 'a', 'b', 'l', 'e']),
            TokenKind::BuiltinFunction(s) => {
                push_chars(&mut m, &['B', 'u', 'i', 'l', 't', 'i', 'n', 'F', 'u', 'n', 'c', 't', 'i', 'o', 'n', '(']);
                push_vec(&mut m, &chars_of(s.as_str()));
                m.push(')');
            },
            TokenKind::Calldata => push_chars(&mut m, &['c', 'a', 'l', 'l', 'd', 'a', 't', 'a']),
            TokenKind::Memory => push_chars(&mut m, &['m', 'e', 'm', 'o', 'r', 'y']),
            TokenKind::Storage => push_chars(&mut m, &['s', 't', 'o', 'r', 'a', 'g', 'e']),
        }
        assert(m@ =~= self.text());
        string_of(&m)
    }
}

} // verus!

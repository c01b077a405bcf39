//! Errors of lexing, parsing and code generation, and the messages they carry.

use vstd::prelude::*;

use crate::ast::AstSpan;
use crate::ast_span::{ast_error_text, files_text};
use crate::evm::Opcode;
use crate::files::{span_seg_ok, span_seg_text, Span, Spanned};
use crate::io::{parse_extension, path_extension, UnpackError};
use crate::text::{chars_of, decimal_text, opt_text, push_vec, string_of, usize_text};
use crate::token::TokenKind;

verus! {

/// The text that `{:?}` (std `Debug`) writes for a string: the string in double quotes,
/// with its special characters escaped.
pub uninterp spec fn debug_text(s: Seq<char>) -> Seq<char>;

/// `format!("{:?}", s)` (std `Debug` for `str`).
///
/// Claims only that the result is the named debug text of the string.
#[verifier::external_body]
fn debug_quoted(s: &str) -> (r: String)
    ensures
        r@ == debug_text(s@),
{
    format!("{:?}", s)
}

/// Appends the characters of a text.
fn push_str(out: &mut Vec<char>, s: &str)
    ensures
        final(out)@ == old(out)@ + s@,
{
    push_vec(out, &chars_of(s));
}

/// A single character.
fn one_char(c: char) -> (r: Vec<char>)
    ensures
        r@ == seq![c],
{
    let mut r: Vec<char> = Vec::new();
    r.push(c);
    assert(r@ =~= seq![c]);
    r
}

/// The extension of a path, or nothing where it has none.
pub open spec fn extension_or_empty(p: Seq<char>) -> Seq<char> {
    match path_extension(p) {
        Some(e) => e,
        None => Seq::empty(),
    }
}

fn extension_chars(p: &str) -> (r: Vec<char>)
    ensures
        r@ == extension_or_empty(p@),
{
    match parse_extension(p) {
        Some(e) => chars_of(e),
        None => Vec::new(),
    }
}

/// A Parser Error
#[derive(Debug, PartialEq, Eq, PartialOrd, Ord, Clone)]
pub struct ParserError {
    /// The type of Parser Error
    pub kind: ParserErrorKind,
    /// Hints about the error
    pub hint: Option<String>,
    /// A collection of spans the Parser Error crosses
    pub spans: AstSpan,
}

/// A Type of Parser Error
#[derive(Debug, PartialEq, Eq, PartialOrd, Ord, Clone)]
pub enum ParserErrorKind {
    /// An invalid literal was passed to a push opcode
    InvalidPush(Opcode),
    /// Unexpected type
    UnexpectedType(TokenKind),
    /// Argument name is a reserved evm primitive type keyword
    InvalidTypeAsArgumentName(TokenKind),
    /// Invalid definition
    InvalidDefinition(TokenKind),
    /// Invalid constant value
    InvalidConstantValue(TokenKind),
    /// Unexpected token in macro body
    InvalidTokenInMacroBody(TokenKind),
    /// Unexpected token in label definition
    InvalidTokenInLabelDefinition(TokenKind),
    /// Unexpected Single Arg
    InvalidSingleArg(TokenKind),
    /// Unexpected Table Body Token
    InvalidTableBodyToken(TokenKind),
    /// Invalid constant
    InvalidConstant(TokenKind),
    /// Unexpected Arg Call Token
    InvalidArgCallIdent(TokenKind),
    /// Invalid name (macro, event, function, constant)
    InvalidName(TokenKind),
    /// Invalid arguments
    InvalidArgs(TokenKind),
    /// Invalid Uint256 Size
    InvalidUint256(usize),
    /// Invalid Bytes
    InvalidBytes(usize),
    /// Invalid Int
    InvalidInt(usize),
    /// Invalid macro call arguments
    InvalidMacroArgs(TokenKind),
    /// Invalid return arguments
    InvalidReturnArgs,
    /// Invalid import path
    InvalidImportPath(String),
    /// Invalid decorator flag
    InvalidDecoratorFlag(String),
    /// Invalid decorator flag argument
    InvalidDecoratorFlagArg(TokenKind),
}

/// A Lexing Error
#[derive(Debug, PartialEq, Eq, Clone)]
pub struct LexicalError {
    /// The kind of error
    pub kind: LexicalErrorKind,
    /// The span where the error occurred
    pub span: Span,
}

impl LexicalError {
    /// Public associated function to instatiate a new LexicalError.
    pub fn new(kind: LexicalErrorKind, span: Span) -> (r: Self)
        ensures
            r.kind == kind,
            r.span == span,
    {
        Self { kind, span }
    }

    /// The message reported for the error.
    pub fn report_message(&self) -> (r: String)
        ensures
            r@ == self.kind.report_text(),
    {
        self.kind.report_message()
    }
}

/// A Lexical Error Kind
#[derive(Debug, PartialEq, Eq, Clone)]
pub enum LexicalErrorKind {
    /// Unexpected end of file
    UnexpectedEof,
    /// Invalid character
    InvalidCharacter(char),
    /// Invalid Array Size
    /// String param expected to be usize parsable
    InvalidArraySize(String),
    /// Invalid Primitive EVM Type
    InvalidPrimitiveType(String),
}

impl LexicalErrorKind {
    /// The message reported for an error of this kind.
    pub open spec fn report_text(self) -> Seq<char> {
        match self {
            LexicalErrorKind::InvalidCharacter(ch) => "Invalid character '"@ + seq![ch] + "'"@,
            LexicalErrorKind::UnexpectedEof => "Found unexpected EOF"@,
            LexicalErrorKind::InvalidArraySize(s) => "Invalid array size: '"@ + s@ + "'"@,
            LexicalErrorKind::InvalidPrimitiveType(s) => "Invalid Primitive EVM Type '"@ + s@ + "'"@,
        }
    }

    /// The message reported for an error of this kind.
    pub fn report_message(&self) -> (r: String)
        ensures
            r@ == self.report_text(),
    {
        let mut out: Vec<char> = Vec::new();
        match self {
            LexicalErrorKind::InvalidCharacter(ch) => {
                push_str(&mut out, "Invalid character '");
                push_vec(&mut out, &one_char(*ch));
                push_str(&mut out, "'");
            },
            LexicalErrorKind::UnexpectedEof => {
                push_str(&mut out, "Found unexpected EOF");
            },
            LexicalErrorKind::InvalidArraySize(s) => {
                push_str(&mut out, "Invalid array size: '");
                push_vec(&mut out, &chars_of(s.as_str()));
                push_str(&mut out, "'");
            },
            LexicalErrorKind::InvalidPrimitiveType(s) => {
                push_str(&mut out, "Invalid Primitive EVM Type '");
                push_vec(&mut out, &chars_of(s.as_str()));
                push_str(&mut out, "'");
            },
        }
        string_of(&out)
    }
}

impl Spanned for LexicalError {
    fn span(&self) -> (r: Span)
        ensures
            r == self.span,
    {
        self.span.clone()
    }
}

/// A Code Generation Error
#[derive(Debug, PartialEq, Eq, Clone)]
pub struct CodegenError {
    /// The kind of code generation error
    pub kind: CodegenErrorKind,
    /// An Optional Span where the error occured
    pub span: AstSpan,
    /// An Optional Token Kind
    pub token: Option<TokenKind>,
}

impl CodegenError {
    /// Public associated function to instatiate a new CodegenError.
    pub fn new(kind: CodegenErrorKind, spans: AstSpan, token: Option<TokenKind>) -> (r: Self)
        ensures
            r.kind == kind,
            r.span == spans,
            r.token == token,
    {
        Self { kind, span: spans, token }
    }

    /// The message reported for the error.
    pub fn report_message(&self) -> (r: String)
        ensures
            r@ == self.kind.report_text(),
    {
        self.kind.report_message()
    }
}

/// The Code Generation Error Kind
#[derive(Debug, PartialEq, Eq, Clone)]
pub enum CodegenErrorKind {
    /// Locking Error
    LockingError,
    /// Storage Pointers Not Derived
    StoragePointersNotDerived,
    /// Invalid Macro Body Statement
    InvalidMacroStatement,
    /// The Macro Definition is Missing
    MissingMacroDefinition(String),
    /// The Function Interface is Missing
    MissingFunctionInterface(String),
    /// The Event Interface is Missing
    MissingEventInterface(String),
    /// Missing Constant Definition
    MissingConstantDefinition(String),
    /// Missing Error Definition
    MissingErrorDefinition(String),
    /// Abi Generation Failure
    AbiGenerationFailure,
    /// Unmatched Jump
    UnmatchedJumpLabel,
    /// An IO Error
    IOError(String),
    /// ArgCall has an unknown type
    UnkownArgcallType,
    /// Missing Macro Invocation
    MissingMacroInvocation(String),
    /// Missing Macro Definition for Invocation
    InvalidMacroInvocation(String),
    /// Conversion Error for usize
    UsizeConversion(String),
    /// Invalid Arguments
    InvalidArguments(String),
    /// Invalid Hex String
    InvalidHex(String),
    /// Invalid Table Statement
    InvalidTableStatement(String),
    /// Invalid Code Length
    InvalidCodeLength(usize),
    /// Test Invocation
    TestInvocation(String),
    /// Incorrect dynamic argument index
    InvalidDynArgIndex,
}

impl CodegenErrorKind {
    /// The message reported for an error of this kind.
    pub open spec fn report_text(self) -> Seq<char> {
        match self {
            CodegenErrorKind::LockingError => "Synchronisation Error - Please execute again!"@,
            CodegenErrorKind::StoragePointersNotDerived => "Storage pointers not derived for AST!"@,
            CodegenErrorKind::InvalidMacroStatement => "Invalid Macro Statement!"@,
            CodegenErrorKind::InvalidMacroInvocation(s) => "Missing Macro Definition for Invocation: \""@ + s@ + "\"!"@,
            CodegenErrorKind::MissingMacroDefinition(s) => "Missing Macro \""@ + s@ + "\" Definition!"@,
            CodegenErrorKind::MissingFunctionInterface(s) => "Missing Function Interface for \""@ + s@ + "\"!"@,
            CodegenErrorKind::MissingEventInterface(s) => "Missing Event Interface for \""@ + s@ + "\"!"@,
            CodegenErrorKind::MissingConstantDefinition(s) => "Missing Constant Definition for \""@ + s@ + "\"!"@,
            CodegenErrorKind::MissingErrorDefinition(s) => "Missing Error Definition for \""@ + s@ + "\"!"@,
            CodegenErrorKind::AbiGenerationFailure => "Abi generation failure!"@,
            CodegenErrorKind::UnmatchedJumpLabel => "Unmatched jump label!"@,
            CodegenErrorKind::IOError(s) => "IO ERROR: "@ + debug_text(s@),
            CodegenErrorKind::UnkownArgcallType => "Unknown Argcall Type!"@,
            CodegenErrorKind::MissingMacroInvocation(s) => "Missing Macro \""@ + s@ + "\" Invocation!"@,
            CodegenErrorKind::UsizeConversion(s) => "Usize Conversion Failed for \""@ + s@ + "\""@,
            CodegenErrorKind::InvalidArguments(s) => "Invalid arguments: \""@ + s@ + "\""@,
            CodegenErrorKind::InvalidHex(s) => "Invalid hex string: \""@ + s@ + "\""@,
            CodegenErrorKind::InvalidTableStatement(s) => "Invalid table statement: \""@ + s@ + "\""@,
            CodegenErrorKind::InvalidCodeLength(n) => "Invalid code length: "@ + decimal_text(n as nat),
            CodegenErrorKind::TestInvocation(s) => "Test cannot be invoked: \""@ + s@ + "\""@,
            CodegenErrorKind::InvalidDynArgIndex => "Invalid Dynamic Constructor Argument Index"@,
        }
    }

    /// The message reported for an error of this kind.
    pub fn report_message(&self) -> (r: String)
        ensures
            r@ == self.report_text(),
    {
        let mut out: Vec<char> = Vec::new();
        match self {
            CodegenErrorKind::LockingError => {
                push_str(&mut out, "Synchronisation Error - Please execute again!");
            },
            CodegenErrorKind::StoragePointersNotDerived => {
                push_str(&mut out, "Storage pointers not derived for AST!");
            },
            CodegenErrorKind::InvalidMacroStatement => {
                push_str(&mut out, "Invalid Macro Statement!");
            },
            CodegenErrorKind::InvalidMacroInvocation(s) => {
                push_str(&mut out, "Missing Macro Definition for Invocation: \"");
                push_vec(&mut out, &chars_of(s.as_str()));
                push_str(&mut out, "\"!");
            },
            CodegenErrorKind::MissingMacroDefinition(s) => {
                push_str(&mut out, "Missing Macro \"");
                push_vec(&mut out, &chars_of(s.as_str()));
                push_str(&mut out, "\" Definition!");
            },
            CodegenErrorKind::MissingFunctionInterface(s) => {
                push_str(&mut out, "Missing Function Interface for \"");
                push_vec(&mut out, &chars_of(s.as_str()));
                push_str(&mut out, "\"!");
            },
            CodegenErrorKind::MissingEventInterface(s) => {
                push_str(&mut out, "Missing Event Interface for \"");
                push_vec(&mut out, &chars_of(s.as_str()));
                push_str(&mut out, "\"!");
            },
            CodegenErrorKind::MissingConstantDefinition(s) => {
                push_str(&mut out, "Missing Constant Definition for \"");
                push_vec(&mut out, &chars_of(s.as_str()));
                push_str(&mut out, "\"!");
            },
            CodegenErrorKind::MissingErrorDefinition(s) => {
                push_str(&mut out, "Missing Error Definition for \"");
                push_vec(&mut out, &chars_of(s.as_str()));
                push_str(&mut out, "\"!");
            },
            CodegenErrorKind::AbiGenerationFailure => {
                push_str(&mut out, "Abi generation failure!");
            },
            CodegenErrorKind::UnmatchedJumpLabel => {
                push_str(&mut out, "Unmatched jump label!");
            },
            CodegenErrorKind::IOError(s) => {
                push_str(&mut out, "IO ERROR: ");
                push_vec(&mut out, &chars_of(debug_quoted(s.as_str()).as_str()));
            },
            CodegenErrorKind::UnkownArgcallType => {
                push_str(&mut out, "Unknown Argcall Type!");
            },
            CodegenErrorKind::MissingMacroInvocation(s) => {
                push_str(&mut out, "Missing Macro \"");
                push_vec(&mut out, &chars_of(s.as_str()));
                push_str(&mut out, "\" Invocation!");
            },
            CodegenErrorKind::UsizeConversion(s) => {
                push_str(&mut out, "Usize Conversion Failed for \"");
                push_vec(&mut out, &chars_of(s.as_str()));
                push_str(&mut out, "\"");
            },
            CodegenErrorKind::InvalidArguments(s) => {
                push_str(&mut out, "Invalid arguments: \"");
                push_vec(&mut out, &chars_of(s.as_str()));
                push_str(&mut out, "\"");
            },
            CodegenErrorKind::InvalidHex(s) => {
                push_str(&mut out, "Invalid hex string: \"");
                push_vec(&mut out, &chars_of(s.as_str()));
                push_str(&mut out, "\"");
            },
            CodegenErrorKind::InvalidTableStatement(s) => {
                push_str(&mut out, "Invalid table statement: \"");
                push_vec(&mut out, &chars_of(s.as_str()));
                push_str(&mut out, "\"");
            },
            CodegenErrorKind::InvalidCodeLength(n) => {
                push_str(&mut out, "Invalid code length: ");
                push_vec(&mut out, &usize_text(*n));
            },
            CodegenErrorKind::TestInvocation(s) => {
                push_str(&mut out, "Test cannot be invoked: \"");
                push_vec(&mut out, &chars_of(s.as_str()));
                push_str(&mut out, "\"");
            },
            CodegenErrorKind::InvalidDynArgIndex => {
                push_str(&mut out, "Invalid Dynamic Constructor Argument Index");
            },
        }
        string_of(&out)
    }
}

/// CompilerError
#[derive(Debug, PartialEq, Eq)]
pub enum CompilerError {
    /// Failed to Lex Source
    LexicalError(LexicalError),
    /// File unpacking error
    FileUnpackError(UnpackError),
    /// Parsing Error
    ParserError(ParserError),
    /// Reading PathBuf Failed: the path's text, where it is valid UTF-8
    PathBufRead(Option<String>),
    /// Bytecode Generation Error
    CodegenError(CodegenError),
    /// Multiple Failed Compiles
    FailedCompiles(Vec<CompilerError>),
}

/// Whether every span of the spans can have its source segment cut out.
pub open spec fn spans_ok(spans: Seq<Span>) -> bool {
    forall|j: int| 0 <= j < spans.len() ==> span_seg_ok(#[trigger] spans[j])
}

/// Whether the message of an error can be written: each span it shows has a source segment
/// that can be cut out.
pub open spec fn compiler_error_ok(e: CompilerError) -> bool
    decreases e,
{
    match e {
        CompilerError::LexicalError(le) => span_seg_ok(le.span),
        CompilerError::ParserError(pe) => spans_ok(pe.spans.0@),
        CompilerError::CodegenError(ce) => spans_ok(ce.span.0@),
        CompilerError::FailedCompiles(v) => compiler_errors_ok(v@),
        _ => true,
    }
}

/// `compiler_error_ok` for each error.
pub open spec fn compiler_errors_ok(es: Seq<CompilerError>) -> bool
    decreases es,
{
    if es.len() == 0 {
        true
    } else {
        compiler_errors_ok(es.drop_last()) && compiler_error_ok(es.last())
    }
}

/// The message of a lexical error.
pub open spec fn lexical_text(le: LexicalError) -> Seq<char> {
            match le.kind {
                LexicalErrorKind::UnexpectedEof => "\nError: Unexpected End Of File "@ + le.span.identifier_text() + span_seg_text(le.span) + "\n"@,
                LexicalErrorKind::InvalidCharacter(c) => "\nError: Invalid Character: \""@ + seq![c] + "\" "@ + le.span.identifier_text() + span_seg_text(le.span) + "\n"@,
                LexicalErrorKind::InvalidArraySize(a) => "\nError: Invalid Array Size: \""@ + a@ + "\" "@ + le.span.identifier_text() + span_seg_text(le.span) + "\n"@,
                LexicalErrorKind::InvalidPrimitiveType(ty) => "\nError: Invalid Primitive Type: \""@ + ty@ + "\" "@ + le.span.identifier_text() + span_seg_text(le.span) + "\n"@,
            }
}

/// The message of a file unpacking error.
pub open spec fn unpack_text(ue: UnpackError) -> Seq<char> {
            match ue {
                UnpackError::InvalidDirectory(id) => "\nError: Invalid File Directory "@ + id@ + "\n"@,
                UnpackError::UnsupportedExtension(u) => "\nError: Unsupported File Extension \""@ + extension_or_empty(u@) + "\"\n--> "@ + u@ + "\n"@,
                UnpackError::MissingFile(file) => "\nError: File Not Found \""@ + file@ + "\"\n"@,
            }
}

/// The message of a parser error.
pub open spec fn parser_text(pe: ParserError) -> Seq<char> {
            match pe.kind {
                ParserErrorKind::InvalidPush(op) => "\nError: Invalid use of \""@ + op.name_text() + "\" \n"@ + ast_error_text(pe.spans.0@, opt_text(pe.hint)) + "\n"@,
                ParserErrorKind::UnexpectedType(t) => "\nError: Unexpected Type: \""@ + t.text() + "\" \n"@ + ast_error_text(pe.spans.0@, opt_text(pe.hint)) + "\n"@,
                ParserErrorKind::InvalidTypeAsArgumentName(t) => "\nError: Unexpected Argument Name is an EVM Type: \""@ + t.text() + "\" \n"@ + ast_error_text(pe.spans.0@, opt_text(pe.hint)) + "\n"@,
                ParserErrorKind::InvalidDefinition(t) => "\nError: Invalid Defintion \""@ + t.text() + "\"\n"@ + ast_error_text(pe.spans.0@, opt_text(pe.hint)) + "\n"@,
                ParserErrorKind::InvalidConstantValue(t) => "\nError: Invalid Constant Value: \""@ + t.text() + "\" \n"@ + ast_error_text(pe.spans.0@, opt_text(pe.hint)) + "\n"@,
                ParserErrorKind::InvalidTokenInMacroBody(t) => "\nError: Invalid Token In Macro Body: \""@ + t.text() + "\" \n"@ + ast_error_text(pe.spans.0@, opt_text(pe.hint)) + "\n"@,
                ParserErrorKind::InvalidTokenInLabelDefinition(t) => "\nError: Invalid Token In Label Defintiion: \""@ + t.text() + "\" \n"@ + ast_error_text(pe.spans.0@, opt_text(pe.hint)) + "\n"@,
                ParserErrorKind::InvalidSingleArg(t) => "\nError: Invalid Argument: \""@ + t.text() + "\" \n"@ + ast_error_text(pe.spans.0@, opt_text(pe.hint)) + "\n"@,
                ParserErrorKind::InvalidTableBodyToken(t) => "\nError: Invalid Token In Table Body: \""@ + t.text() + "\" \n"@ + ast_error_text(pe.spans.0@, opt_text(pe.hint)) + "\n"@,
                ParserErrorKind::InvalidConstant(t) => "\nError: Invalid Constant: \""@ + t.text() + "\" \n"@ + ast_error_text(pe.spans.0@, opt_text(pe.hint)) + "\n"@,
                ParserErrorKind::InvalidArgCallIdent(t) => "\nError: Invalid Argument Call Identifier: \""@ + t.text() + "\" \n"@ + ast_error_text(pe.spans.0@, opt_text(pe.hint)) + "\n"@,
                ParserErrorKind::InvalidName(t) => "\nError: Invalid Name: \""@ + t.text() + "\" \n"@ + ast_error_text(pe.spans.0@, opt_text(pe.hint)) + "\n"@,
                ParserErrorKind::InvalidArgs(t) => "\nError: Invalid Argument Type: \""@ + t.text() + "\" \n"@ + ast_error_text(pe.spans.0@, opt_text(pe.hint)) + "\n"@,
                ParserErrorKind::InvalidUint256(v) => "\nError: Invalid Uint256 Value: \""@ + decimal_text(v as nat) + "\" \n"@ + ast_error_text(pe.spans.0@, opt_text(pe.hint)) + "\n"@,
                ParserErrorKind::InvalidBytes(v) => "\nError: Invalid Bytes Value: \""@ + decimal_text(v as nat) + "\" \n"@ + ast_error_text(pe.spans.0@, opt_text(pe.hint)) + "\n"@,
                ParserErrorKind::InvalidInt(v) => "\nError: Invalid Int Value: \""@ + decimal_text(v as nat) + "\" \n"@ + ast_error_text(pe.spans.0@, opt_text(pe.hint)) + "\n"@,
                ParserErrorKind::InvalidMacroArgs(t) => "\nError: Invalid Macro Arguments: \""@ + t.text() + "\" \n"@ + ast_error_text(pe.spans.0@, opt_text(pe.hint)) + "\n"@,
                ParserErrorKind::InvalidReturnArgs => "\nError: Invalid Return Arguments\n"@ + ast_error_text(pe.spans.0@, opt_text(pe.hint)) + "\n"@,
                ParserErrorKind::InvalidImportPath(s) => "\nError: Invalid Import Path: \""@ + s@ + "\" \n"@ + ast_error_text(pe.spans.0@, opt_text(pe.hint)) + "\n"@,
                ParserErrorKind::InvalidDecoratorFlag(s) => "\nError: Invalid Decorator Flag: \""@ + s@ + "\" \n"@ + ast_error_text(pe.spans.0@, opt_text(pe.hint)) + "\n"@,
                ParserErrorKind::InvalidDecoratorFlagArg(t) => "\nError: Invalid Decorator Flag Argument: \""@ + t.text() + "\" \n"@ + ast_error_text(pe.spans.0@, opt_text(pe.hint)) + "\n"@,
            }
}

/// The message of a code generation error.
pub open spec fn codegen_text(ce: CodegenError) -> Seq<char> {
            match ce.kind {
                CodegenErrorKind::LockingError => "\nError: Synchronisation Failure\n"@,
                CodegenErrorKind::StoragePointersNotDerived => "\nError: Storage Pointers Not Derived\n"@ + ast_error_text(ce.span.0@, None) + "\n"@,
                CodegenErrorKind::InvalidMacroStatement => "\nError: Invalid Macro Statement\n"@ + ast_error_text(ce.span.0@, None) + "\n"@,
                CodegenErrorKind::MissingMacroDefinition(md) => "\nError: Missing Macro Definition For \""@ + md@ + "\"\n"@ + files_text(ce.span.0@),
                CodegenErrorKind::InvalidMacroInvocation(mmi) => "\nError: Missing Macro Definition For Invocation: \""@ + mmi@ + "\"\n"@ + ast_error_text(ce.span.0@, None) + "\n"@,
                CodegenErrorKind::MissingFunctionInterface(func) => "\nError: Missing Function Interface: \""@ + func@ + "\"\n"@ + ast_error_text(ce.span.0@, None) + "\n"@,
                CodegenErrorKind::MissingEventInterface(event) => "\nError: Missing Event Interface: \""@ + event@ + "\"\n"@ + ast_error_text(ce.span.0@, None) + "\n"@,
                CodegenErrorKind::MissingConstantDefinition(_) => "\nError: Missing Constant Definition\n"@ + ast_error_text(ce.span.0@, None) + "\n"@,
                CodegenErrorKind::MissingErrorDefinition(_) => "\nError: Missing Error Definition\n"@ + ast_error_text(ce.span.0@, None) + "\n"@,
                CodegenErrorKind::AbiGenerationFailure => "\nError: ABI Generation Failed\n"@ + ast_error_text(ce.span.0@, None) + "\n"@,
                CodegenErrorKind::IOError(ioe) => "\nError: IO Error: "@ + ioe@ + "\n"@ + files_text(ce.span.0@),
                CodegenErrorKind::UnkownArgcallType => "\nError: Unknown Arg Call Type\n"@ + ast_error_text(ce.span.0@, None) + "\n"@,
                CodegenErrorKind::MissingMacroInvocation(mmi) => "\nError: Missing Macro Invocation: \""@ + mmi@ + "\"\n"@ + ast_error_text(ce.span.0@, None) + "\n"@,
                CodegenErrorKind::UnmatchedJumpLabel => "\nError: Unmatched Jump Label\n"@ + ast_error_text(ce.span.0@, None) + "\n"@,
                CodegenErrorKind::UsizeConversion(_) => "\nError: Usize Conversion\n"@ + ast_error_text(ce.span.0@, None) + "\n"@,
                CodegenErrorKind::InvalidArguments(_) => "\nError: Invalid Arguments\n"@ + ast_error_text(ce.span.0@, None) + "\n"@,
                CodegenErrorKind::InvalidHex(_) => "\nError: Invalid Hex\n"@ + ast_error_text(ce.span.0@, None) + "\n"@,
                CodegenErrorKind::InvalidTableStatement(_) => "\nError: Invalid Table Statement\n"@ + ast_error_text(ce.span.0@, None) + "\n"@,
                CodegenErrorKind::InvalidCodeLength(_) => "\nError: Invalid Code Length\n"@ + ast_error_text(ce.span.0@, None) + "\n"@,
                CodegenErrorKind::TestInvocation(_) => "\nError: Test Invocation\n"@ + ast_error_text(ce.span.0@, None) + "\n"@,
                CodegenErrorKind::InvalidDynArgIndex => "\nError: Invalid Dynamic Constructor Argument Index:\n"@ + ast_error_text(ce.span.0@, None) + "\n"@,
            }
}

/// The message of an error, as it is displayed.
pub open spec fn compiler_error_text(e: CompilerError) -> Seq<char>
    decreases e,
{
    match e {
        CompilerError::LexicalError(le) => lexical_text(le),
        CompilerError::FileUnpackError(ue) => unpack_text(ue),
        CompilerError::ParserError(pe) => parser_text(pe),
        CompilerError::PathBufRead(p) => "\nError: Invalid Import Path: \""@ + match p {
            Some(s) => s@,
            None => "<unknown import>"@,
        } + "\""@,
        CompilerError::CodegenError(ce) => codegen_text(ce),
        CompilerError::FailedCompiles(v) => compiler_errors_text(v@),
    }
}

/// The messages of the errors, one after another.
pub open spec fn compiler_errors_text(es: Seq<CompilerError>) -> Seq<char>
    decreases es,
{
    if es.len() == 0 {
        Seq::empty()
    } else {
        compiler_errors_text(es.drop_last()) + compiler_error_text(es.last())
    }
}

fn lexical_chars(le: &LexicalError) -> (out: Vec<char>)
    requires
        span_seg_ok(le.span),
    ensures
        out@ == lexical_text(*le),
{
    let mut out: Vec<char> = Vec::new();
                match &le.kind {
                    LexicalErrorKind::UnexpectedEof => {
                        push_str(&mut out, "\nError: Unexpected End Of File ");
                        push_vec(&mut out, &chars_of(le.span.identifier().as_str()));
                        push_vec(&mut out, &chars_of(le.span.source_seg().as_str()));
                        push_str(&mut out, "\n");
                    },
                    LexicalErrorKind::InvalidCharacter(c) => {
                        push_str(&mut out, "\nError: Invalid Character: \"");
                        push_vec(&mut out, &one_char(*c));
                        push_str(&mut out, "\" ");
                        push_vec(&mut out, &chars_of(le.span.identifier().as_str()));
                        push_vec(&mut out, &chars_of(le.span.source_seg().as_str()));
                        push_str(&mut out, "\n");
                    },
                    LexicalErrorKind::InvalidArraySize(a) => {
                        push_str(&mut out, "\nError: Invalid Array Size: \"");
                        push_vec(&mut out, &chars_of(a.as_str()));
                        push_str(&mut out, "\" ");
                        push_vec(&mut out, &chars_of(le.span.identifier().as_str()));
                        push_vec(&mut out, &chars_of(le.span.source_seg().as_str()));
                        push_str(&mut out, "\n");
                    },
                    LexicalErrorKind::InvalidPrimitiveType(ty) => {
                        push_str(&mut out, "\nError: Invalid Primitive Type: \"");
                        push_vec(&mut out, &chars_of(ty.as_str()));
                        push_str(&mut out, "\" ");
                        push_vec(&mut out, &chars_of(le.span.identifier().as_str()));
                        push_vec(&mut out, &chars_of(le.span.source_seg().as_str()));
                        push_str(&mut out, "\n");
                    },
                }
    out
}

fn unpack_chars(ue: &UnpackError) -> (out: Vec<char>)
    ensures
        out@ == unpack_text(*ue),
{
    let mut out: Vec<char> = Vec::new();
                match ue {
                    UnpackError::InvalidDirectory(id) => {
                        push_str(&mut out, "\nError: Invalid File Directory ");
                        push_vec(&mut out, &chars_of(id.as_str()));
                        push_str(&mut out, "\n");
                    },
                    UnpackError::UnsupportedExtension(u) => {
                        push_str(&mut out, "\nError: Unsupported File Extension \"");
                        push_vec(&mut out, &extension_chars(u.as_str()));
                        push_str(&mut out, "\"\n--> ");
                        push_vec(&mut out, &chars_of(u.as_str()));
                        push_str(&mut out, "\n");
                    },
                    UnpackError::MissingFile(file) => {
                        push_str(&mut out, "\nError: File Not Found \"");
                        push_vec(&mut out, &chars_of(file.as_str()));
                        push_str(&mut out, "\"\n");
                    },
                }
    out
}

fn parser_chars(pe: &ParserError) -> (out: Vec<char>)
    requires
        spans_ok(pe.spans.0@),
    ensures
        out@ == parser_text(*pe),
{
    let mut out: Vec<char> = Vec::new();
                match &pe.kind {
                    ParserErrorKind::InvalidPush(op) => {
                        push_str(&mut out, "\nError: Invalid use of \"");
                        push_vec(&mut out, &chars_of(op.name()));
                        push_str(&mut out, "\" \n");
                        push_vec(&mut out, &chars_of(pe.spans.error(pe.hint.as_ref()).as_str()));
                        push_str(&mut out, "\n");
                    },
                    ParserErrorKind::UnexpectedType(t) => {
                        push_str(&mut out, "\nError: Unexpected Type: \"");
                        push_vec(&mut out, &chars_of(t.display().as_str()));
                        push_str(&mut out, "\" \n");
                        push_vec(&mut out, &chars_of(pe.spans.error(pe.hint.as_ref()).as_str()));
                        push_str(&mut out, "\n");
                    },
                    ParserErrorKind::InvalidTypeAsArgumentName(t) => {
                        push_str(&mut out, "\nError: Unexpected Argument Name is an EVM Type: \"");
                        push_vec(&mut out, &chars_of(t.display().as_str()));
                        push_str(&mut out, "\" \n");
                        push_vec(&mut out, &chars_of(pe.spans.error(pe.hint.as_ref()).as_str()));
                        push_str(&mut out, "\n");
                    },
                    ParserErrorKind::InvalidDefinition(t) => {
                        push_str(&mut out, "\nError: Invalid Defintion \"");
                        push_vec(&mut out, &chars_of(t.display().as_str()));
                        push_str(&mut out, "\"\n");
                        push_vec(&mut out, &chars_of(pe.spans.error(pe.hint.as_ref()).as_str()));
                        push_str(&mut out, "\n");
                    },
                    ParserErrorKind::InvalidConstantValue(t) => {
                        push_str(&mut out, "\nError: Invalid Constant Value: \"");
                        push_vec(&mut out, &chars_of(t.display().as_str()));
                        push_str(&mut out, "\" \n");
                        push_vec(&mut out, &chars_of(pe.spans.error(pe.hint.as_ref()).as_str()));
                        push_str(&mut out, "\n");
                    },
                    ParserErrorKind::InvalidTokenInMacroBody(t) => {
                        push_str(&mut out, "\nError: Invalid Token In Macro Body: \"");
                        push_vec(&mut out, &chars_of(t.display().as_str()));
                        push_str(&mut out, "\" \n");
                        push_vec(&mut out, &chars_of(pe.spans.error(pe.hint.as_ref()).as_str()));
                        push_str(&mut out, "\n");
                    },
                    ParserErrorKind::InvalidTokenInLabelDefinition(t) => {
                        push_str(&mut out, "\nError: Invalid Token In Label Defintiion: \"");
                        push_vec(&mut out, &chars_of(t.display().as_str()));
                        push_str(&mut out, "\" \n");
                        push_vec(&mut out, &chars_of(pe.spans.error(pe.hint.as_ref()).as_str()));
                        push_str(&mut out, "\n");
                    },
                    ParserErrorKind::InvalidSingleArg(t) => {
                        push_str(&mut out, "\nError: Invalid Argument: \"");
                        push_vec(&mut out, &chars_of(t.display().as_str()));
                        push_str(&mut out, "\" \n");
                        push_vec(&mut out, &chars_of(pe.spans.error(pe.hint.as_ref()).as_str()));
                        push_str(&mut out, "\n");
                    },
                    ParserErrorKind::InvalidTableBodyToken(t) => {
                        push_str(&mut out, "\nError: Invalid Token In Table Body: \"");
                        push_vec(&mut out, &chars_of(t.display().as_str()));
                        push_str(&mut out, "\" \n");
                        push_vec(&mut out, &chars_of(pe.spans.error(pe.hint.as_ref()).as_str()));
                        push_str(&mut out, "\n");
                    },
                    ParserErrorKind::InvalidConstant(t) => {
                        push_str(&mut out, "\nError: Invalid Constant: \"");
                        push_vec(&mut out, &chars_of(t.display().as_str()));
                        push_str(&mut out, "\" \n");
                        push_vec(&mut out, &chars_of(pe.spans.error(pe.hint.as_ref()).as_str()));
                        push_str(&mut out, "\n");
                    },
                    ParserErrorKind::InvalidArgCallIdent(t) => {
                        push_str(&mut out, "\nError: Invalid Argument Call Identifier: \"");
                        push_vec(&mut out, &chars_of(t.display().as_str()));
                        push_str(&mut out, "\" \n");
                        push_vec(&mut out, &chars_of(pe.spans.error(pe.hint.as_ref()).as_str()));
                        push_str(&mut out, "\n");
                    },
                    ParserErrorKind::InvalidName(t) => {
                        push_str(&mut out, "\nError: Invalid Name: \"");
                        push_vec(&mut out, &chars_of(t.display().as_str()));
                        push_str(&mut out, "\" \n");
                        push_vec(&mut out, &chars_of(pe.spans.error(pe.hint.as_ref()).as_str()));
                        push_str(&mut out, "\n");
                    },
                    ParserErrorKind::InvalidArgs(t) => {
                        push_str(&mut out, "\nError: Invalid Argument Type: \"");
                        push_vec(&mut out, &chars_of(t.display().as_str()));
                        push_str(&mut out, "\" \n");
                        push_vec(&mut out, &chars_of(pe.spans.error(pe.hint.as_ref()).as_str()));
                        push_str(&mut out, "\n");
                    },
                    ParserErrorKind::InvalidUint256(v) => {
                        push_str(&mut out, "\nError: Invalid Uint256 Value: \"");
                        push_vec(&mut out, &usize_text(*v));
                        push_str(&mut out, "\" \n");
                        push_vec(&mut out, &chars_of(pe.spans.error(pe.hint.as_ref()).as_str()));
                        push_str(&mut out, "\n");
                    },
                    ParserErrorKind::InvalidBytes(v) => {
                        push_str(&mut out, "\nError: Invalid Bytes Value: \"");
                        push_vec(&mut out, &usize_text(*v));
                        push_str(&mut out, "\" \n");
                        push_vec(&mut out, &chars_of(pe.spans.error(pe.hint.as_ref()).as_str()));
                        push_str(&mut out, "\n");
                    },
                    ParserErrorKind::InvalidInt(v) => {
                        push_str(&mut out, "\nError: Invalid Int Value: \"");
                        push_vec(&mut out, &usize_text(*v));
                        push_str(&mut out, "\" \n");
                        push_vec(&mut out, &chars_of(pe.spans.error(pe.hint.as_ref()).as_str()));
                        push_str(&mut out, "\n");
                    },
                    ParserErrorKind::InvalidMacroArgs(t) => {
                        push_str(&mut out, "\nError: Invalid Macro Arguments: \"");
                        push_vec(&mut out, &chars_of(t.display().as_str()));
                        push_str(&mut out, "\" \n");
                        push_vec(&mut out, &chars_of(pe.spans.error(pe.hint.as_ref()).as_str()));
                        push_str(&mut out, "\n");
                    },
                    ParserErrorKind::InvalidReturnArgs => {
                        push_str(&mut out, "\nError: Invalid Return Arguments\n");
                        push_vec(&mut out, &chars_of(pe.spans.error(pe.hint.as_ref()).as_str()));
                        push_str(&mut out, "\n");
                    },
                    ParserErrorKind::InvalidImportPath(s) => {
                        push_str(&mut out, "\nError: Invalid Import Path: \"");
                        push_vec(&mut out, &chars_of(s.as_str()));
                        push_str(&mut out, "\" \n");
                        push_vec(&mut out, &chars_of(pe.spans.error(pe.hint.as_ref()).as_str()));
                        push_str(&mut out, "\n");
                    },
                    ParserErrorKind::InvalidDecoratorFlag(s) => {
                        push_str(&mut out, "\nError: Invalid Decorator Flag: \"");
                        push_vec(&mut out, &chars_of(s.as_str()));
                        push_str(&mut out, "\" \n");
                        push_vec(&mut out, &chars_of(pe.spans.error(pe.hint.as_ref()).as_str()));
                        push_str(&mut out, "\n");
                    },
                    ParserErrorKind::InvalidDecoratorFlagArg(t) => {
                        push_str(&mut out, "\nError: Invalid Decorator Flag Argument: \"");
                        push_vec(&mut out, &chars_of(t.display().as_str()));
                        push_str(&mut out, "\" \n");
                        push_vec(&mut out, &chars_of(pe.spans.error(pe.hint.as_ref()).as_str()));
                        push_str(&mut out, "\n");
                    },
                }
    out
}

fn codegen_chars(ce: &CodegenError) -> (out: Vec<char>)
    requires
        spans_ok(ce.span.0@),
    ensures
        out@ == codegen_text(*ce),
{
    let mut out: Vec<char> = Vec::new();
                match &ce.kind {
                    CodegenErrorKind::LockingError => {
                        push_str(&mut out, "\nError: Synchronisation Failure\n");
                    },
                    CodegenErrorKind::StoragePointersNotDerived => {
                        push_str(&mut out, "\nError: Storage Pointers Not Derived\n");
                        push_vec(&mut out, &chars_of(ce.span.error(None).as_str()));
                        push_str(&mut out, "\n");
                    },
                    CodegenErrorKind::InvalidMacroStatement => {
                        push_str(&mut out, "\nError: Invalid Macro Statement\n");
                        push_vec(&mut out, &chars_of(ce.span.error(None).as_str()));
                        push_str(&mut out, "\n");
                    },
                    CodegenErrorKind::MissingMacroDefinition(md) => {
                        push_str(&mut out, "\nError: Missing Macro Definition For \"");
                        push_vec(&mut out, &chars_of(md.as_str()));
                        push_str(&mut out, "\"\n");
                        push_vec(&mut out, &chars_of(ce.span.file().as_str()));
                    },
                    CodegenErrorKind::InvalidMacroInvocation(mmi) => {
                        push_str(&mut out, "\nError: Missing Macro Definition For Invocation: \"");
                        push_vec(&mut out, &chars_of(mmi.as_str()));
                        push_str(&mut out, "\"\n");
                        push_vec(&mut out, &chars_of(ce.span.error(None).as_str()));
                        push_str(&mut out, "\n");
                    },
                    CodegenErrorKind::MissingFunctionInterface(func) => {
                        push_str(&mut out, "\nError: Missing Function Interface: \"");
                        push_vec(&mut out, &chars_of(func.as_str()));
                        push_str(&mut out, "\"\n");
                        push_vec(&mut out, &chars_of(ce.span.error(None).as_str()));
                        push_str(&mut out, "\n");
                    },
                    CodegenErrorKind::MissingEventInterface(event) => {
                        push_str(&mut out, "\nError: Missing Event Interface: \"");
                        push_vec(&mut out, &chars_of(event.as_str()));
                        push_str(&mut out, "\"\n");
                        push_vec(&mut out, &chars_of(ce.span.error(None).as_str()));
                        push_str(&mut out, "\n");
                    },
                    CodegenErrorKind::MissingConstantDefinition(_) => {
                        push_str(&mut out, "\nError: Missing Constant Definition\n");
                        push_vec(&mut out, &chars_of(ce.span.error(None).as_str()));
                        push_str(&mut out, "\n");
                    },
                    CodegenErrorKind::MissingErrorDefinition(_) => {
                        push_str(&mut out, "\nError: Missing Error Definition\n");
                        push_vec(&mut out, &chars_of(ce.span.error(None).as_str()));
                        push_str(&mut out, "\n");
                    },
                    CodegenErrorKind::AbiGenerationFailure => {
                        push_str(&mut out, "\nError: ABI Generation Failed\n");
                        push_vec(&mut out, &chars_of(ce.span.error(None).as_str()));
                        push_str(&mut out, "\n");
                    },
                    CodegenErrorKind::IOError(ioe) => {
                        push_str(&mut out, "\nError: IO Error: ");
                        push_vec(&mut out, &chars_of(ioe.as_str()));
                        push_str(&mut out, "\n");
                        push_vec(&mut out, &chars_of(ce.span.file().as_str()));
                    },
                    CodegenErrorKind::UnkownArgcallType => {
                        push_str(&mut out, "\nError: Unknown Arg Call Type\n");
                        push_vec(&mut out, &chars_of(ce.span.error(None).as_str()));
                        push_str(&mut out, "\n");
                    },
                    CodegenErrorKind::MissingMacroInvocation(mmi) => {
                        push_str(&mut out, "\nError: Missing Macro Invocation: \"");
                        push_vec(&mut out, &chars_of(mmi.as_str()));
                        push_str(&mut out, "\"\n");
                        push_vec(&mut out, &chars_of(ce.span.error(None).as_str()));
                        push_str(&mut out, "\n");
                    },
                    CodegenErrorKind::UnmatchedJumpLabel => {
                        push_str(&mut out, "\nError: Unmatched Jump Label\n");
                        push_vec(&mut out, &chars_of(ce.span.error(None).as_str()));
                        push_str(&mut out, "\n");
                    },
                    CodegenErrorKind::UsizeConversion(_) => {
                        push_str(&mut out, "\nError: Usize Conversion\n");
                        push_vec(&mut out, &chars_of(ce.span.error(None).as_str()));
                        push_str(&mut out, "\n");
                    },
                    CodegenErrorKind::InvalidArguments(_) => {
                        push_str(&mut out, "\nError: Invalid Arguments\n");
                        push_vec(&mut out, &chars_of(ce.span.error(None).as_str()));
                        push_str(&mut out, "\n");
                    },
                    CodegenErrorKind::InvalidHex(_) => {
                        push_str(&mut out, "\nError: Invalid Hex\n");
                        push_vec(&mut out, &chars_of(ce.span.error(None).as_str()));
                        push_str(&mut out, "\n");
                    },
                    CodegenErrorKind::InvalidTableStatement(_) => {
                        push_str(&mut out, "\nError: Invalid Table Statement\n");
                        push_vec(&mut out, &chars_of(ce.span.error(None).as_str()));
                        push_str(&mut out, "\n");
                    },
                    CodegenErrorKind::InvalidCodeLength(_) => {
                        push_str(&mut out, "\nError: Invalid Code Length\n");
                        push_vec(&mut out, &chars_of(ce.span.error(None).as_str()));
                        push_str(&mut out, "\n");
                    },
                    CodegenErrorKind::TestInvocation(_) => {
                        push_str(&mut out, "\nError: Test Invocation\n");
                        push_vec(&mut out, &chars_of(ce.span.error(None).as_str()));
                        push_str(&mut out, "\n");
                    },
                    CodegenErrorKind::InvalidDynArgIndex => {
                        push_str(&mut out, "\nError: Invalid Dynamic Constructor Argument Index:\n");
                        push_vec(&mut out, &chars_of(ce.span.error(None).as_str()));
                        push_str(&mut out, "\n");
                    },
                }
    out
}

impl CompilerError {
    /// The message of the error, as it is displayed.
    pub fn display(&self) -> (r: String)
        requires
            compiler_error_ok(*self),
        ensures
            r@ == compiler_error_text(*self),
        decreases self,
    {
        let mut out: Vec<char> = Vec::new();
        match self {
            CompilerError::LexicalError(le) => {
                out = lexical_chars(le);
            },
            CompilerError::FileUnpackError(ue) => {
                out = unpack_chars(ue);
            },
            CompilerError::ParserError(pe) => {
                out = parser_chars(pe);
            },
            CompilerError::PathBufRead(p) => {
                push_str(&mut out, "\nError: Invalid Import Path: \"");
                match p {
                    Some(s) => push_str(&mut out, s.as_str()),
                    None => push_str(&mut out, "<unknown import>"),
                }
                push_str(&mut out, "\"");
            },
            CompilerError::CodegenError(ce) => {
                out = codegen_chars(ce);
            },
            CompilerError::FailedCompiles(v) => {
                let mut i: usize = 0;
                proof {
                    assert(decreases_to!(*self => v@));
                    assert(v@.take(0) =~= Seq::<CompilerError>::empty());
                    lemma_errors_ok_all(v@);
                }
                while i < v.len()
                    invariant
                        i <= v@.len(),
                        decreases_to!(*self => v@),
                        forall|j: int| 0 <= j < v@.len() ==> compiler_error_ok(#[trigger] v@[j]),
                        out@ == compiler_errors_text(v@.take(i as int)),
                    decreases v.len() - i,
                {
                    proof {
                        let t = v@.take(i + 1);
                        assert(t.drop_last() =~= v@.take(i as int));
                        assert(t.last() == v@[i as int]);
                        assert(decreases_to!(v@ => v@[i as int]));
                    }
                    let text = v[i].display();
                    push_str(&mut out, text.as_str());
                    i = i + 1;
                }
                assert(v@.take(v@.len() as int) =~= v@);
            },
        }
        string_of(&out)
    }
}

proof fn lemma_errors_ok_all(es: Seq<CompilerError>)
    requires
        compiler_errors_ok(es),
    ensures
        forall|j: int| 0 <= j < es.len() ==> compiler_error_ok(#[trigger] es[j]),
    decreases es.len(),
{
    if es.len() > 0 {
        lemma_errors_ok_all(es.drop_last());
        assert forall|j: int| 0 <= j < es.len() implies compiler_error_ok(#[trigger] es[j]) by {
            if j < es.len() - 1 {
                assert(es.drop_last()[j] == es[j]);
            }
        }
    }
}

} // verus!

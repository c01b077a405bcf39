//! The abstract syntax tree of a Huff contract.

use std::path::PathBuf;
use vstd::prelude::*;

use crate::bytes_util::{bytes32_text, bytes32_to_string, hex_of_bytes};
use crate::evm::Opcode;
use crate::files::Span;
use crate::text::{chars_of, push_vec, same_text, string_of};
use crate::token::TokenKind;

verus! {

/// Declares std's owned path type, carried through as an opaque value.
#[verifier::external_type_specification]
#[verifier::external_body]
pub struct ExPathBuf(PathBuf);

/// `PathBuf::clone` (std); nothing is claimed of the copy.
pub assume_specification[ <PathBuf as Clone>::clone ](p: &PathBuf) -> PathBuf;

/// A contained literal
pub type Literal = [u8; 32];

/// A File Path
///
/// Used for parsing the huff imports.
pub type FilePath = PathBuf;

/// An AST-level Span
#[derive(Debug, Default, Clone, PartialEq, Eq, PartialOrd, Ord)]
pub struct AstSpan(pub Vec<Span>);

/// A Huff Contract Representation
///
/// This is the representation of a contract as it is parsed from huff source code.
/// Thus, it is also the root of the AST.
#[derive(Debug, Default, Clone)]
pub struct Contract {
    /// Macro definitions
    pub macros: Vec<MacroDefinition>,
    /// Invocations of macros
    pub invocations: Vec<MacroInvocation>,
    /// File Imports
    pub imports: Vec<FilePath>,
    /// Constants
    pub constants: Vec<ConstantDefinition>,
    /// Custom Errors
    pub errors: Vec<ErrorDefinition>,
    /// Functions
    pub functions: Vec<FunctionDefinition>,
    /// Events
    pub events: Vec<EventDefinition>,
    /// Tables
    pub tables: Vec<TableDefinition>,
}

/// An argument's location
#[derive(Debug, Default, Clone, PartialEq, Eq, PartialOrd, Ord)]
pub enum ArgumentLocation {
    /// Memory location
    #[default]
    Memory,
    /// Storage location
    Storage,
    /// Calldata location
    Calldata,
}

/// A function, event, or macro argument
#[derive(Debug, Default, Clone, PartialEq, Eq, PartialOrd, Ord)]
pub struct Argument {
    /// Type of the argument
    pub arg_type: Option<String>,
    /// Optional Argument Location
    pub arg_location: Option<ArgumentLocation>,
    /// The name of the argument
    pub name: Option<String>,
    /// Is the argument indexed? TODO: should be valid for event arguments ONLY
    pub indexed: bool,
    /// The argument span
    pub span: AstSpan,
}

/// A Function Signature
#[derive(Debug, Clone, PartialEq, Eq, PartialOrd, Ord)]
pub struct FunctionDefinition {
    /// The name of the function
    pub name: String,
    /// The function signature
    pub signature: [u8; 4],
    /// The parameters of the function
    pub inputs: Vec<Argument>,
    /// The function type
    pub fn_type: FunctionType,
    /// The return values of the function
    pub outputs: Vec<Argument>,
    /// The span of the function
    pub span: AstSpan,
}

/// Function Types
#[derive(Debug, Clone, Copy, PartialEq, Eq, PartialOrd, Ord, Structural)]
pub enum FunctionType {
    /// Viewable Function
    View,
    /// Payable Function
    Payable,
    /// Non Payable Function
    NonPayable,
    /// Pure Function
    Pure,
}

impl FunctionType {
    /// The mutability keyword used in a Solidity interface: ` view`, ` pure`, or nothing
    /// (payable and nonpayable are not valid in interfaces).
    pub open spec fn mutability_text(self) -> Seq<char> {
        match self {
            FunctionType::View => seq![' ', 'v', 'i', 'e', 'w'],
            FunctionType::Pure => seq![' ', 'p', 'u', 'r', 'e'],
            _ => Seq::empty(),
        }
    }

    /// Get the string representation of the function type for usage in Solidity interface
    /// generation.
    pub fn interface_mutability(&self) -> (r: &str)
        ensures
            r@ == self.mutability_text(),
    {
        proof {
            reveal_strlit(" view");
            reveal_strlit(" pure");
            reveal_strlit("");
        }
        match self {
            FunctionType::View => " view",
            FunctionType::Pure => " pure",
            _ => "",
        }
    }
}

/// An Event Signature
#[derive(Debug, Default, Clone, PartialEq, Eq, PartialOrd, Ord)]
pub struct EventDefinition {
    /// The name of the event
    pub name: String,
    /// The parameters of the event
    pub parameters: Vec<Argument>,
    /// The event span
    pub span: AstSpan,
    /// The event hash
    pub hash: Literal,
}

/// A Table Definition
#[derive(Debug, Clone)]
pub struct TableDefinition {
    /// The name of the table
    pub name: String,
    /// The table kind
    pub kind: TableKind,
    /// The table's statements
    pub statements: Vec<Statement>,
    /// Size of table
    pub size: Literal,
    /// The table span
    pub span: AstSpan,
}

impl TableDefinition {
    /// Public associated function that instantiates a TableDefinition from a string
    pub fn new(
        name: String,
        kind: TableKind,
        statements: Vec<Statement>,
        size: Literal,
        span: AstSpan,
    ) -> (t: Self)
        ensures
            t.name == name,
            t.kind == kind,
            t.statements == statements,
            t.size == size,
            t.span == span,
    {
        TableDefinition { name, kind, statements, size, span }
    }
}

/// A Table Kind
#[derive(Debug, Clone, Copy, PartialEq, Eq, PartialOrd, Ord, Structural)]
pub enum TableKind {
    /// A regular jump table
    JumpTable,
    /// A packed jump table
    JumpTablePacked,
    /// A code table
    CodeTable,
}

/// A Macro Definition
#[derive(Debug, Clone)]
pub struct MacroDefinition {
    /// The Macro Name
    pub name: String,
    /// The macro's decorator
    pub decorator: Option<Decorator>,
    /// A list of Macro parameters
    pub parameters: Vec<Argument>,
    /// A list of Statements contained in the Macro
    pub statements: Vec<Statement>,
    /// The take size
    pub takes: usize,
    /// The return size
    pub return_size: usize,
    /// The Span of the Macro Definition
    pub span: AstSpan,
    /// Is the macro a function (outlined)?
    pub outlined: bool,
    /// Is the macro a test?
    pub test: bool,
}

impl MacroDefinition {
    /// Public associated function that instantiates a MacroDefinition.
    #[allow(clippy::too_many_arguments)]
    pub fn new(
        name: String,
        decorator: Option<Decorator>,
        parameters: Vec<Argument>,
        statements: Vec<Statement>,
        takes: usize,
        return_size: usize,
        spans: Vec<Span>,
        outlined: bool,
        test: bool,
    ) -> (m: Self)
        ensures
            m.name == name,
            m.decorator == decorator,
            m.parameters == parameters,
            m.statements == statements,
            m.takes == takes,
            m.return_size == return_size,
            m.span == AstSpan(spans),
            m.outlined == outlined,
            m.test == test,
    {
        MacroDefinition {
            name,
            decorator,
            parameters,
            statements,
            takes,
            return_size,
            span: AstSpan(spans),
            outlined,
            test,
        }
    }
}

/// A Macro Invocation
#[derive(Debug, Clone, PartialEq, Eq, PartialOrd, Ord)]
pub struct MacroInvocation {
    /// The Macro Name
    pub macro_name: String,
    /// A list of Macro arguments
    pub args: Vec<MacroArg>,
    /// The Macro Invocation Span
    pub span: AstSpan,
}

/// An argument passed when invoking a maco
#[derive(Debug, Clone, PartialEq, Eq, PartialOrd, Ord)]
pub enum MacroArg {
    /// Macro Literal Argument
    Literal(Literal),
    /// Macro Iden String Argument
    Ident(String),
    /// An Arg Call
    ArgCall(String),
}

/// Free Storage Pointer Unit Struct
#[derive(Debug, Clone, Copy, PartialEq, Eq, PartialOrd, Ord, Structural)]
pub struct FreeStoragePointer;

/// A Constant Value
#[derive(Debug, Clone, Copy, PartialEq, Eq, PartialOrd, Ord)]
pub enum ConstVal {
    /// A literal value for the constant
    Literal(Literal),
    /// A Free Storage Pointer
    FreeStoragePointer(FreeStoragePointer),
}

/// A Constant Definition
#[derive(Debug, Clone, PartialEq, Eq, PartialOrd, Ord)]
pub struct ConstantDefinition {
    /// The Constant name
    pub name: String,
    /// The Constant value
    pub value: ConstVal,
    /// The Span of the Constant Definition
    pub span: AstSpan,
}

/// An Error Definition
#[derive(Debug, Clone, PartialEq, Eq, PartialOrd, Ord)]
pub struct ErrorDefinition {
    /// The Error name
    pub name: String,
    /// The Error's selector
    pub selector: [u8; 4],
    /// The parameters of the error
    pub parameters: Vec<Argument>,
    /// The Span of the Constant Definition
    pub span: AstSpan,
}

/// A Jump Destination
#[derive(Debug)]
pub struct Label {
    /// The JumpDest Name
    pub name: String,
    /// Statements Inside The JumpDest
    pub inner: Vec<Statement>,
    /// The label span
    pub span: AstSpan,
}

/// A Builtin Function Call
#[derive(Debug, Clone, PartialEq, Eq, PartialOrd, Ord)]
pub struct BuiltinFunctionCall {
    /// The Builtin Kind
    pub kind: BuiltinFunctionKind,
    /// Arguments for the builtin function call.
    pub args: Vec<Argument>,
    /// The builtin function call span
    pub span: AstSpan,
}

/// A Builtin Function Kind
#[derive(Debug, Clone, Copy, PartialEq, Eq, PartialOrd, Ord, Structural)]
pub enum BuiltinFunctionKind {
    /// Table size function
    Tablesize,
    /// Code size function
    Codesize,
    /// Table start function
    Tablestart,
    /// Function signature function
    FunctionSignature,
    /// Event hash function
    EventHash,
    /// Error selector function
    Error,
    /// Rightpad function
    RightPad,
    /// Dynamic constructor arg function
    DynConstructorArg,
    /// Inject Raw Bytes
    Verbatim,
}

/// A Statement
#[derive(Debug)]
pub struct Statement {
    /// The type of statement
    pub ty: StatementType,
    /// The span of the Statement
    pub span: AstSpan,
}

/// The Statement Type
#[derive(Debug)]
pub enum StatementType {
    /// A Literal Statement
    Literal(Literal),
    /// An Opcode Statement
    Opcode(Opcode),
    /// A Code Statement
    Code(String),
    /// A Macro Invocation Statement
    MacroInvocation(MacroInvocation),
    /// A Constant Push
    Constant(String),
    /// An Arg Call
    ArgCall(String),
    /// A Label
    Label(Label),
    /// A Label Reference/Call
    LabelCall(String),
    /// A built-in function call
    BuiltinFunctionCall(BuiltinFunctionCall),
}

/// Whether two span lists hold the same spans.
pub open spec fn same_spans(a: AstSpan, b: AstSpan) -> bool {
    a.0@ == b.0@
}

/// Whether two macro invocations name the same macro with the same arguments and spans.
pub open spec fn same_invocation(a: MacroInvocation, b: MacroInvocation) -> bool {
    a.macro_name == b.macro_name && a.args@ == b.args@ && same_spans(a.span, b.span)
}

/// Whether two arguments agree in every field, their spans taken by their contents.
pub open spec fn same_argument(a: Argument, b: Argument) -> bool {
    &&& a.arg_type == b.arg_type
    &&& a.arg_location == b.arg_location
    &&& a.name == b.name
    &&& a.indexed == b.indexed
    &&& same_spans(a.span, b.span)
}

/// Whether two builtin calls are of the same kind with the same arguments and spans.
pub open spec fn same_builtin(a: BuiltinFunctionCall, b: BuiltinFunctionCall) -> bool {
    &&& a.kind == b.kind
    &&& a.args@.len() == b.args@.len()
    &&& forall|i: int| 0 <= i < a.args@.len() ==> same_argument(#[trigger] a.args@[i], b.args@[i])
    &&& same_spans(a.span, b.span)
}

/// Whether two statements are of the same type with the same contents and spans.
pub open spec fn same_statement(a: Statement, b: Statement) -> bool
    decreases a,
{
    same_kind(a.ty, b.ty) && same_spans(a.span, b.span)
}

/// Whether two statement types are the same variant with the same contents.
pub open spec fn same_kind(a: StatementType, b: StatementType) -> bool
    decreases a,
{
    match (a, b) {
        (StatementType::Literal(x), StatementType::Literal(y)) => x == y,
        (StatementType::Opcode(x), StatementType::Opcode(y)) => x == y,
        (StatementType::Code(x), StatementType::Code(y)) => x == y,
        (StatementType::MacroInvocation(x), StatementType::MacroInvocation(y)) => same_invocation(x, y),
        (StatementType::Constant(x), StatementType::Constant(y)) => x == y,
        (StatementType::ArgCall(x), StatementType::ArgCall(y)) => x == y,
        (StatementType::Label(x), StatementType::Label(y)) => x.name == y.name && same_spans(x.span, y.span)
            && same_statements(x.inner@, y.inner@),
        (StatementType::LabelCall(x), StatementType::LabelCall(y)) => x == y,
        (StatementType::BuiltinFunctionCall(x), StatementType::BuiltinFunctionCall(y)) => same_builtin(x, y),
        _ => false,
    }
}

/// Whether two sequences of statements agree statement by statement.
pub open spec fn same_statements(a: Seq<Statement>, b: Seq<Statement>) -> bool
    decreases a,
{
    if a.len() == 0 {
        b.len() == 0
    } else {
        b.len() == a.len() && same_statements(a.drop_last(), b.drop_last()) && same_statement(a.last(), b.last())
    }
}

/// A copy of a list of spans.
fn copy_spans(a: &AstSpan) -> (r: AstSpan)
    ensures
        same_spans(*a, r),
{
    let mut v: Vec<Span> = Vec::new();
    let mut i: usize = 0;
    while i < a.0.len()
        invariant
            i <= a.0@.len(),
            v@ == a.0@.take(i as int),
        decreases a.0.len() - i,
    {
        v.push(a.0[i].clone());
        assert(a.0@.take(i + 1) =~= a.0@.take(i as int).push(a.0@[i as int]));
        i = i + 1;
    }
    assert(a.0@.take(a.0@.len() as int) =~= a.0@);
    AstSpan(v)
}

/// A copy of a macro argument.
fn copy_macro_arg(a: &MacroArg) -> (r: MacroArg)
    ensures
        r == *a,
{
    match a {
        MacroArg::Literal(l) => MacroArg::Literal(*l),
        MacroArg::Ident(n) => MacroArg::Ident(n.clone()),
        MacroArg::ArgCall(n) => MacroArg::ArgCall(n.clone()),
    }
}

/// A copy of a macro invocation.
fn copy_invocation(m: &MacroInvocation) -> (r: MacroInvocation)
    ensures
        same_invocation(*m, r),
{
    let mut args: Vec<MacroArg> = Vec::new();
    let mut i: usize = 0;
    while i < m.args.len()
        invariant
            i <= m.args@.len(),
            args@ == m.args@.take(i as int),
        decreases m.args.len() - i,
    {
        args.push(copy_macro_arg(&m.args[i]));
        assert(m.args@.take(i + 1) =~= m.args@.take(i as int).push(m.args@[i as int]));
        i = i + 1;
    }
    assert(m.args@.take(m.args@.len() as int) =~= m.args@);
    MacroInvocation { macro_name: m.macro_name.clone(), args, span: copy_spans(&m.span) }
}

/// A copy of an optional text.
fn copy_opt_text(o: &Option<String>) -> (r: Option<String>)
    ensures
        r == *o,
{
    match o {
        Some(t) => Some(t.clone()),
        None => None,
    }
}

/// A copy of an argument.
fn copy_argument(a: &Argument) -> (r: Argument)
    ensures
        same_argument(*a, r),
{
    let arg_location = match &a.arg_location {
        Some(ArgumentLocation::Memory) => Some(ArgumentLocation::Memory),
        Some(ArgumentLocation::Storage) => Some(ArgumentLocation::Storage),
        Some(ArgumentLocation::Calldata) => Some(ArgumentLocation::Calldata),
        None => None,
    };
    Argument {
        arg_type: copy_opt_text(&a.arg_type),
        arg_location,
        name: copy_opt_text(&a.name),
        indexed: a.indexed,
        span: copy_spans(&a.span),
    }
}

/// A copy of a builtin function call.
fn copy_builtin(b: &BuiltinFunctionCall) -> (r: BuiltinFunctionCall)
    ensures
        same_builtin(*b, r),
{
    let mut args: Vec<Argument> = Vec::new();
    let mut i: usize = 0;
    while i < b.args.len()
        invariant
            i <= b.args@.len(),
            args@.len() == i,
            forall|j: int| 0 <= j < i ==> same_argument(#[trigger] b.args@[j], args@[j]),
        decreases b.args.len() - i,
    {
        args.push(copy_argument(&b.args[i]));
        i = i + 1;
    }
    BuiltinFunctionCall { kind: b.kind, args, span: copy_spans(&b.span) }
}

impl Statement {
    /// A copy of the statement: the same type, contents and spans.
    fn copy_statement(&self) -> (r: Statement)
        ensures
            same_statement(*self, r),
        decreases self,
    {
        proof {
            assert(decreases_to!(*self => self.ty));
        }
        Statement { ty: self.ty.copy_kind(), span: copy_spans(&self.span) }
    }
}

impl StatementType {
    /// A copy of the statement type: the same variant with the same contents.
    fn copy_kind(&self) -> (r: StatementType)
        ensures
            same_kind(*self, r),
        decreases self,
    {
        match self {
            StatementType::Literal(l) => StatementType::Literal(*l),
            StatementType::Opcode(o) => StatementType::Opcode(*o),
            StatementType::Code(c) => StatementType::Code(c.clone()),
            StatementType::MacroInvocation(m) => StatementType::MacroInvocation(copy_invocation(m)),
            StatementType::Constant(c) => StatementType::Constant(c.clone()),
            StatementType::ArgCall(c) => StatementType::ArgCall(c.clone()),
            StatementType::Label(l) => {
                proof {
                    assert(decreases_to!(*self => (*self)->Label_0));
                    assert(decreases_to!((*self)->Label_0 => (*self)->Label_0.inner));
                }
                let mut inner: Vec<Statement> = Vec::new();
                let mut i: usize = 0;
                while i < l.inner.len()
                    invariant
                        decreases_to!(*self => l.inner),
                        i <= l.inner@.len(),
                        same_statements(l.inner@.take(i as int), inner@),
                    decreases l.inner.len() - i,
                {
                    proof {
                        vstd::std_specs::vec::axiom_vec_index_decreases(l.inner, i as int);
                    }
                    let c = l.inner[i].copy_statement();
                    let ghost before = inner@;
                    inner.push(c);
                    proof {
                        let t = l.inner@.take(i + 1);
                        assert(t.drop_last() =~= l.inner@.take(i as int));
                        assert(inner@.drop_last() =~= before);
                        assert(t.last() == l.inner@[i as int]);
                    }
                    i = i + 1;
                }
                assert(l.inner@.take(l.inner@.len() as int) =~= l.inner@);
                StatementType::Label(Label { name: l.name.clone(), inner, span: copy_spans(&l.span) })
            },
            StatementType::LabelCall(c) => StatementType::LabelCall(c.clone()),
            StatementType::BuiltinFunctionCall(b) => StatementType::BuiltinFunctionCall(copy_builtin(b)),
        }
    }
}

impl Clone for Statement {
    fn clone(&self) -> Statement {
        self.copy_statement()
    }
}

impl Clone for StatementType {
    fn clone(&self) -> StatementType {
        self.copy_kind()
    }
}

/// A decorator tag
///
/// At the moment, the decorator tag can only be placed over test definitions. Developers
/// can use decorators to define environment variables and other metadata for their individual
/// tests.
#[derive(Debug, Clone, PartialEq, Eq, PartialOrd, Ord)]
pub struct Decorator {
    /// Vector of flags passed within the decorator
    pub flags: Vec<DecoratorFlag>,
}

/// A decorator flag
#[derive(Debug, Clone, PartialEq, Eq, PartialOrd, Ord)]
pub enum DecoratorFlag {
    /// Sets the calldata of the test call transaction
    Calldata(String),
    /// Sets the value of the test call transaction
    Value(Literal),
}

/// The builtin function a name calls.
pub open spec fn builtin_named(name: Seq<char>) -> Option<BuiltinFunctionKind> {
    if name == "__tablesize"@ {
        Some(BuiltinFunctionKind::Tablesize)
    } else if name == "__codesize"@ {
        Some(BuiltinFunctionKind::Codesize)
    } else if name == "__tablestart"@ {
        Some(BuiltinFunctionKind::Tablestart)
    } else if name == "__FUNC_SIG"@ {
        Some(BuiltinFunctionKind::FunctionSignature)
    } else if name == "__EVENT_HASH"@ {
        Some(BuiltinFunctionKind::EventHash)
    } else if name == "__ERROR"@ {
        Some(BuiltinFunctionKind::Error)
    } else if name == "__RIGHTPAD"@ {
        Some(BuiltinFunctionKind::RightPad)
    } else if name == "__CODECOPY_DYN_ARG"@ {
        Some(BuiltinFunctionKind::DynConstructorArg)
    } else if name == "__VERBATIM"@ {
        Some(BuiltinFunctionKind::Verbatim)
    } else {
        None
    }
}

impl BuiltinFunctionKind {
    /// The name of the kind as `Debug` writes it: its variant's name.
    pub open spec fn name_text(self) -> Seq<char> {
        match self {
            BuiltinFunctionKind::Tablesize => "Tablesize"@,
            BuiltinFunctionKind::Codesize => "Codesize"@,
            BuiltinFunctionKind::Tablestart => "Tablestart"@,
            BuiltinFunctionKind::FunctionSignature => "FunctionSignature"@,
            BuiltinFunctionKind::EventHash => "EventHash"@,
            BuiltinFunctionKind::Error => "Error"@,
            BuiltinFunctionKind::RightPad => "RightPad"@,
            BuiltinFunctionKind::DynConstructorArg => "DynConstructorArg"@,
            BuiltinFunctionKind::Verbatim => "Verbatim"@,
        }
    }

    /// The name of the kind as `Debug` writes it: its variant's name.
    pub fn name(&self) -> (r: &'static str)
        ensures
            r@ == self.name_text(),
    {
        match self {
            BuiltinFunctionKind::Tablesize => "Tablesize",
            BuiltinFunctionKind::Codesize => "Codesize",
            BuiltinFunctionKind::Tablestart => "Tablestart",
            BuiltinFunctionKind::FunctionSignature => "FunctionSignature",
            BuiltinFunctionKind::EventHash => "EventHash",
            BuiltinFunctionKind::Error => "Error",
            BuiltinFunctionKind::RightPad => "RightPad",
            BuiltinFunctionKind::DynConstructorArg => "DynConstructorArg",
            BuiltinFunctionKind::Verbatim => "Verbatim",
        }
    }

    /// The builtin function a name calls; the name must be one of them.
    pub fn from(value: String) -> (r: Self)
        requires
            builtin_named(value@) is Some,
        ensures
            builtin_named(value@) == Some(r),
    {
        match Self::try_from(&value) {
            Ok(k) => k,
            Err(_) => {
                assert(false);
                BuiltinFunctionKind::Tablesize
            },
        }
    }

    /// The builtin function a name calls; `Err` for a name that calls none.
    pub fn try_from(value: &String) -> (r: Result<Self, ()>)
        ensures
            match r {
                Ok(k) => builtin_named(value@) == Some(k),
                Err(_) => builtin_named(value@) is None,
            },
    {
        if same_text(value.as_str(), "__tablesize") {
            Ok(BuiltinFunctionKind::Tablesize)
        } else if same_text(value.as_str(), "__codesize") {
            Ok(BuiltinFunctionKind::Codesize)
        } else if same_text(value.as_str(), "__tablestart") {
            Ok(BuiltinFunctionKind::Tablestart)
        } else if same_text(value.as_str(), "__FUNC_SIG") {
            Ok(BuiltinFunctionKind::FunctionSignature)
        } else if same_text(value.as_str(), "__EVENT_HASH") {
            Ok(BuiltinFunctionKind::EventHash)
        } else if same_text(value.as_str(), "__ERROR") {
            Ok(BuiltinFunctionKind::Error)
        } else if same_text(value.as_str(), "__RIGHTPAD") {
            Ok(BuiltinFunctionKind::RightPad)
        } else if same_text(value.as_str(), "__CODECOPY_DYN_ARG") {
            Ok(BuiltinFunctionKind::DynConstructorArg)
        } else if same_text(value.as_str(), "__VERBATIM") {
            Ok(BuiltinFunctionKind::Verbatim)
        } else {
            Err(())
        }
    }
}

impl TableKind {
    /// The kind of table a table keyword declares; the token must be one of them.
    pub fn from(token_kind: TokenKind) -> (r: Self)
        requires
            token_kind is JumpTable || token_kind is JumpTablePacked || token_kind is CodeTable,
        ensures
            token_kind is JumpTable ==> r == TableKind::JumpTable,
            token_kind is JumpTablePacked ==> r == TableKind::JumpTablePacked,
            token_kind is CodeTable ==> r == TableKind::CodeTable,
    {
        match token_kind {
            TokenKind::JumpTable => TableKind::JumpTable,
            TokenKind::JumpTablePacked => TableKind::JumpTablePacked,
            _ => TableKind::CodeTable,
        }
    }
}

impl DecoratorFlag {
    /// The decorator flag a name stands for, with an empty argument: `calldata` or `value`;
    /// `Err` for any other name.
    pub fn try_from(value: &String) -> (r: Result<Self, ()>)
        ensures
            value@ == "calldata"@ ==> (r matches Ok(DecoratorFlag::Calldata(s)) && s@ == Seq::<char>::empty()),
            value@ == "value"@ ==> (r matches Ok(DecoratorFlag::Value(l)) && forall|i: int|
                0 <= i < 32 ==> l@[i] == 0u8),
            value@ != "calldata"@ && value@ != "value"@ ==> r is Err,
    {
        proof {
            reveal_strlit("calldata");
            reveal_strlit("value");
        }
        if same_text(value.as_str(), "calldata") {
            assert("calldata"@.len() == 8 && "value"@.len() == 5);
            Ok(DecoratorFlag::Calldata(String::new()))
        } else if same_text(value.as_str(), "value") {
            let l: [u8; 32] = [0u8; 32];
            let r = DecoratorFlag::Value(l);
            assert(r matches DecoratorFlag::Value(x) && forall|i: int| 0 <= i < 32 ==> x@[i] == 0u8);
            Ok(r)
        } else {
            Err(())
        }
    }
}

impl StatementType {
    /// The text of the statement, as it is displayed.
    pub open spec fn text(self) -> Seq<char> {
        match self {
            StatementType::Literal(l) => "LITERAL: "@ + bytes32_text(l@, true),
            StatementType::Opcode(o) => "OPCODE: "@ + hex_of_bytes(seq![o.code()]),
            StatementType::Code(s) => "CODE: "@ + s@,
            StatementType::MacroInvocation(m) => "MACRO INVOCATION: "@ + m.macro_name@,
            StatementType::Constant(c) => "CONSTANT: "@ + c@,
            StatementType::ArgCall(c) => "ARG CALL: "@ + c@,
            StatementType::Label(l) => "LABEL: "@ + l.name@,
            StatementType::LabelCall(l) => "LABEL CALL: "@ + l@,
            StatementType::BuiltinFunctionCall(b) => "BUILTIN FUNCTION CALL: "@ + b.kind.name_text(),
        }
    }

    /// The text of the statement, as it is displayed.
    pub fn display(&self) -> (r: String)
        ensures
            r@ == self.text(),
    {
        let mut out: Vec<char> = Vec::new();
        match self {
            StatementType::Literal(l) => {
                push_vec(&mut out, &chars_of("LITERAL: "));
                push_vec(&mut out, &chars_of(bytes32_to_string(l, true).as_str()));
            },
            StatementType::Opcode(o) => {
                push_vec(&mut out, &chars_of("OPCODE: "));
                push_vec(&mut out, &chars_of(o.string().as_str()));
            },
            StatementType::Code(s) => {
                push_vec(&mut out, &chars_of("CODE: "));
                push_vec(&mut out, &chars_of(s.as_str()));
            },
            StatementType::MacroInvocation(m) => {
                push_vec(&mut out, &chars_of("MACRO INVOCATION: "));
                push_vec(&mut out, &chars_of(m.macro_name.as_str()));
            },
            StatementType::Constant(c) => {
                push_vec(&mut out, &chars_of("CONSTANT: "));
                push_vec(&mut out, &chars_of(c.as_str()));
            },
            StatementType::ArgCall(c) => {
                push_vec(&mut out, &chars_of("ARG CALL: "));
                push_vec(&mut out, &chars_of(c.as_str()));
            },
            StatementType::Label(l) => {
                push_vec(&mut out, &chars_of("LABEL: "));
                push_vec(&mut out, &chars_of(l.name.as_str()));
            },
            StatementType::LabelCall(l) => {
                push_vec(&mut out, &chars_of("LABEL CALL: "));
                push_vec(&mut out, &chars_of(l.as_str()));
            },
            StatementType::BuiltinFunctionCall(b) => {
                push_vec(&mut out, &chars_of("BUILTIN FUNCTION CALL: "));
                push_vec(&mut out, &chars_of(b.kind.name()));
            },
        }
        string_of(&out)
    }
}

} // verus!

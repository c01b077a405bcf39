use std::sync::Arc;

use huff_utils::ast::AstSpan;
use huff_utils::error::{
    CodegenError, CodegenErrorKind, CompilerError, LexicalError, LexicalErrorKind, ParserError, ParserErrorKind,
};
use huff_utils::evm::Opcode;
use huff_utils::files::{FileSource, Span};
use huff_utils::io::UnpackError;
use huff_utils::report::Reporter;
use huff_utils::token::TokenKind;

fn file(path: &str, source: &str) -> Arc<FileSource> {
    Arc::new(FileSource {
        id: uuid::Uuid::nil(),
        path: path.to_string(),
        source: Some(source.to_string()),
        access: None,
        dependencies: None,
    })
}

#[test]
fn lexical_messages() {
    let e = LexicalError::new(LexicalErrorKind::InvalidCharacter('$'), Span::eof());
    assert_eq!(e.report_message(), "Invalid character '$'");
    assert_eq!(LexicalErrorKind::UnexpectedEof.report_message(), "Found unexpected EOF");
    assert_eq!(LexicalErrorKind::InvalidArraySize("x".to_string()).report_message(), "Invalid array size: 'x'");
    assert_eq!(
        LexicalErrorKind::InvalidPrimitiveType("u".to_string()).report_message(),
        "Invalid Primitive EVM Type 'u'"
    );
}

#[test]
fn codegen_messages() {
    let e = CodegenError::new(CodegenErrorKind::MissingMacroDefinition("M".to_string()), AstSpan(vec![]), None);
    assert_eq!(e.report_message(), "Missing Macro \"M\" Definition!");
    assert_eq!(CodegenErrorKind::InvalidCodeLength(7).report_message(), "Invalid code length: 7");
    assert_eq!(CodegenErrorKind::IOError("a\"b".to_string()).report_message(), "IO ERROR: \"a\\\"b\"");
    assert_eq!(CodegenErrorKind::LockingError.report_message(), "Synchronisation Error - Please execute again!");
}

#[test]
fn compiler_error_display() {
    let f = file("./x.huff", "line one\nline two\nline three");
    let span = Span { start: 9, end: 13, file: Some(f.clone()) };
    let le = CompilerError::LexicalError(LexicalError::new(LexicalErrorKind::InvalidCharacter('%'), span.clone()));
    assert_eq!(
        le.display(),
        format!("\nError: Invalid Character: \"%\" \n-> ./x.huff:9-13{}\n", span.source_seg())
    );
    assert_eq!(span.source_seg(), "\n      |\n  > 2 | line two\n      |");

    let pe = CompilerError::ParserError(ParserError {
        kind: ParserErrorKind::InvalidName(TokenKind::Ident("foo".to_string())),
        hint: Some("rename it".to_string()),
        spans: AstSpan(vec![span.clone()]),
    });
    assert_eq!(
        pe.display(),
        format!("\nError: Invalid Name: \"foo\" \nrename it\n-> ./x.huff:9-13{}\n", span.source_seg())
    );

    let push = CompilerError::ParserError(ParserError {
        kind: ParserErrorKind::InvalidPush(Opcode::Push1),
        hint: None,
        spans: AstSpan(vec![]),
    });
    assert_eq!(push.display(), "\nError: Invalid use of \"Push1\" \n\n");

    let ce = CompilerError::CodegenError(CodegenError::new(
        CodegenErrorKind::MissingMacroDefinition("MAIN".to_string()),
        AstSpan(vec![span.clone()]),
        None,
    ));
    assert_eq!(ce.display(), "\nError: Missing Macro Definition For \"MAIN\"\n-> ./x.huff\n");

    let ue = CompilerError::FileUnpackError(UnpackError::UnsupportedExtension("a.txt".to_string()));
    assert_eq!(ue.display(), "\nError: Unsupported File Extension \"txt\"\n--> a.txt\n");
    let pb = CompilerError::PathBufRead(None);
    assert_eq!(pb.display(), "\nError: Invalid Import Path: \"<unknown import>\"");
    let many = CompilerError::FailedCompiles(vec![pb, CompilerError::FileUnpackError(UnpackError::MissingFile("m".to_string()))]);
    assert_eq!(
        many.display(),
        "\nError: Invalid Import Path: \"<unknown import>\"\nError: File Not Found \"m\"\n"
    );
}

#[test]
fn ast_span_error_groups_by_file() {
    let a = file("a.huff", "xyz");
    let b = file("b.huff", "abc\ndef");
    let spans = AstSpan(vec![
        Span { start: 4, end: 7, file: Some(b.clone()) },
        Span { start: 0, end: 0, file: Some(a.clone()) },
        Span { start: 1, end: 2, file: None },
    ]);
    let text = spans.error(None);
    assert_eq!(text, "-> a.huff:0\n   > 0|\n-> b.huff:4-7\n      |\n  > 2 | def\n      |");
    assert_eq!(spans.error(Some(&"hint".to_string())), format!("hint\n{text}"));
    assert_eq!(AstSpan(vec![Span { start: 4, end: 7, file: Some(b.clone()) }]).file(), "-> b.huff\n");
    assert_eq!(AstSpan(vec![Span { start: 4, end: 7, file: Some(b) }, Span { start: 0, end: 1, file: Some(a) }]).file(), "-> a.huff\n-> b.huff\n");
}

#[test]
fn reporter_text() {
    let r = Reporter::new((), "abc def");
    let s = Span { start: 4, end: 7, file: None };
    assert_eq!(r.report("bad", &s), "[error]: bad\nabc def\n    ^ \n");
    assert_eq!(r.report("eof", &Span::eof()), "[error]: eof\nabc def\n       ^ \n");
}

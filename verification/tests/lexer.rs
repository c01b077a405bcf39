use huff_utils::files::Span;
use huff_utils::lexer::Lexer;

#[test]
fn instantiates() {
    let source = "";
    let lexer = Lexer::new(source);
    assert_eq!(lexer.source, source);
    assert_eq!(lexer.span, Span::default());
    assert!(!lexer.eof);
}

#[test]
fn lexer_peeks_without_consuming() {
    let mut lexer = Lexer::new("ab");
    assert_eq!(lexer.peek(), Some('a'));
    assert_eq!(lexer.peek(), Some('a'));
    assert_eq!(lexer.pos, 0);
}

#[test]
fn lexer_consumes_and_widens_span() {
    let mut lexer = Lexer::new("ab");
    assert_eq!(lexer.consume(), Some('a'));
    assert_eq!(lexer.consume(), Some('b'));
    assert_eq!(lexer.consume(), None);
    assert_eq!(lexer.span.start, 0);
    assert_eq!(lexer.span.end, 2);
    assert_eq!(lexer.pos, 2);
}

#[test]
fn lexer_dyn_consume_stops_at_first_failing_char() {
    let mut lexer = Lexer::new("123abc");
    lexer.dyn_consume(|c: &char| c.is_ascii_digit());
    assert_eq!(lexer.pos, 3);
    assert_eq!(lexer.slice(), "123");
    assert_eq!(lexer.peek(), Some('a'));
}

#[test]
fn lexer_dyn_consume_to_end() {
    let mut lexer = Lexer::new("aaa");
    lexer.dyn_consume(|c: &char| *c == 'a');
    assert_eq!(lexer.pos, 3);
    assert_eq!(lexer.peek(), None);
}

#[test]
fn lexer_reset_starts_next_token() {
    let mut lexer = Lexer::new("ab cd");
    lexer.dyn_consume(|c: &char| *c != ' ');
    lexer.reset();
    assert_eq!(lexer.span.start, 2);
    lexer.consume();
    lexer.dyn_consume(|c: &char| *c != ' ');
    assert_eq!(lexer.slice(), " cd");
}

#[test]
fn lexer_current_span_at_eof() {
    let mut lexer = Lexer::new("x");
    lexer.consume();
    assert_eq!(lexer.current_span(), Span::new(0..1, None));
    lexer.eof = true;
    assert_eq!(lexer.current_span(), Span::eof());
}

use huff_utils::error::{LexicalError, LexicalErrorKind};
use huff_utils::lexer::{Definition, LexToken, LexTokenKind};

fn span(start: usize, end: usize) -> Span {
    Span { start, end, file: None }
}

fn token(kind: LexTokenKind, start: usize, end: usize) -> Option<Result<LexToken, LexicalError>> {
    Some(Ok(LexToken { kind, span: span(start, end) }))
}

#[test]
fn next_token_reads_ident_operator_number() {
    let mut lexer = Lexer::new("ab1+23");
    assert_eq!(lexer.next_token(), token(LexTokenKind::Ident("ab1".to_string()), 0, 3));
    assert!(!lexer.eof);
    assert_eq!(lexer.next_token(), token(LexTokenKind::Add, 3, 4));
    assert_eq!(lexer.next_token(), token(LexTokenKind::Num(23), 4, 6));
    assert!(lexer.eof);
    assert_eq!(lexer.next_token(), None);
    assert!(lexer.eof);
}

#[test]
fn next_token_reads_punctuation_and_whitespace() {
    let mut lexer = Lexer::new("; = ( ) , - *");
    let kinds = [
        LexTokenKind::Semi,
        LexTokenKind::Whitespace,
        LexTokenKind::Assign,
        LexTokenKind::Whitespace,
        LexTokenKind::OpenParen,
        LexTokenKind::Whitespace,
        LexTokenKind::CloseParen,
        LexTokenKind::Whitespace,
        LexTokenKind::Comma,
        LexTokenKind::Whitespace,
        LexTokenKind::Sub,
        LexTokenKind::Whitespace,
        LexTokenKind::Mul,
    ];
    for (i, kind) in kinds.iter().enumerate() {
        assert_eq!(lexer.next_token(), token(kind.clone(), i, i + 1));
    }
    assert_eq!(lexer.next_token(), None);
}

#[test]
fn next_token_takes_a_whitespace_run() {
    let mut lexer = Lexer::new(" \t\n x");
    assert_eq!(lexer.next_token(), token(LexTokenKind::Whitespace, 0, 4));
    assert_eq!(lexer.next_token(), token(LexTokenKind::Ident("x".to_string()), 4, 5));
}

#[test]
fn next_token_reads_line_comment_to_line_end() {
    let mut lexer = Lexer::new("// note\n+");
    assert_eq!(lexer.next_token(), token(LexTokenKind::Comment("// note".to_string()), 0, 7));
    assert_eq!(lexer.next_token(), token(LexTokenKind::Whitespace, 7, 8));
    assert_eq!(lexer.next_token(), token(LexTokenKind::Add, 8, 9));
}

#[test]
fn next_token_reads_block_comment_up_to_its_close() {
    let mut lexer = Lexer::new("/* a */");
    assert_eq!(lexer.next_token(), token(LexTokenKind::Comment("/* a ".to_string()), 0, 5));
    assert_eq!(lexer.next_token(), token(LexTokenKind::Mul, 5, 6));
    assert_eq!(lexer.next_token(), token(LexTokenKind::Div, 6, 7));
    assert_eq!(lexer.next_token(), None);
}

#[test]
fn next_token_reads_division() {
    let mut lexer = Lexer::new("/");
    assert_eq!(lexer.next_token(), token(LexTokenKind::Div, 0, 1));
    assert!(lexer.eof);
    let mut lexer = Lexer::new("/a");
    assert_eq!(lexer.next_token(), token(LexTokenKind::Div, 0, 2));
}

#[test]
fn next_token_reads_definitions() {
    let mut lexer = Lexer::new("##define M\n#@import x");
    assert_eq!(
        lexer.next_token(),
        token(LexTokenKind::Definition(Definition::Macro("##define M".to_string())), 0, 10)
    );
    assert_eq!(lexer.next_token(), token(LexTokenKind::Whitespace, 10, 11));
    assert_eq!(
        lexer.next_token(),
        token(LexTokenKind::Definition(Definition::Import("#@import x".to_string())), 11, 21)
    );
    let mut lexer = Lexer::new("#x");
    assert_eq!(lexer.next_token(), token(LexTokenKind::Div, 0, 2));
}

#[test]
fn next_token_reads_string_literals() {
    let mut lexer = Lexer::new("\"ab\"");
    assert_eq!(lexer.next_token(), token(LexTokenKind::Str("ab".to_string()), 0, 4));
    assert!(lexer.eof);
    let mut lexer = Lexer::new("\"a\\\"b\" ");
    assert_eq!(lexer.next_token(), token(LexTokenKind::Str("a\\\"b".to_string()), 0, 6));
    assert!(!lexer.eof);
}

#[test]
fn next_token_reports_unterminated_string() {
    let mut lexer = Lexer::new("\"ab");
    assert_eq!(
        lexer.next_token(),
        Some(Err(LexicalError { kind: LexicalErrorKind::UnexpectedEof, span: span(0, 3) }))
    );
    assert!(lexer.eof);
}

#[test]
fn next_token_reports_invalid_character() {
    let mut lexer = Lexer::new("$+");
    assert_eq!(
        lexer.next_token(),
        Some(Err(LexicalError { kind: LexicalErrorKind::InvalidCharacter('$'), span: span(0, 1) }))
    );
    assert!(!lexer.eof);
    assert_eq!(lexer.next_token(), token(LexTokenKind::Add, 1, 2));
}

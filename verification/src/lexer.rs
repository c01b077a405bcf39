//! The Huff lexer: a character cursor over the source that tracks the span of the token
//! being read, and the tokenizer that reads one token at a time.

use vstd::prelude::*;
use vstd::string::StringSliceAdditionalSpecFns;
use vstd::utf8::{
    decode_utf8, encode_utf8, encode_utf8_decode_utf8, encode_utf8_valid_utf8, is_char_boundary,
    is_char_boundary_iff_not_is_continuation_byte, is_char_boundary_start_end_of_seq, valid_utf8,
    valid_utf8_split,
};

use crate::error::{LexicalError, LexicalErrorKind};
use crate::files::Span;
use crate::text::{chars_of, parse_usize, usize_value};
use crate::types::{alphanumeric, ascii_letter, is_alphanumeric};

verus! {

/// ## Lexer
///
/// The lexer encapsulated in a struct.
pub struct Lexer<'a> {
    /// The characters of the source code.
    pub chars: Vec<char>,
    /// How many of those characters have been consumed.
    pub pos: usize,
    /// The raw source code.
    pub source: &'a str,
    /// The current lexing span.
    pub span: Span,
    /// If the lexer has reached the end of file.
    pub eof: bool,
}

/// A character boundary of a UTF-8 text is one of each prefix that reaches it.
proof fn lemma_boundary_in_prefix(b: Seq<u8>, e: int, s: int)
    requires
        valid_utf8(b),
        0 <= s <= e <= b.len(),
        is_char_boundary(b, e),
        is_char_boundary(b, s),
    ensures
        is_char_boundary(b.subrange(0, e), s),
{
    valid_utf8_split(b, e);
    let p = b.subrange(0, e);
    if s == e {
        is_char_boundary_start_end_of_seq(p);
        assert(p.len() == e);
    } else if s > 0 {
        is_char_boundary_iff_not_is_continuation_byte(p, s);
        is_char_boundary_iff_not_is_continuation_byte(b, s);
        assert(p[s] == b[s]);
    }
}

impl<'a> Lexer<'a> {
    /// The lexer's state is consistent: its characters are those of the source, the
    /// position lies within them, and the span, which has no file, ends at the position.
    pub open spec fn wf(&self) -> bool {
        &&& self.chars@ == self.source@
        &&& self.pos <= self.chars@.len()
        &&& self.span.start <= self.span.end
        &&& self.span.end == self.pos
        &&& self.span.file is None
    }

    /// The next character, if any is left.
    pub open spec fn next_char(&self) -> Option<char> {
        if self.pos < self.chars@.len() {
            Some(self.chars@[self.pos as int])
        } else {
            None
        }
    }

    /// Public associated function that instantiates a new lexer.
    pub fn new(source: &'a str) -> (r: Self)
        ensures
            r.wf(),
            r.source == source,
            r.pos == 0,
            r.span.start == 0,
            r.span.end == 0,
            r.span.file is None,
            !r.eof,
    {
        Self { chars: chars_of(source), pos: 0, source, span: Span { start: 0, end: 0, file: None }, eof: false }
    }

    /// Public associated function that returns the current lexing span: the end-of-file span
    /// once the end is reached, the span being read before.
    pub fn current_span(&self) -> (r: Span)
        ensures
            self.eof ==> r.is_eof(),
            !self.eof ==> r == self.span,
    {
        if self.eof {
            Span::eof()
        } else {
            self.span.clone()
        }
    }

    /// Try to peek at the next character from the source
    pub fn peek(&mut self) -> (r: Option<char>)
        ensures
            *final(self) == *old(self),
            r == old(self).next_char(),
    {
        if self.pos < self.chars.len() {
            Some(self.chars[self.pos])
        } else {
            None
        }
    }

    /// Gets the current slice of the source code covered by span (its positions are those
    /// of bytes of the source).
    pub fn slice(&self) -> (r: &'a str)
        requires
            !self.span.is_eof(),
            self.span.start <= self.span.end <= self.source.spec_bytes().len(),
            is_char_boundary(self.source.spec_bytes(), self.span.start as int),
            is_char_boundary(self.source.spec_bytes(), self.span.end as int),
        ensures
            r.spec_bytes() == self.source.spec_bytes().subrange(
                self.span.start as int,
                self.span.end as int,
            ),
    {
        let ghost b = self.source.spec_bytes();
        proof {
            encode_utf8_valid_utf8(self.source@);
        }
        let (head, _) = self.source.split_at(self.span.end);
        proof {
            lemma_boundary_in_prefix(b, self.span.end as int, self.span.start as int);
        }
        let (_, r) = head.split_at(self.span.start);
        proof {
            assert(r.spec_bytes() =~= b.subrange(self.span.start as int, self.span.end as int));
        }
        r
    }

    /// Consumes the next character, widening the span over it.
    pub fn consume(&mut self) -> (r: Option<char>)
        requires
            old(self).wf(),
        ensures
            final(self).wf(),
            r == old(self).next_char(),
            final(self).chars == old(self).chars,
            final(self).source == old(self).source,
            final(self).eof == old(self).eof,
            final(self).span.start == old(self).span.start,
            r is Some ==> final(self).pos == old(self).pos + 1,
            r is None ==> final(self).pos == old(self).pos,
    {
        if self.pos < self.chars.len() {
            let c = self.chars[self.pos];
            self.pos = self.pos + 1;
            self.span.end = self.span.end + 1;
            Some(c)
        } else {
            None
        }
    }

    /// Dynamically consumes characters based on filters: consumes characters as long as the
    /// next one passes `f`.
    pub fn dyn_consume<F: Fn(&char) -> bool + Copy>(&mut self, f: F)
        requires
            old(self).wf(),
            forall|c: char| call_requires(f, (&c,)),
        ensures
            final(self).wf(),
            final(self).chars == old(self).chars,
            final(self).source == old(self).source,
            final(self).eof == old(self).eof,
            final(self).span.start == old(self).span.start,
            old(self).pos <= final(self).pos,
            forall|j: int|
                old(self).pos <= j < final(self).pos ==> call_ensures(
                    f,
                    (&final(self).chars@[j],),
                    true,
                ),
            final(self).pos < final(self).chars@.len() ==> call_ensures(
                f,
                (&final(self).chars@[final(self).pos as int],),
                false,
            ),
    {
        let ghost start = self.pos;
        loop
            invariant
                self.wf(),
                self.chars == old(self).chars,
                self.source == old(self).source,
                self.eof == old(self).eof,
                self.span.start == old(self).span.start,
                start == old(self).pos,
                start <= self.pos,
                forall|c: char| call_requires(f, (&c,)),
                forall|j: int| start <= j < self.pos ==> call_ensures(f, (&self.chars@[j],), true),
            ensures
                self.wf(),
                self.chars == old(self).chars,
                self.source == old(self).source,
                self.eof == old(self).eof,
                self.span.start == old(self).span.start,
                start <= self.pos,
                forall|j: int| start <= j < self.pos ==> call_ensures(f, (&self.chars@[j],), true),
                self.pos < self.chars@.len() ==> call_ensures(
                    f,
                    (&self.chars@[self.pos as int],),
                    false,
                ),
            decreases self.chars@.len() - self.pos,
        {
            match self.peek() {
                Some(c) => {
                    if f(&c) {
                        self.consume();
                    } else {
                        break;
                    }
                },
                None => {
                    break;
                },
            }
        }
    }

    /// Resets the Lexer's span: the next token starts where the last one ended.
    pub fn reset(&mut self)
        ensures
            final(self).span.start == old(self).span.end,
            final(self).span.end == old(self).span.end,
            final(self).span.file == old(self).span.file,
            final(self).chars == old(self).chars,
            final(self).pos == old(self).pos,
            final(self).source == old(self).source,
            final(self).eof == old(self).eof,
            old(self).wf() ==> final(self).wf(),
    {
        self.span.start = self.span.end;
    }
}


// ---------------------------------------------------------------------------
// Tokens
// ---------------------------------------------------------------------------

/// A definition line: `##…` defines a macro, `#@…` an import.
#[derive(Debug, PartialEq, Eq, Clone)]
pub enum Definition {
    /// `##…`, the text of the line
    Macro(String),
    /// `#@…`, the text of the line
    Import(String),
}

/// The kind of token the lexer reads.
#[derive(Debug, PartialEq, Eq, Clone)]
pub enum LexTokenKind {
    /// Addition
    Add,
    /// Subtraction
    Sub,
    /// Multiplication
    Mul,
    /// Division
    Div,
    /// Semicolon
    Semi,
    /// Equal Sign
    Assign,
    /// An open parenthesis
    OpenParen,
    /// A close parenthesis
    CloseParen,
    /// A comma
    Comma,
    /// A run of white space
    Whitespace,
    /// A numeric literal
    Num(usize),
    /// A string literal, without its quotes
    Str(String),
    /// An Identifier
    Ident(String),
    /// A comment, with its `//` or `/*`
    Comment(String),
    /// A definition line
    Definition(Definition),
}

/// A token the lexer reads, with its span.
#[derive(Debug, PartialEq, Eq, Clone)]
pub struct LexToken {
    /// The kind of token
    pub kind: LexTokenKind,
    /// Where it stands in the source
    pub span: Span,
}

/// The value of a token kind: texts as characters.
pub enum KindModel {
    Add,
    Sub,
    Mul,
    Div,
    Semi,
    Assign,
    OpenParen,
    CloseParen,
    Comma,
    Whitespace,
    Num(nat),
    Str(Seq<char>),
    Ident(Seq<char>),
    Comment(Seq<char>),
    MacroDefinition(Seq<char>),
    ImportDefinition(Seq<char>),
}

impl LexTokenKind {
    /// The value of the kind.
    pub open spec fn model(self) -> KindModel {
        match self {
            LexTokenKind::Add => KindModel::Add,
            LexTokenKind::Sub => KindModel::Sub,
            LexTokenKind::Mul => KindModel::Mul,
            LexTokenKind::Div => KindModel::Div,
            LexTokenKind::Semi => KindModel::Semi,
            LexTokenKind::Assign => KindModel::Assign,
            LexTokenKind::OpenParen => KindModel::OpenParen,
            LexTokenKind::CloseParen => KindModel::CloseParen,
            LexTokenKind::Comma => KindModel::Comma,
            LexTokenKind::Whitespace => KindModel::Whitespace,
            LexTokenKind::Num(n) => KindModel::Num(n as nat),
            LexTokenKind::Str(t) => KindModel::Str(t@),
            LexTokenKind::Ident(t) => KindModel::Ident(t@),
            LexTokenKind::Comment(t) => KindModel::Comment(t@),
            LexTokenKind::Definition(Definition::Macro(t)) => KindModel::MacroDefinition(t@),
            LexTokenKind::Definition(Definition::Import(t)) => KindModel::ImportDefinition(t@),
        }
    }
}

/// Whether `char::is_alphabetic` (std) holds of a character: the Unicode `Alphabetic`
/// property.
pub uninterp spec fn alphabetic(c: char) -> bool;

/// `char::is_alphabetic` (std).
///
/// Claims that the result is the named property of the character, and, for an ASCII
/// character, that it holds of the letters alone (the Unicode `Alphabetic` property within
/// ASCII). Beyond ASCII the property is named only.
#[verifier::external_body]
fn is_alphabetic(c: char) -> (r: bool)
    ensures
        r == alphabetic(c),
        c <= '\u{7f}' ==> (r <==> ascii_letter(c)),
{
    c.is_alphabetic()
}

/// Whether a character is ASCII white space as `char::is_ascii_whitespace` documents it:
/// space, tab, line feed, form feed or carriage return.
pub open spec fn ascii_space(c: char) -> bool {
    c == ' ' || c == '\t' || c == '\n' || c == '\x0C' || c == '\r'
}

/// The runs of characters the lexer consumes after the first of a token.
#[derive(Clone, Copy)]
pub enum Run {
    /// up to a line feed
    Line,
    /// up to a `*` followed by `/`
    Block,
    /// ASCII digits
    Digits,
    /// ASCII white space
    Space,
    /// alphanumeric characters
    Word,
}

/// Whether the run goes on over the character at `j`.
pub open spec fn run_keeps(cs: Seq<char>, j: int, run: Run) -> bool {
    match run {
        Run::Line => cs[j] != '\n',
        Run::Block => cs[j] != '*' || !(j + 1 < cs.len() && cs[j + 1] == '/'),
        Run::Digits => '0' <= cs[j] <= '9',
        Run::Space => ascii_space(cs[j]),
        Run::Word => alphanumeric(cs[j]),
    }
}

/// Where a run that starts at `i` ends.
pub open spec fn run_end(cs: Seq<char>, i: int, run: Run) -> int
    decreases cs.len() - i,
{
    if 0 <= i < cs.len() && run_keeps(cs, i, run) {
        run_end(cs, i + 1, run)
    } else {
        i
    }
}

/// Where a string literal whose text starts at `i` ends (just past its closing quote): a
/// backslash before a backslash or a quote takes both; `None` where the source ends first.
pub open spec fn string_end(cs: Seq<char>, i: int) -> Option<int>
    decreases cs.len() - i,
{
    if i < 0 || i >= cs.len() {
        None
    } else if cs[i] == '"' {
        Some(i + 1)
    } else if cs[i] == '\\' && i + 1 < cs.len() && (cs[i + 1] == '\\' || cs[i + 1] == '"') {
        string_end(cs, i + 2)
    } else {
        string_end(cs, i + 1)
    }
}

/// The bytes of the source between two positions, as `slice` takes them (the positions
/// read as byte offsets); `None` where slicing there panics.
pub open spec fn slice_bytes(source: Seq<char>, start: int, end: int) -> Option<Seq<u8>> {
    let b = encode_utf8(source);
    if 0 <= start <= end <= b.len() && is_char_boundary(b, start) && is_char_boundary(b, end) {
        Some(b.subrange(start, end))
    } else {
        None
    }
}

/// What the lexer's next step gives.
pub enum LexStep {
    /// The step panics (a slice that is no text of the source, or a number too large).
    Panics,
    /// Nothing is left: no token, and the end of file is reached.
    Done,
    /// A token of this kind that ends at the position.
    Token(KindModel, int),
    /// A character no token starts with, at the span up to the position.
    BadChar(char, int),
    /// A string literal the source ends inside of, up to the position.
    Unterminated(int),
}

/// A token made of the source text between two positions.
pub open spec fn text_token(l: Lexer, start: int, end: int, kind: spec_fn(Seq<char>) -> KindModel) -> LexStep {
    match slice_bytes(l.source@, start, end) {
        Some(b) => LexStep::Token(kind(decode_utf8(b)), end),
        None => LexStep::Panics,
    }
}

/// The lexer's next step from its state, for the character at its position:
/// - `/` then `/` or `*`: a comment to the end of the line or to the `*` before a `/` (left
///   unread); `/` then anything else takes both characters as a division;
/// - `#` then `#` or `@`: a macro or import definition to the end of the line; `#` then
///   anything else takes both characters as a division;
/// - `+ - *`, `; = ( ) ,`: those tokens;
/// - a digit: the number of the digit run; ASCII white space: a white-space run;
/// - `"`: a string literal, its text without the quotes, or an error where the source ends
///   inside it;
/// - an alphabetic character: an identifier of the alphanumeric run;
/// - anything else: an invalid-character error.
pub open spec fn lex_next(l: Lexer) -> LexStep {
    let cs = l.chars@;
    let p = l.pos as int;
    let n = cs.len() as int;
    if p >= n {
        LexStep::Done
    } else {
        let ch = cs[p];
        if ch == '/' {
            if p + 1 < n {
                if cs[p + 1] == '/' {
                    text_token(l, p, run_end(cs, p + 2, Run::Line), |t: Seq<char>| KindModel::Comment(t))
                } else if cs[p + 1] == '*' {
                    text_token(l, p, run_end(cs, p + 2, Run::Block), |t: Seq<char>| KindModel::Comment(t))
                } else {
                    LexStep::Token(KindModel::Div, p + 2)
                }
            } else {
                LexStep::Token(KindModel::Div, p + 1)
            }
        } else if ch == '#' {
            if p + 1 < n {
                if cs[p + 1] == '#' {
                    text_token(l, p, run_end(cs, p + 2, Run::Line), |t: Seq<char>| KindModel::MacroDefinition(t))
                } else if cs[p + 1] == '@' {
                    text_token(l, p, run_end(cs, p + 2, Run::Line), |t: Seq<char>| KindModel::ImportDefinition(t))
                } else {
                    LexStep::Token(KindModel::Div, p + 2)
                }
            } else {
                LexStep::Token(KindModel::Div, p + 1)
            }
        } else if ch == '+' {
            LexStep::Token(KindModel::Add, p + 1)
        } else if ch == '-' {
            LexStep::Token(KindModel::Sub, p + 1)
        } else if ch == '*' {
            LexStep::Token(KindModel::Mul, p + 1)
        } else if '0' <= ch <= '9' {
            let e = run_end(cs, p + 1, Run::Digits);
            match slice_bytes(l.source@, p, e) {
                Some(b) => match usize_value(decode_utf8(b)) {
                    Some(v) => LexStep::Token(KindModel::Num(v), e),
                    None => LexStep::Panics,
                },
                None => LexStep::Panics,
            }
        } else if ascii_space(ch) {
            LexStep::Token(KindModel::Whitespace, run_end(cs, p + 1, Run::Space))
        } else if ch == '"' {
            match string_end(cs, p + 1) {
                None => LexStep::Unterminated(n),
                Some(e) => match slice_bytes(l.source@, p, e) {
                    Some(b) => if b.len() >= 2 && is_char_boundary(b, 1) && is_char_boundary(
                        b,
                        b.len() - 1,
                    ) {
                        LexStep::Token(KindModel::Str(decode_utf8(b.subrange(1, b.len() - 1))), e)
                    } else {
                        LexStep::Panics
                    },
                    None => LexStep::Panics,
                },
            }
        } else if ch == ';' {
            LexStep::Token(KindModel::Semi, p + 1)
        } else if ch == '=' {
            LexStep::Token(KindModel::Assign, p + 1)
        } else if ch == '(' {
            LexStep::Token(KindModel::OpenParen, p + 1)
        } else if ch == ')' {
            LexStep::Token(KindModel::CloseParen, p + 1)
        } else if ch == ',' {
            LexStep::Token(KindModel::Comma, p + 1)
        } else if alphabetic(ch) {
            text_token(l, p, run_end(cs, p + 1, Run::Word), |t: Seq<char>| KindModel::Ident(t))
        } else {
            LexStep::BadChar(ch, p + 1)
        }
    }
}

/// A run that starts at `i` ends at the first character it does not go on over (or at the
/// end), having gone on over every character before that.
proof fn lemma_run_end(cs: Seq<char>, i: int, run: Run)
    requires
        0 <= i <= cs.len(),
    ensures
        i <= run_end(cs, i, run) <= cs.len(),
        forall|j: int| i <= j < run_end(cs, i, run) ==> run_keeps(cs, j, run),
        run_end(cs, i, run) < cs.len() ==> !run_keeps(cs, run_end(cs, i, run), run),
    decreases cs.len() - i,
{
    if i < cs.len() && run_keeps(cs, i, run) {
        lemma_run_end(cs, i + 1, run);
    }
}

/// Every character that `char::is_ascii_whitespace` (std) documents as white space (U+0020
/// space, U+0009 tab, U+000A line feed, U+000C form feed, U+000D carriage return) starts a
/// white-space token, and the token goes on over each such character that follows, up to
/// the first other character or the end of the source.
pub proof fn lemma_whitespace_token(l: Lexer)
    requires
        l.wf(),
        l.pos < l.chars@.len(),
        l.chars@[l.pos as int] == ' ' || l.chars@[l.pos as int] == '\t' || l.chars@[l.pos as int]
            == '\n' || l.chars@[l.pos as int] == '\x0C' || l.chars@[l.pos as int] == '\r',
    ensures
        lex_next(l) matches LexStep::Token(k, e) && k == KindModel::Whitespace && l.pos < e
            <= l.chars@.len() && (forall|j: int|
            l.pos <= j < e ==> (#[trigger] l.chars@[j] == ' ' || l.chars@[j] == '\t' || l.chars@[j]
                == '\n' || l.chars@[j] == '\x0C' || l.chars@[j] == '\r')) && (e < l.chars@.len() ==> !(
        l.chars@[e] == ' ' || l.chars@[e] == '\t' || l.chars@[e] == '\n' || l.chars@[e] == '\x0C'
            || l.chars@[e] == '\r')),
{
    let cs = l.chars@;
    let p = l.pos as int;
    lemma_run_end(cs, p + 1, Run::Space);
    let e = run_end(cs, p + 1, Run::Space);
    assert(lex_next(l) == LexStep::Token(KindModel::Whitespace, e));
    assert forall|j: int| p <= j < e implies (#[trigger] cs[j] == ' ' || cs[j] == '\t' || cs[j] == '\n'
        || cs[j] == '\x0C' || cs[j] == '\r') by {
        if j > p {
            assert(run_keeps(cs, j, Run::Space));
        }
    }
}

/// Whether a span covers the positions, in no file.
pub open spec fn span_over(s: Span, start: int, end: int) -> bool {
    s.start == start && s.end == end && s.file is None
}

/// Whether a step's result and the lexer after it are what the step gives: the span of the
/// token or error runs from the old position to the new one; the end of file is set when
/// nothing follows a token, when the source ends inside a string literal, and when nothing
/// is left.
pub open spec fn step_matches(old: Lexer, r: Option<Result<LexToken, LexicalError>>, new: Lexer) -> bool {
    &&& new.chars == old.chars
    &&& new.source == old.source
    &&& new.span.start == old.pos
    &&& match lex_next(old) {
        LexStep::Panics => false,
        LexStep::Done => r is None && new.pos == old.pos && new.eof,
        LexStep::Token(k, e) => r matches Some(Ok(t)) && t.kind.model() == k && span_over(t.span, old.pos as int, e)
            && new.pos == e && new.eof == (old.eof || e == old.chars@.len()),
        LexStep::BadChar(c, e) => r matches Some(Err(x)) && x.kind == LexicalErrorKind::InvalidCharacter(c)
            && span_over(x.span, old.pos as int, e) && new.pos == e && new.eof == old.eof,
        LexStep::Unterminated(e) => r matches Some(Err(x)) && x.kind == LexicalErrorKind::UnexpectedEof
            && span_over(x.span, old.pos as int, e) && new.pos == e && new.eof,
    }
}

impl<'a> Lexer<'a> {
    /// Whether the run goes on over the character at `j`.
    fn run_keeps_at(&self, j: usize, run: Run) -> (r: bool)
        requires
            j < self.chars@.len(),
        ensures
            r == run_keeps(self.chars@, j as int, run),
    {
        let c = self.chars[j];
        match run {
            Run::Line => c != '\n',
            Run::Block => c != '*' || !(j < self.chars.len() - 1 && self.chars[j + 1] == '/'),
            Run::Digits => '0' <= c && c <= '9',
            Run::Space => c == ' ' || c == '\t' || c == '\n' || c == '\x0C' || c == '\r',
            Run::Word => is_alphanumeric(c),
        }
    }

    /// Consumes the characters of a run.
    fn consume_run(&mut self, run: Run)
        requires
            old(self).wf(),
        ensures
            final(self).wf(),
            final(self).chars == old(self).chars,
            final(self).source == old(self).source,
            final(self).eof == old(self).eof,
            final(self).span.start == old(self).span.start,
            final(self).pos == run_end(old(self).chars@, old(self).pos as int, run),
            old(self).pos <= final(self).pos,
    {
        loop
            invariant
                self.wf(),
                old(self).pos <= self.pos,
                self.chars == old(self).chars,
                self.source == old(self).source,
                self.eof == old(self).eof,
                self.span.start == old(self).span.start,
                run_end(self.chars@, self.pos as int, run) == run_end(old(self).chars@, old(self).pos as int, run),
            ensures
                self.wf(),
                self.chars == old(self).chars,
                self.source == old(self).source,
                self.eof == old(self).eof,
                self.span.start == old(self).span.start,
                self.pos == run_end(old(self).chars@, old(self).pos as int, run),
                old(self).pos <= self.pos,
            decreases self.chars@.len() - self.pos,
        {
            if self.pos < self.chars.len() && self.run_keeps_at(self.pos, run) {
                self.consume();
            } else {
                break;
            }
        }
    }

    /// The source text between the span's positions (read as byte offsets), as a string.
    fn span_text(&self) -> (r: String)
        requires
            self.wf(),
            self.span.start < self.span.end,
            slice_bytes(self.source@, self.span.start as int, self.span.end as int) is Some,
        ensures
            r@ == decode_utf8(slice_bytes(self.source@, self.span.start as int, self.span.end as int)->0),
    {
        let t = self.slice();
        proof {
            encode_utf8_decode_utf8(t@);
        }
        String::from_str(t)
    }

    /// The text of a string literal's span without its first and last byte.
    fn inner_text(&self) -> (r: String)
        requires
            self.wf(),
            self.span.start < self.span.end,
            slice_bytes(self.source@, self.span.start as int, self.span.end as int) matches Some(b) && b.len()
                >= 2 && is_char_boundary(b, 1) && is_char_boundary(b, b.len() - 1),
        ensures
            r@ == decode_utf8(
                slice_bytes(self.source@, self.span.start as int, self.span.end as int)->0.subrange(
                    1,
                    slice_bytes(self.source@, self.span.start as int, self.span.end as int)->0.len() - 1,
                ),
            ),
    {
        let t = self.slice();
        let ghost b = t.spec_bytes();
        let n = t.as_bytes().len();
        let (head, _) = t.split_at(n - 1);
        proof {
            encode_utf8_valid_utf8(t@);
            lemma_boundary_in_prefix(b, n - 1, 1);
        }
        let (_, inner) = head.split_at(1);
        proof {
            assert(inner.spec_bytes() =~= b.subrange(1, n - 1));
            encode_utf8_decode_utf8(inner@);
        }
        String::from_str(inner)
    }

    /// A token of the kind over the span.
    fn token(&self, kind: LexTokenKind) -> (r: Option<Result<LexToken, LexicalError>>)
        requires
            self.wf(),
        ensures
            r matches Some(Ok(t)) && t.kind == kind && t.span == self.span,
    {
        Some(Ok(LexToken { kind, span: self.span.clone() }))
    }

    /// Reads the next token (the lexer's `Iterator::next`): see [`lex_next`] for what each
    /// character starts. `None` once nothing is left.
    ///
    /// A step that slices the source where its positions are no character boundaries, or
    /// reads a number too large for a `usize`, panics; those states are not accepted.
    pub fn next_token(&mut self) -> (r: Option<Result<LexToken, LexicalError>>)
        requires
            old(self).wf(),
            !(lex_next(*old(self)) is Panics),
        ensures
            final(self).wf(),
            step_matches(*old(self), r, *final(self)),
    {
        let ghost start = *self;
        self.reset();
        let p = self.pos;
        let ch = match self.consume() {
            Some(c) => c,
            None => {
                self.eof = true;
                return None;
            },
        };
        let n = self.chars.len();
        let r: Option<Result<LexToken, LexicalError>> = if ch == '/' || ch == '#' {
            if p + 1 < n {
                let ch2 = self.chars[p + 1];
                self.consume();
                if (ch == '/' && (ch2 == '/' || ch2 == '*')) || (ch == '#' && (ch2 == '#' || ch2 == '@')) {
                    let run = if ch == '/' && ch2 == '*' {
                        Run::Block
                    } else {
                        Run::Line
                    };
                    self.consume_run(run);
                    let text = self.span_text();
                    let kind = if ch == '/' {
                        LexTokenKind::Comment(text)
                    } else if ch2 == '#' {
                        LexTokenKind::Definition(Definition::Macro(text))
                    } else {
                        LexTokenKind::Definition(Definition::Import(text))
                    };
                    self.token(kind)
                } else {
                    self.token(LexTokenKind::Div)
                }
            } else {
                self.token(LexTokenKind::Div)
            }
        } else if ch == '+' {
            self.token(LexTokenKind::Add)
        } else if ch == '-' {
            self.token(LexTokenKind::Sub)
        } else if ch == '*' {
            self.token(LexTokenKind::Mul)
        } else if '0' <= ch && ch <= '9' {
            self.consume_run(Run::Digits);
            let text = self.span_text();
            match parse_usize(&chars_of(text.as_str())) {
                Some(v) => self.token(LexTokenKind::Num(v)),
                None => {
                    assert(false);
                    None
                },
            }
        } else if ch == ' ' || ch == '\t' || ch == '\n' || ch == '\x0C' || ch == '\r' {
            self.consume_run(Run::Space);
            self.token(LexTokenKind::Whitespace)
        } else if ch == '"' {
            loop
                invariant_except_break
                    string_end(self.chars@, self.pos as int) == string_end(start.chars@, p + 1),
                invariant
                    self.wf(),
                    self.chars == start.chars,
                    self.source == start.source,
                    self.eof == start.eof,
                    self.span.start == start.pos,
                    p == start.pos,
                    start == *old(self),
                    p < start.chars@.len(),
                    start.chars@[p as int] == '"',
                    p + 1 <= self.pos,
                ensures
                    self.wf(),
                    self.chars == start.chars,
                    self.source == start.source,
                    self.eof == start.eof,
                    self.span.start == start.pos,
                    string_end(start.chars@, p + 1) == Some(self.pos as int),
                decreases self.chars@.len() - self.pos,
            {
                if self.pos >= self.chars.len() {
                    proof {
                        assert(string_end(start.chars@, p + 1) is None);
                        assert(lex_next(start) == LexStep::Unterminated(start.chars@.len() as int));
                    }
                    self.eof = true;
                    return Some(Err(LexicalError::new(LexicalErrorKind::UnexpectedEof, self.span.clone())));
                }
                let c = self.chars[self.pos];
                if c == '"' {
                    self.consume();
                    break;
                }
                if c == '\\' && self.pos + 1 < self.chars.len() && (self.chars[self.pos + 1] == '\\'
                    || self.chars[self.pos + 1] == '"') {
                    self.consume();
                }
                self.consume();
            }
            let text = self.inner_text();
            self.token(LexTokenKind::Str(text))
        } else if ch == ';' {
            self.token(LexTokenKind::Semi)
        } else if ch == '=' {
            self.token(LexTokenKind::Assign)
        } else if ch == '(' {
            self.token(LexTokenKind::OpenParen)
        } else if ch == ')' {
            self.token(LexTokenKind::CloseParen)
        } else if ch == ',' {
            self.token(LexTokenKind::Comma)
        } else if is_alphabetic(ch) {
            self.consume_run(Run::Word);
            let text = self.span_text();
            self.token(LexTokenKind::Ident(text))
        } else {
            return Some(Err(LexicalError::new(LexicalErrorKind::InvalidCharacter(ch), self.span.clone())));
        };
        if self.pos >= self.chars.len() {
            self.eof = true;
        }
        r
    }
}
} // verus!

//! Reporting errors against the source they were found in.

use vstd::prelude::*;

use crate::files::{utf8_len, Span};
use crate::text::{chars_of, push_vec, string_of};

verus! {

/// A Reporter
pub struct Reporter<'a, W> {
    /// The output writer
    pub out: W,
    /// The raw source code
    pub source: &'a str,
}

/// The report of an error: `[error]: ` and its message, the source on a line of its own,
/// then a caret under the error's start (under the end of the source for the end-of-file
/// span).
pub open spec fn report_text(message: Seq<char>, source: Seq<char>, span: Span) -> Seq<char> {
    let pad: nat = if span.is_eof() {
        (utf8_len(source) as usize) as nat
    } else {
        span.start as nat
    };
    "[error]: "@ + message + "\n"@ + source + "\n"@ + Seq::new(pad, |i: int| ' ') + "^ \n"@
}

impl<'a, W> Reporter<'a, W> {
    /// Public associated function to instatiate a new Reporter.
    pub fn new(out: W, source: &'a str) -> (r: Self)
        ensures
            r.out == out,
            r.source == source,
    {
        Self { out, source }
    }

    /// The text written to report an error with the given message and span.
    pub fn report(&self, message: &str, span: &Span) -> (r: String)
        ensures
            r@ == report_text(message@, self.source@, *span),
    {
        let pad: usize = if span.start == 0 && span.end == 0 && span.file.is_none() {
            self.source.len()
        } else {
            span.start
        };
        let mut out: Vec<char> = Vec::new();
        push_vec(&mut out, &chars_of("[error]: "));
        push_vec(&mut out, &chars_of(message));
        push_vec(&mut out, &chars_of("\n"));
        push_vec(&mut out, &chars_of(self.source));
        push_vec(&mut out, &chars_of("\n"));
        let ghost head = out@;
        let mut i: usize = 0;
        while i < pad
            invariant
                i <= pad,
                out@ == head + Seq::new(i as nat, |j: int| ' '),
            decreases pad - i,
        {
            out.push(' ');
            i = i + 1;
            assert(out@ =~= head + Seq::new(i as nat, |j: int| ' '));
        }
        push_vec(&mut out, &chars_of("^ \n"));
        assert(out@ =~= report_text(message@, self.source@, *span));
        string_of(&out)
    }
}

} // verus!

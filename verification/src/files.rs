//! Source files, spans within them, remappings and file-path handling.

use std::sync::Arc;
use std::time::SystemTime;
use uuid::Uuid;
use vstd::prelude::*;

use crate::abi::{split_chars, split_on};
use crate::foundry::{
    foundry_document, insert_remappings, pair_texts, parse_toml_text, split_remapping, text_map, toml_document,
    toml_strings, toml_texts, with_remappings,
};
use crate::name_map::NameMap;
use crate::text::{decimal_text, usize_text, chars_eq, chars_of, ends_with_chars, has_prefix, has_suffix, opt_text, push_chars, push_vec, replace_all, replace_chars, slice_chars, starts_with_chars, string_of, texts};

verus! {

/// Declares uuid's identifier type, carried through as an opaque value.
#[verifier::external_type_specification]
#[verifier::external_body]
pub struct ExUuid(Uuid);

/// Declares std's wall-clock time, carried through as an opaque value.
#[verifier::external_type_specification]
#[verifier::external_body]
pub struct ExSystemTime(SystemTime);

/// `Uuid::clone` (uuid): `Uuid` is `Copy`, so a clone is the same identifier.
pub assume_specification[ <Uuid as Clone>::clone ](u: &Uuid) -> (r: Uuid)
    ensures
        r == *u,
;

/// `SystemTime::clone` (std): `SystemTime` is `Copy`, so a clone is the same time.
pub assume_specification[ <SystemTime as Clone>::clone ](t: &SystemTime) -> (r: SystemTime)
    ensures
        r == *t,
;

/// An aliased output location to derive from the cli arguments.
#[derive(Debug, PartialEq, Eq, PartialOrd, Ord, Clone, Default)]
pub struct OutputLocation(pub String);

/// File Encapsulation
#[derive(Debug, Default, PartialEq, Eq, PartialOrd, Ord, Clone)]
pub struct FileSource {
    /// File ID
    pub id: Uuid,
    /// File Path
    pub path: String,
    /// File Source
    pub source: Option<String>,
    /// Last File Access Time
    pub access: Option<SystemTime>,
    /// An Ordered List of File Dependencies
    pub dependencies: Option<Vec<Arc<FileSource>>>,
}

/// A Span is a section of a source file.
#[derive(Default, PartialEq, Eq, PartialOrd, Ord, Debug)]
pub struct Span {
    /// The start of the span.
    pub start: usize,
    /// The end of the span.
    pub end: usize,
    /// The Associated File
    pub file: Option<Arc<FileSource>>,
}


/// The parent directory that `Path::parent` (std) gives for a path, as text; `None` for a
/// path without one (such as the empty path or `/`).
pub uninterp spec fn path_parent(p: Seq<char>) -> Option<Seq<char>>;

/// `Path::new(path).parent()` (std), as text.
///
/// Claims only that the result is the named parent of the path; the parent of a path made
/// from text is itself text, so the conversion back to text does not fail.
#[verifier::external_body]
pub(crate) fn parent_dir(path: &str) -> (r: Option<String>)
    ensures
        r matches Some(s) ==> path_parent(path@) == Some(s@),
        r is None ==> path_parent(path@) is None,
{
    match std::path::Path::new(path).parent() {
        Some(p) => p.to_str().map(String::from),
        None => None,
    }
}

/// What remapping `path` with the entries gives: for the first entry whose name begins
/// `path`, the base directory followed by `path` with every occurrence of that name replaced
/// by the entry's value; `None` where no name begins `path`.
pub open spec fn remap_with(entries: Seq<(Seq<char>, String)>, base: Seq<char>, path: Seq<char>) -> Option<Seq<char>>
    decreases entries.len(),
{
    if entries.len() == 0 {
        None
    } else if has_prefix(path, entries[0].0) {
        Some(base + replace_all(path, entries[0].0, entries[0].1@))
    } else {
        remap_with(entries.drop_first(), base, path)
    }
}

/// Remaps `path` with the remappings, trying them in the order they are kept.
pub fn remap_path(remappings: &NameMap<String>, base_dir: &str, path: &str) -> (r: Option<String>)
    ensures
        crate::text::opt_text(r) == remap_with(remappings.entry_seq(), base_dir@, path@),
{
    let es = remappings.entries();
    let ghost all = remappings.entry_seq();
    let p = chars_of(path);
    let mut i: usize = 0;
    assert(all.skip(0) =~= all);
    while i < es.len()
        invariant
            es@.map_values(|e: (String, String)| (e.0@, e.1)) == all,
            all == remappings.entry_seq(),
            i <= es@.len(),
            p@ == path@,
            remap_with(all, base_dir@, path@) == remap_with(all.skip(i as int), base_dir@, path@),
        decreases es.len() - i,
    {
        let k = chars_of(es[i].0.as_str());
        let ghost rest = all.skip(i as int);
        assert(rest[0] == all[i as int]);
        assert(all[i as int] == (es@[i as int].0@, es@[i as int].1));
        if starts_with_chars(&p, k.as_slice()) {
            let v = chars_of(es[i].1.as_str());
            let mut out = chars_of(base_dir);
            let replaced = replace_chars(&p, &k, &v);
            push_vec(&mut out, &replaced);
            return Some(string_of(&out));
        }
        assert(rest.drop_first() =~= all.skip(i + 1));
        i = i + 1;
    }
    None
}

/// A wrapper for dealing with Remappings
#[derive(Debug, PartialEq, Eq, Clone)]
pub struct Remapper {
    /// The remappings
    pub remappings: NameMap<String>,
    /// The base directory
    pub base_dir: String,
}

impl Remapper {
    /// The remappings of a project at `root`: those of the text of its `foundry.toml` (none
    /// where there is no text or it is no TOML document), then, replacing them where a name
    /// repeats, those of its `remappings.txt` (none where there is no file).
    pub fn new(root: &str, foundry_toml: Option<&str>, remappings_txt: Option<&str>) -> (r: Self)
        ensures
            r.remappings.wf(),
            r.base_dir@ == root@,
            text_map(r.remappings.view()) == with_remappings(
                with_remappings(
                    Map::empty(),
                    match foundry_document(foundry_toml) {
                        Some(v) => toml_texts(v, false, true),
                        None => Seq::empty(),
                    },
                ),
                match remappings_txt {
                    Some(t) => split_on(t@, '\n'),
                    None => Seq::empty(),
                },
            ),
    {
        let mut inner: NameMap<String> = NameMap::new();
        proof {
            assert(text_map(inner.view()) =~= Map::<Seq<char>, Seq<char>>::empty());
        }
        match foundry_toml {
            Some(t) => Remapper::from_foundry(t, &mut inner),
            None => {},
        }
        match remappings_txt {
            Some(t) => Remapper::from_file(t, &mut inner),
            None => {},
        }
        Remapper { remappings: inner, base_dir: string_of(&chars_of(root)) }
    }

    /// Helper to break apart a remapping gracefully
    pub fn split(remapping: &str) -> (r: Option<(String, String)>)
        ensures
            pair_texts(r) == crate::text::split_first(remapping@, '='),
    {
        split_remapping(remapping)
    }

    /// Inserts, in order, the remappings of the text of a `foundry.toml`: where it is a TOML
    /// document, the strings in the arrays under `remappings` in the sections of its profiles
    /// that break apart at `=`; a text that is no TOML document changes nothing.
    pub fn from_foundry(foundry_toml: &str, inner: &mut NameMap<String>)
        requires
            old(inner).wf(),
        ensures
            final(inner).wf(),
            match toml_document(foundry_toml@) {
                Some(v) => text_map(final(inner).view()) == with_remappings(
                    text_map(old(inner).view()),
                    toml_texts(v, false, true),
                ),
                None => *final(inner) == *old(inner),
            },
    {
        match parse_toml_text(foundry_toml) {
            Some(toml) => {
                let rs = toml_strings(&toml, false, true);
                insert_remappings(inner, &rs);
            },
            None => {},
        }
    }

    /// Inserts, in order, the remappings of a `remappings.txt`: its lines that break apart at
    /// `=`.
    pub fn from_file(content: &str, inner: &mut NameMap<String>)
        requires
            old(inner).wf(),
        ensures
            final(inner).wf(),
            text_map(final(inner).view()) == with_remappings(
                text_map(old(inner).view()),
                split_on(content@, '\n'),
            ),
    {
        let lines = split_chars(&chars_of(content), '\n');
        let mut rs: Vec<String> = Vec::new();
        let mut i: usize = 0;
        while i < lines.len()
            invariant
                i <= lines@.len(),
                rs@.len() == i,
                forall|j: int| 0 <= j < i ==> (#[trigger] rs@[j])@ == lines@[j]@,
            decreases lines.len() - i,
        {
            rs.push(string_of(&lines[i]));
            i = i + 1;
        }
        proof {
            assert(texts(rs@) =~= lines@.map_values(|v: Vec<char>| v@));
        }
        insert_remappings(inner, &rs);
    }

    /// Tries to replace path segments in a string with our remappings
    pub fn remap(&self, path: &str) -> (r: Option<String>)
        ensures
            crate::text::opt_text(r) == remap_with(self.remappings.entry_seq(), self.base_dir@, path@),
    {
        remap_path(&self.remappings, self.base_dir.as_str(), path)
    }
}

/// `./`
pub open spec fn dot_slash() -> Seq<char> {
    seq!['.', '/']
}

/// `../`
pub open spec fn dot_dot_slash() -> Seq<char> {
    seq!['.', '.', '/']
}

/// The parent path with `./` before it unless it starts with `.`.
pub open spec fn prefixed_parent(parent: Seq<char>) -> Seq<char> {
    if has_prefix(parent, seq!['.']) {
        parent
    } else {
        dot_slash() + parent
    }
}

/// The directory a child path is first taken relative to: the parent directory of the
/// prefixed parent path, `.` where it has none or an empty one.
pub open spec fn initial_prefix(parent: Seq<char>) -> Seq<char> {
    match path_parent(prefixed_parent(parent)) {
        Some(p) => if p.len() == 0 {
            seq!['.']
        } else {
            p
        },
        None => seq!['.'],
    }
}

/// The directory one level up from `prefix`, given the parent directory `pref` of it:
/// `pref` itself, unless that is empty or `prefix` ends with `..`, in which case `..` is put
/// before `prefix` (`..` alone for an empty `prefix` or `.`).
pub open spec fn step_up(prefix: Seq<char>, pref: Seq<char>) -> Seq<char> {
    if pref.len() == 0 || has_suffix(prefix, seq!['.', '.']) {
        if prefix.len() == 0 || prefix == seq!['.'] {
            seq!['.', '.']
        } else {
            dot_dot_slash() + prefix
        }
    } else {
        pref
    }
}

/// Takes each leading `../` of `rest` off, going one directory up from `prefix` for each,
/// then joins the two with `/`; `None` where a directory without a parent is reached.
pub open spec fn climb(prefix: Seq<char>, rest: Seq<char>) -> Option<Seq<char>>
    decreases rest.len(),
{
    if has_prefix(rest, dot_dot_slash()) {
        match path_parent(prefix) {
            Some(pref) => climb(step_up(prefix, pref), rest.skip(3)),
            None => None,
        }
    } else {
        Some(prefix + seq!['/'] + rest)
    }
}

/// The child path localized against the parent file's directory: climbed for each leading
/// `../`, its leading `./` replaced by the directory, kept where absolute, and put under the
/// directory otherwise.
pub open spec fn localized(parent: Seq<char>, child: Seq<char>) -> Option<Seq<char>> {
    let prefix = initial_prefix(parent);
    if has_prefix(child, dot_dot_slash()) {
        climb(prefix, child)
    } else if has_prefix(child, dot_slash()) {
        Some(prefix + seq!['/'] + child.skip(2))
    } else if has_prefix(child, seq!['/']) {
        Some(child)
    } else {
        Some(prefix + seq!['/'] + child)
    }
}

impl FileSource {
    /// Derives a File Path's directory
    pub fn derive_dir(path: &str) -> (r: Option<String>)
        ensures
            opt_text(r) == path_parent(path@),
    {
        parent_dir(path)
    }

    /// Localizes a file path, if path is relative
    pub fn localize_file(parent: &str, child: &str) -> (r: Option<String>)
        ensures
            opt_text(r) == localized(parent@, child@),
    {
        let pc = chars_of(parent);
        let mut prefixed: Vec<char> = Vec::new();
        if !starts_with_chars(&pc, &['.']) {
            push_chars(&mut prefixed, &['.', '/']);
        }
        push_vec(&mut prefixed, &pc);
        proof {
            let dot = ['.'];
            assert(dot@ =~= seq!['.']);
            let ds = ['.', '/'];
            assert(ds@ =~= dot_slash());
            assert(prefixed@ =~= prefixed_parent(parent@));
        }
        let mut prefix: Vec<char> = match FileSource::derive_dir(string_of(&prefixed).as_str()) {
            Some(p) => {
                if p.as_str().is_empty() {
                    let mut d: Vec<char> = Vec::new();
                    d.push('.');
                    d
                } else {
                    chars_of(p.as_str())
                }
            },
            None => {
                let mut d: Vec<char> = Vec::new();
                d.push('.');
                d
            },
        };
        assert(prefix@ =~= initial_prefix(parent@));
        let cc = chars_of(child);
        proof {
            let dds = ['.', '.', '/'];
            assert(dds@ =~= dot_dot_slash());
            let ds = ['.', '/'];
            assert(ds@ =~= dot_slash());
            let sl = ['/'];
            assert(sl@ =~= seq!['/']);
        }
        if starts_with_chars(&cc, &['.', '.', '/']) {
            let mut off: usize = 0;
            assert(cc@.skip(0) =~= cc@);
            while off < cc.len() && starts_with_chars(&slice_chars(&cc, off, cc.len()), &['.', '.', '/'])
                invariant
                    off <= cc@.len(),
                    cc@ == child@,
                    has_prefix(child@, dot_dot_slash()),
                    climb(prefix@, cc@.skip(off as int)) == climb(initial_prefix(parent@), cc@),
                decreases cc.len() - off,
            {
                let ghost rest = cc@.skip(off as int);
                assert(cc@.subrange(off as int, cc@.len() as int) =~= rest);
                proof {
                    let dds = ['.', '.', '/'];
                    assert(dds@ =~= dot_dot_slash());
                }
                match parent_dir(string_of(&prefix).as_str()) {
                    Some(pref) => {
                        let pr = chars_of(pref.as_str());
                        let up = pr.len() == 0 || ends_with_chars(&prefix, &['.', '.']);
                        proof {
                            let dd = ['.', '.'];
                            assert(dd@ =~= seq!['.', '.']);
                        }
                        if up {
                            let is_dot = chars_eq(&prefix, &['.']);
                            proof {
                                let d = ['.'];
                                assert(d@ =~= seq!['.']);
                            }
                            if prefix.len() == 0 || is_dot {
                                let mut d: Vec<char> = Vec::new();
                                d.push('.');
                                d.push('.');
                                assert(d@ =~= seq!['.', '.']);
                                prefix = d;
                            } else {
                                let mut d: Vec<char> = Vec::new();
                                push_chars(&mut d, &['.', '.', '/']);
                                push_vec(&mut d, &prefix);
                                proof {
                                    let dds = ['.', '.', '/'];
                                    assert(dds@ =~= dot_dot_slash());
                                }
                                prefix = d;
                            }
                        } else {
                            prefix = pr;
                        }
                    },
                    None => {
                        return None;
                    },
                }
                assert(rest.skip(3) =~= cc@.skip(off + 3));
                off = off + 3;
            }
            proof {
                if off == cc@.len() {
                    assert(cc@.skip(off as int).len() == 0);
                } else {
                    assert(cc@.subrange(off as int, cc@.len() as int) =~= cc@.skip(off as int));
                }
            }
            let mut out = prefix;
            out.push('/');
            let tail = slice_chars(&cc, off, cc.len());
            assert(tail@ =~= cc@.skip(off as int));
            push_vec(&mut out, &tail);
            Some(string_of(&out))
        } else if starts_with_chars(&cc, &['.', '/']) {
            let mut out = prefix;
            out.push('/');
            let tail = slice_chars(&cc, 2, cc.len());
            assert(tail@ =~= cc@.skip(2));
            push_vec(&mut out, &tail);
            Some(string_of(&out))
        } else if starts_with_chars(&cc, &['/']) {
            Some(string_of(&cc))
        } else {
            let mut out = prefix;
            out.push('/');
            push_vec(&mut out, &cc);
            Some(string_of(&out))
        }
    }
}

/// `Arc::clone` (std): another pointer to the same value.
#[verifier::external_body]
pub(crate) fn share<T>(a: &Arc<T>) -> (r: Arc<T>)
    ensures
        r == *a,
{
    Arc::clone(a)
}

impl Clone for Span {
    /// The same section of the same file.
    fn clone(&self) -> (r: Span)
        ensures
            r == *self,
    {
        let file = match &self.file {
            Some(f) => Some(share(f)),
            None => None,
        };
        Span { start: self.start, end: self.end, file }
    }
}

impl Span {
    /// Whether this is the end-of-file span: `[0, 0]` with no file.
    pub open spec fn is_eof(self) -> bool {
        self.start == 0 && self.end == 0 && self.file is None
    }

    /// Public associated function to instatiate a new span.
    pub fn new(range: std::ops::Range<usize>, file: Option<Arc<FileSource>>) -> (r: Self)
        ensures
            r.start == range.start,
            r.end == range.end,
            r.file == file,
    {
        Span { start: range.start, end: range.end, file }
    }

    /// An EOF spans [0, 0].
    pub fn eof() -> (r: Self)
        ensures
            r.is_eof(),
    {
        Span { start: 0, end: 0, file: None }
    }

    /// Converts a span to a range; `None` for the end-of-file span.
    pub fn range(&self) -> (r: Option<std::ops::Range<usize>>)
        ensures
            r is None <==> self.is_eof(),
            r matches Some(rg) ==> rg.start == self.start && rg.end == self.end,
    {
        if self.start == 0 && self.end == 0 && self.file.is_none() {
            None
        } else {
            Some(std::ops::Range { start: self.start, end: self.end })
        }
    }

    /// The file identifier of the span for errors: `\n-> PATH:START-END`, or nothing where
    /// the span has no file.
    pub open spec fn identifier_text(self) -> Seq<char> {
        match self.file {
            Some(f) => seq!['\n', '-', '>', ' '] + f.path@ + seq![':'] + decimal_text(self.start as nat)
                + seq!['-'] + decimal_text(self.end as nat),
            None => Seq::<char>::empty(),
        }
    }

    /// Produces a file identifier string for errors: `\n-> PATH:START-END`, or nothing
    /// where the span has no file.
    pub fn identifier(&self) -> (r: String)
        ensures
            r@ == self.identifier_text(),
    {
        match &self.file {
            Some(f) => {
                let mut v: Vec<char> = Vec::new();
                push_chars(&mut v, &['\n', '-', '>', ' ']);
                push_vec(&mut v, &chars_of(f.path.as_str()));
                v.push(':');
                push_vec(&mut v, &usize_text(self.start));
                v.push('-');
                push_vec(&mut v, &usize_text(self.end));
                string_of(&v)
            },
            None => String::new(),
        }
    }
}

/// Full File Source
#[derive(Debug)]
pub struct FullFileSource<'a> {
    /// Flattened file source
    pub source: &'a str,
    /// The top level file source
    pub file: Option<Arc<FileSource>>,
    /// Files and their associated spans in the flattend file source
    pub spans: Vec<(Arc<FileSource>, Span)>,
}

/// Where `span` lies strictly inside the span of a file (starting after it starts and
/// ending before it ends), the first such file's span: `span` taken relative to that
/// file's start, with that file.
pub open spec fn relative_to(spans: Seq<(Arc<FileSource>, Span)>, span: Span) -> Option<Span>
    decreases spans.len(),
{
    if spans.len() == 0 {
        None
    } else if spans[0].1.start < span.start && spans[0].1.end > span.end {
        Some(
            Span {
                start: (span.start - spans[0].1.start) as usize,
                end: (span.end - spans[0].1.start) as usize,
                file: Some(spans[0].0),
            },
        )
    } else {
        relative_to(spans.drop_first(), span)
    }
}

impl<'a> FullFileSource<'a> {
    /// Get the relative span
    pub fn relative_span(&self, span: &Span) -> (r: Option<Span>)
        requires
            forall|i: int|
                0 <= i < self.spans@.len() && (#[trigger] self.spans@[i]).1.start < span.start
                    && self.spans@[i].1.end > span.end ==> self.spans@[i].1.start <= span.end,
        ensures
            r == relative_to(self.spans@, *span),
    {
        let mut i: usize = 0;
        assert(self.spans@.skip(0) =~= self.spans@);
        while i < self.spans.len()
            invariant
                i <= self.spans@.len(),
                relative_to(self.spans@, *span) == relative_to(self.spans@.skip(i as int), *span),
                forall|j: int|
                    0 <= j < self.spans@.len() && (#[trigger] self.spans@[j]).1.start < span.start
                        && self.spans@[j].1.end > span.end ==> self.spans@[j].1.start <= span.end,
            decreases self.spans.len() - i,
        {
            let ghost rest = self.spans@.skip(i as int);
            assert(rest[0] == self.spans@[i as int]);
            let s = &self.spans[i];
            if s.1.start < span.start && s.1.end > span.end {
                return Some(
                    Span {
                        start: span.start - s.1.start,
                        end: span.end - s.1.start,
                        file: Some(share(&s.0)),
                    },
                );
            }
            assert(rest.drop_first() =~= self.spans@.skip(i + 1));
            i = i + 1;
        }
        None
    }
}

impl From<std::ops::Range<usize>> for Span {
    /// The span of a range, in no file.
    fn from(range: std::ops::Range<usize>) -> (r: Span) {
        Span { start: range.start, end: range.end, file: None }
    }
}

impl vstd::std_specs::convert::FromSpecImpl<std::ops::Range<usize>> for Span {
    open spec fn obeys_from_spec() -> bool {
        true
    }

    open spec fn from_spec(range: std::ops::Range<usize>) -> Span {
        Span { start: range.start, end: range.end, file: None }
    }
}

impl std::ops::Add for Span {
    type Output = Span;

    /// The span from the start of `self` to the end of `rhs`, in no file.
    fn add(self, rhs: Span) -> (r: Span) {
        Span::new(self.start..rhs.end, None)
    }
}

impl vstd::std_specs::ops::AddSpecImpl for Span {
    open spec fn obeys_add_spec() -> bool {
        true
    }

    open spec fn add_req(self, rhs: Span) -> bool {
        true
    }

    open spec fn add_spec(self, rhs: Span) -> Span {
        Span { start: self.start, end: rhs.end, file: None }
    }
}

/// Spanned trait requires a type to have a span.
pub trait Spanned {
    /// Returns a Span.
    fn span(&self) -> Span;
}

/// WithSpan associates a value to a Span.
pub struct WithSpan<T> {
    /// The value
    pub value: T,
    /// The associated Span
    pub span: Span,
}

impl<T> WithSpan<T> {
    /// Public associated function to instatiate a new WithSpan.
    pub fn new(value: T, span: Span) -> (r: Self)
        ensures
            r.value == value,
            r.span == span,
    {
        Self { value, span }
    }
}

impl<T> Spanned for WithSpan<T> {
    fn span(&self) -> (r: Span)
        ensures
            r == self.span,
    {
        self.span.clone()
    }
}

/// The number of bytes of the UTF-8 encoding of `s`.
pub open spec fn utf8_len(s: Seq<char>) -> nat {
    vstd::utf8::encode_utf8(s).len()
}

/// The encoding of a concatenation is the concatenated encodings.
pub proof fn lemma_encode_utf8_concat(a: Seq<char>, b: Seq<char>)
    ensures
        vstd::utf8::encode_utf8(a + b) == vstd::utf8::encode_utf8(a) + vstd::utf8::encode_utf8(b),
    decreases a.len(),
{
    if a.len() > 0 {
        assert((a + b).drop_first() =~= a.drop_first() + b);
        assert((a + b)[0] == a[0]);
        lemma_encode_utf8_concat(a.drop_first(), b);
        assert(vstd::utf8::encode_utf8(a + b) =~= vstd::utf8::encode_utf8(a) + vstd::utf8::encode_utf8(b));
    } else {
        assert(a + b =~= b);
        assert(vstd::utf8::encode_utf8(a) =~= Seq::<u8>::empty());
        assert(vstd::utf8::encode_utf8(a + b) =~= vstd::utf8::encode_utf8(a) + vstd::utf8::encode_utf8(b));
    }
}

/// The source text of a file; nothing where it has none.
pub open spec fn source_text(f: FileSource) -> Seq<char> {
    match f.source {
        Some(s) => s@,
        None => Seq::empty(),
    }
}

/// A span of the flattened source, without a file.
pub open spec fn flat_span(start: nat, end: nat) -> Span {
    Span { start: start as usize, end: end as usize, file: None }
}

/// The flattened source of a file and the positions of the files in it: its own source,
/// spanning from `0`, followed by the flattened sources of its dependencies in order; each
/// dependency's own positions come, unchanged, before the dependency itself with the span
/// its flattened source takes up (in bytes).
pub open spec fn flattened(f: FileSource) -> (Seq<char>, Seq<(Arc<FileSource>, Span)>)
    decreases f,
{
    let base = source_text(f);
    let first = seq![(Arc::new(f), flat_span(0, utf8_len(base)))];
    match f.dependencies {
        Some(deps) => flatten_deps(base, first, deps@),
        None => (base, first),
    }
}

/// The flattened sources of `deps` appended, in order, to `src` and their positions to
/// `spans`.
pub open spec fn flatten_deps(
    src: Seq<char>,
    spans: Seq<(Arc<FileSource>, Span)>,
    deps: Seq<Arc<FileSource>>,
) -> (Seq<char>, Seq<(Arc<FileSource>, Span)>)
    decreases deps,
{
    if deps.len() == 0 {
        (src, spans)
    } else {
        let prev = flatten_deps(src, spans, deps.drop_last());
        let d = deps.last();
        let fl = flattened(*d);
        (
            prev.0 + fl.0,
            prev.1 + fl.1 + seq![(d, flat_span(utf8_len(prev.0), utf8_len(prev.0) + utf8_len(fl.0)))],
        )
    }
}

/// The file a shared pointer points to.
pub open spec fn file_of(a: Arc<FileSource>) -> FileSource {
    *a
}

/// The flattened sources of fewer dependencies are a prefix of those of more.
proof fn lemma_flatten_deps_prefix(
    src: Seq<char>,
    spans: Seq<(Arc<FileSource>, Span)>,
    deps: Seq<Arc<FileSource>>,
    i: int,
)
    requires
        0 <= i <= deps.len(),
    ensures
        utf8_len(flatten_deps(src, spans, deps.take(i)).0) + utf8_len(flattened(file_of(deps[i])).0)
            <= utf8_len(flatten_deps(src, spans, deps).0) || i == deps.len(),
        utf8_len(flatten_deps(src, spans, deps.take(i)).0) <= utf8_len(flatten_deps(src, spans, deps).0),
    decreases deps.len() - i,
{
    if i < deps.len() {
        lemma_flatten_deps_prefix(src, spans, deps, i + 1);
        let t = deps.take(i + 1);
        assert(t.drop_last() =~= deps.take(i));
        assert(t.last() == deps[i]);
        lemma_encode_utf8_concat(flatten_deps(src, spans, deps.take(i)).0, flattened(file_of(deps[i])).0);
    } else {
        assert(deps.take(i) =~= deps);
    }
}

impl FileSource {
    /// Generates a fully flattened source code for the given `FileSource` and all its dependencies
    ///
    /// ### Examples
    ///
    /// Let's say you have a file, `a.txt` with two dependencies, `b.txt` and `c.txt`,
    /// `fully_flatten()` will generate a source code string with the contents of `b.txt` and
    /// `c.txt` appended to the end of the contents of `a.txt`.
    pub fn fully_flatten(self_ref: Arc<FileSource>) -> (r: (String, Vec<(Arc<FileSource>, Span)>))
        requires
            utf8_len(flattened(*self_ref).0) <= usize::MAX,
        ensures
            r.0@ == flattened(*self_ref).0,
            r.1@ == flattened(*self_ref).1,
        decreases *self_ref,
    {
        let ghost f = file_of(self_ref);
        let ghost base = source_text(f);
        let ghost first = seq![(Arc::new(f), flat_span(0, utf8_len(base)))];
        proof {
            match f.dependencies {
                Some(deps) => {
                    lemma_flatten_deps_prefix(base, first, deps@, 0);
                    assert(deps@.take(0) =~= Seq::<Arc<FileSource>>::empty());
                },
                None => {},
            }
            assert(utf8_len(base) <= usize::MAX);
        }
        let mut full: Vec<char> = Vec::new();
        let mut full_len: usize = 0;
        match &self_ref.source {
            Some(s) => {
                full = chars_of(s.as_str());
                full_len = s.as_str().len();
            },
            None => {
                assert(vstd::utf8::encode_utf8(full@) =~= Seq::<u8>::empty());
            },
        }
        let span = Span::new(std::ops::Range { start: 0, end: full_len }, None);
        let mut positions: Vec<(Arc<FileSource>, Span)> = Vec::new();
        positions.push((share(&self_ref), span));
        assert(positions@ =~= first);
        match &self_ref.dependencies {
            Some(vfs) => {
                let ghost deps = vfs@;
                let ghost total = flatten_deps(base, first, deps);
                let mut i: usize = 0;
                assert(deps.take(0) =~= Seq::<Arc<FileSource>>::empty());
                while i < vfs.len()
                    invariant
                        f == file_of(self_ref),
                        deps == vfs@,
                        total == flatten_deps(base, first, deps),
                        utf8_len(total.0) <= usize::MAX,
                        i <= deps.len(),
                        (full@, positions@) == flatten_deps(base, first, deps.take(i as int)),
                        full_len == utf8_len(full@),
                        forall|j: int| 0 <= j < deps.len() ==> decreases_to!(f => file_of(#[trigger] deps[j])),
                    decreases vfs.len() - i,
                {
                    let fs = &vfs[i];
                    proof {
                        lemma_flatten_deps_prefix(base, first, deps, i as int);
                    }
                    let child = share(fs);
                    assert(decreases_to!(*self_ref => *child)) by {
                        assert(decreases_to!(f => file_of(deps[i as int])));
                    }
                    let flat = FileSource::fully_flatten(child);
                    let flen = flat.0.as_str().len();
                    let ghost prev = (full@, positions@);
                    let span = Span::new(std::ops::Range { start: full_len, end: full_len + flen }, None);
                    push_vec(&mut full, &chars_of(flat.0.as_str()));
                    proof {
                        lemma_encode_utf8_concat(prev.0, flat.0@);
                    }
                    full_len = full_len + flen;
                    let mut fspans = flat.1;
                    positions.append(&mut fspans);
                    positions.push((share(fs), span));
                    proof {
                        let t = deps.take(i + 1);
                        assert(t.drop_last() =~= deps.take(i as int));
                        assert(t.last() == deps[i as int]);
                        assert(positions@ =~= flatten_deps(base, first, t).1);
                        assert(full@ =~= flatten_deps(base, first, t).0);
                    }
                    i = i + 1;
                }
                assert(deps.take(deps.len() as int) =~= deps);
            },
            None => {},
        }
        (string_of(&full), positions)
    }
}

// ---------------------------------------------------------------------------
// Source segments
// ---------------------------------------------------------------------------

/// The byte offset of the character at position `i` of `s`.
pub open spec fn byte_offset(s: Seq<char>, i: int) -> nat {
    utf8_len(s.take(i))
}

/// The position of the first character of `s` that starts at or after byte `b` (the length
/// of `s` where there is none).
pub open spec fn char_index_at(s: Seq<char>, b: int) -> int
    decreases s.len(),
{
    if b <= 0 || s.len() == 0 {
        0
    } else {
        1 + char_index_at(s.drop_first(), b - vstd::utf8::encode_scalar(s[0] as u32).len())
    }
}

/// The number of occurrences of `c` in `s`.
pub open spec fn count_char(s: Seq<char>, c: char) -> nat
    decreases s.len(),
{
    if s.len() == 0 {
        0
    } else {
        count_char(s.drop_last(), c) + if s.last() == c {
            1nat
        } else {
            0nat
        }
    }
}

/// The position of the last `c` in `s`; `0` where there is none.
pub open spec fn last_index(s: Seq<char>, c: char) -> int
    decreases s.len(),
{
    if s.len() == 0 {
        0
    } else if s.last() == c {
        s.len() - 1
    } else {
        last_index(s.drop_last(), c)
    }
}

/// The lines of `s` that a segment from byte `start` to byte `end` covers, by character
/// position: from the last newline before `start` (or the beginning) up to the first
/// newline at or after `end` (or the end).
pub open spec fn seg_lines(s: Seq<char>, start: int, end: int) -> (int, int) {
    let cs = char_index_at(s, start);
    let ce = char_index_at(s, end);
    (last_index(s.take(cs), '\n'), ce + crate::text::first_index(s.skip(ce), '\n'))
}

/// When a segment can be cut out of `s`: `start` and `end` fall on character boundaries
/// within the text, and the covered lines do not run backwards. (A text of `usize::MAX`
/// bytes cannot be held in memory.)
pub open spec fn seg_ok(s: Seq<char>, start: int, end: int) -> bool {
    &&& utf8_len(s) < usize::MAX
    &&& byte_offset(s, char_index_at(s, start)) == start
    &&& byte_offset(s, char_index_at(s, end)) == end
    &&& seg_lines(s, start, end).0 <= seg_lines(s, start, end).1
}

/// The framed source lines of a segment: the line number of `start` (one more than the
/// newlines before it), and the covered lines with their newlines removed.
pub open spec fn seg_text(s: Seq<char>, start: int, end: int) -> Seq<char> {
    let cs = char_index_at(s, start);
    let line_num = count_char(s.take(cs), '\n') + 1;
    let lines = seg_lines(s, start, end);
    let pad = Seq::new(decimal_text(line_num).len(), |i: int| ' ');
    seq!['\n', ' ', ' ', ' ', ' ', ' '] + pad + seq!['|', '\n', ' ', ' ', '>', ' '] + decimal_text(line_num)
        + seq![' ', '|', ' '] + crate::abi::remove_char(s.subrange(lines.0, lines.1), '\n')
        + seq!['\n', ' ', ' ', ' ', ' ', ' '] + pad + seq!['|']
}

/// The number of UTF-8 bytes of a character.
fn utf8_width(c: char) -> (w: usize)
    ensures
        w == vstd::utf8::encode_scalar(c as u32).len(),
        1 <= w <= 4,
{
    let v = c as u32;
    if v <= 0x7F {
        1
    } else if v <= 0x7FF {
        2
    } else if v <= 0xFFFF {
        proof {
            vstd::utf8::char_is_scalar(c);
        }
        3
    } else {
        4
    }
}

proof fn lemma_offset_step(s: Seq<char>, i: int)
    requires
        0 <= i < s.len(),
    ensures
        byte_offset(s, i + 1) == byte_offset(s, i) + vstd::utf8::encode_scalar(s[i] as u32).len(),
{
    assert(s.take(i + 1) =~= s.take(i) + seq![s[i]]);
    lemma_encode_utf8_concat(s.take(i), seq![s[i]]);
    let one = seq![s[i]];
    assert(one[0] == s[i]);
    assert(one.drop_first() =~= Seq::<char>::empty());
    assert(vstd::utf8::encode_utf8(one.drop_first()) =~= Seq::<u8>::empty());
    assert(vstd::utf8::encode_utf8(one) =~= vstd::utf8::encode_scalar(s[i] as u32) + Seq::<u8>::empty());
    assert(vstd::utf8::encode_utf8(one) =~= vstd::utf8::encode_scalar(s[i] as u32));
}

proof fn lemma_offset_mono(s: Seq<char>, i: int, j: int)
    requires
        0 <= i <= j <= s.len(),
    ensures
        byte_offset(s, i) + (j - i) <= byte_offset(s, j),
    decreases j - i,
{
    if i < j {
        lemma_offset_mono(s, i, j - 1);
        lemma_offset_step(s, j - 1);
    }
}

/// The position of the first character starting at or after byte `b`, found by walking the
/// characters.
fn find_char_index(s: &Vec<char>, b: usize) -> (i: usize)
    requires
        byte_offset(s@, char_index_at(s@, b as int)) == b,
    ensures
        i == char_index_at(s@, b as int),
        i <= s@.len(),
{
    let mut i: usize = 0;
    let mut off: usize = 0;
    proof {
        assert(s@.skip(0) =~= s@);
        assert(s@.take(0) =~= Seq::<char>::empty());
        lemma_char_index_bound(s@, b as int);
    }
    while i < s.len() && off < b
        invariant
            i <= s@.len(),
            off == byte_offset(s@, i as int),
            byte_offset(s@, char_index_at(s@, b as int)) == b,
            char_index_at(s@, b as int) == i + char_index_at(s@.skip(i as int), b - off),
            i <= char_index_at(s@, b as int) <= s@.len(),
        decreases s.len() - i,
    {
        let w = utf8_width(s[i]);
        proof {
            let rest = s@.skip(i as int);
            assert(rest[0] == s@[i as int]);
            assert(rest.drop_first() =~= s@.skip(i + 1));
            lemma_offset_step(s@, i as int);
            let ci = char_index_at(s@, b as int);
            if ci <= i {
                lemma_offset_mono(s@, ci, i as int);
            }
            lemma_offset_mono(s@, i + 1, ci);
            lemma_char_index_bound(s@.skip(i + 1), b - off - w);
        }
        off = off + w;
        i = i + 1;
    }
    proof {
        lemma_char_index_bound(s@.skip(i as int), b - off);
    }
    i
}

proof fn lemma_char_index_bound(s: Seq<char>, b: int)
    ensures
        0 <= char_index_at(s, b) <= s.len(),
    decreases s.len(),
{
    if b > 0 && s.len() > 0 {
        lemma_char_index_bound(s.drop_first(), b - vstd::utf8::encode_scalar(s[0] as u32).len());
    }
}

/// The newlines before position `cs`: how many there are, and where the last is (`0` where
/// there is none).
fn newlines_before(s: &Vec<char>, cs: usize) -> (r: (usize, usize))
    requires
        cs <= s@.len(),
    ensures
        r.0 == count_char(s@.take(cs as int), '\n'),
        r.0 <= cs,
        r.1 as int == last_index(s@.take(cs as int), '\n'),
{
    let mut count: usize = 0;
    let mut k: usize = 0;
    let mut ls: usize = 0;
    assert(s@.take(0) =~= Seq::<char>::empty());
    while k < cs
        invariant
            cs <= s@.len(),
            k <= cs,
            count == count_char(s@.take(k as int), '\n'),
            count <= k,
            ls as int == last_index(s@.take(k as int), '\n'),
        decreases cs - k,
    {
        proof {
            let t = s@.take(k + 1);
            assert(t.drop_last() =~= s@.take(k as int));
            assert(t.last() == s@[k as int]);
        }
        if s[k] == '\n' {
            count = count + 1;
            ls = k;
        }
        k = k + 1;
    }
    (count, ls)
}

/// The position of the first newline at or after `ce` (the length where there is none).
fn line_end(s: &Vec<char>, ce: usize) -> (le: usize)
    requires
        ce <= s@.len(),
    ensures
        le as int == ce + crate::text::first_index(s@.skip(ce as int), '\n'),
        le <= s@.len(),
{
    let mut le: usize = ce;
    while le < s.len() && s[le] != '\n'
        invariant
            ce <= le <= s@.len(),
            forall|j: int| ce <= j < le ==> s@[j] != '\n',
        decreases s.len() - le,
    {
        le = le + 1;
    }
    proof {
        lemma_first_from(s@, ce as int, le as int);
    }
    le
}

/// The characters of `s` from `from` up to `to`, without newlines.
fn without_newlines(s: &Vec<char>, from: usize, to: usize) -> (r: Vec<char>)
    requires
        from <= to <= s@.len(),
    ensures
        r@ == crate::abi::remove_char(s@.subrange(from as int, to as int), '\n'),
{
    let mut seg: Vec<char> = Vec::new();
    let mut q: usize = from;
    assert(s@.subrange(from as int, from as int) =~= Seq::<char>::empty());
    while q < to
        invariant
            from <= q <= to <= s@.len(),
            seg@ == crate::abi::remove_char(s@.subrange(from as int, q as int), '\n'),
        decreases to - q,
    {
        proof {
            let t = s@.subrange(from as int, q + 1);
            assert(t.drop_last() =~= s@.subrange(from as int, q as int));
            assert(t.last() == s@[q as int]);
        }
        if s[q] != '\n' {
            seg.push(s[q]);
        }
        q = q + 1;
    }
    seg
}

/// `n` spaces.
fn spaces(n: usize) -> (r: Vec<char>)
    ensures
        r@ == Seq::new(n as nat, |i: int| ' '),
{
    let mut pad: Vec<char> = Vec::new();
    let mut p: usize = 0;
    while p < n
        invariant
            p <= n,
            pad@ =~= Seq::new(p as nat, |i: int| ' '),
        decreases n - p,
    {
        pad.push(' ');
        p = p + 1;
    }
    pad
}

/// The frame around a segment's lines: the padded bar, the line number, the lines and the
/// bar again.
fn framed(digits: &Vec<char>, seg: &Vec<char>) -> (out: Vec<char>)
    ensures
        out@ == seq!['\n', ' ', ' ', ' ', ' ', ' '] + Seq::new(digits@.len(), |i: int| ' ') + seq!['|', '\n', ' ', ' ', '>', ' ']
            + digits@ + seq![' ', '|', ' '] + seg@ + seq!['\n', ' ', ' ', ' ', ' ', ' '] + Seq::new(
            digits@.len(),
            |i: int| ' ',
        ) + seq!['|'],
{
    let pad = spaces(digits.len());
    let mut out: Vec<char> = Vec::new();
    push_chars(&mut out, &['\n', ' ', ' ', ' ', ' ', ' ']);
    push_vec(&mut out, &pad);
    push_chars(&mut out, &['|', '\n', ' ', ' ', '>', ' ']);
    push_vec(&mut out, digits);
    push_chars(&mut out, &[' ', '|', ' ']);
    push_vec(&mut out, seg);
    push_chars(&mut out, &['\n', ' ', ' ', ' ', ' ', ' ']);
    push_vec(&mut out, &pad);
    out.push('|');
    proof {
        let a1 = ['\n', ' ', ' ', ' ', ' ', ' '];
        let a2 = ['|', '\n', ' ', ' ', '>', ' '];
        let a3 = [' ', '|', ' '];
        assert(a1@ =~= seq!['\n', ' ', ' ', ' ', ' ', ' ']);
        assert(a2@ =~= seq!['|', '\n', ' ', ' ', '>', ' ']);
        assert(a3@ =~= seq![' ', '|', ' ']);
    }
    out
}

/// The source segment of a span: for a span of a file with a source, the framed lines it
/// covers; nothing otherwise.
pub open spec fn span_seg_text(sp: Span) -> Seq<char> {
    match sp.file {
        Some(f) => match f.source {
            Some(s) => seg_text(s@, sp.start as int, sp.end as int),
            None => Seq::empty(),
        },
        None => Seq::empty(),
    }
}

/// Whether a span's source segment can be cut out (see `seg_ok`).
pub open spec fn span_seg_ok(sp: Span) -> bool {
    sp.file matches Some(f) && f.source matches Some(s) ==> seg_ok(s@, sp.start as int, sp.end as int)
}

impl Span {
    /// Produces a source segment string: for a span of a file with a source, the framed
    /// lines it covers with the line number of its start; nothing otherwise.
    pub fn source_seg(&self) -> (r: String)
        requires
            span_seg_ok(*self),
        ensures
            r@ == span_seg_text(*self),
    {
        match &self.file {
            Some(f) => match &f.source {
                Some(src) => {
                    let s = chars_of(src.as_str());
                    let cs = find_char_index(&s, self.start);
                    let ce = find_char_index(&s, self.end);
                    let (count, ls) = newlines_before(&s, cs);
                    let le = line_end(&s, ce);
                    proof {
                        lemma_offset_mono(s@, 0, s@.len() as int);
                        assert(s@.take(s@.len() as int) =~= s@);
                        assert(s@.take(0) =~= Seq::<char>::empty());
                    }
                    let digits = usize_text(count + 1);
                    let seg = without_newlines(&s, ls, le);
                    let out = framed(&digits, &seg);
                    string_of(&out)
                },
                None => String::new(),
            },
            None => String::new(),
        }
    }
}

proof fn lemma_first_from(s: Seq<char>, ce: int, le: int)
    requires
        0 <= ce <= le <= s.len(),
        forall|j: int| ce <= j < le ==> s[j] != '\n',
        le < s.len() ==> s[le] == '\n',
    ensures
        ce + crate::text::first_index(s.skip(ce), '\n') == le,
    decreases le - ce,
{
    let t = s.skip(ce);
    if ce < le {
        assert(t[0] == s[ce]);
        assert(t.drop_first() =~= s.skip(ce + 1));
        lemma_first_from(s, ce + 1, le);
    } else if le < s.len() {
        assert(t[0] == s[ce]);
    } else {
        assert(t.len() == 0);
    }
}

} // verus!

//! Turning the spans of an AST node into error text.

use vstd::prelude::*;

use crate::ast::AstSpan;
use crate::files::{span_seg_ok, span_seg_text, Span};
use crate::name_map::{compare_names, name_lt};
use crate::text::{chars_of, decimal_text, push_chars, push_vec, string_of, usize_text};

verus! {

/// The file a span belongs to, by path; empty for a span without a file.
pub open spec fn file_key(sp: Span) -> Seq<char> {
    match sp.file {
        Some(f) => f.path@,
        None => Seq::empty(),
    }
}

/// The position in increasing order of names where `k` goes among `ks`.
pub open spec fn key_position(ks: Seq<Seq<char>>, k: Seq<char>) -> int
    decreases ks.len(),
{
    if ks.len() == 0 {
        0
    } else if name_lt(ks[0], k) {
        1 + key_position(ks.drop_first(), k)
    } else {
        0
    }
}

/// `ks` with `k` put in its place in increasing order of names, unless it is there.
pub open spec fn key_insert(ks: Seq<Seq<char>>, k: Seq<char>) -> Seq<Seq<char>> {
    if ks.contains(k) {
        ks
    } else {
        ks.insert(key_position(ks, k), k)
    }
}

/// The files of the spans, each once, in increasing order of name.
pub open spec fn span_keys(spans: Seq<Span>) -> Seq<Seq<char>>
    decreases spans.len(),
{
    if spans.len() == 0 {
        Seq::empty()
    } else {
        key_insert(span_keys(spans.drop_last()), file_key(spans.last()))
    }
}

/// The spans of file `k`, in order.
pub open spec fn spans_with_key(spans: Seq<Span>, k: Seq<char>) -> Seq<Span>
    decreases spans.len(),
{
    if spans.len() == 0 {
        Seq::empty()
    } else {
        spans_with_key(spans.drop_last(), k) + if file_key(spans.last()) == k {
            seq![spans.last()]
        } else {
            Seq::empty()
        }
    }
}

/// The least start of the spans (`0` for none).
pub open spec fn min_start(g: Seq<Span>) -> nat
    decreases g.len(),
{
    if g.len() == 0 {
        0
    } else if g.len() == 1 {
        g[0].start as nat
    } else {
        let m = min_start(g.drop_last());
        if g.last().start < m {
            g.last().start as nat
        } else {
            m
        }
    }
}

/// The greatest end of the spans (`0` for none).
pub open spec fn max_end(g: Seq<Span>) -> nat
    decreases g.len(),
{
    if g.len() == 0 {
        0
    } else {
        let m = max_end(g.drop_last());
        if g.last().end > m {
            g.last().end as nat
        } else {
            m
        }
    }
}

/// The nonempty source segments of the spans, each once (at its first place).
pub open spec fn unique_segs(g: Seq<Span>) -> Seq<Seq<char>>
    decreases g.len(),
{
    if g.len() == 0 {
        Seq::empty()
    } else {
        let prev = unique_segs(g.drop_last());
        let t = span_seg_text(g.last());
        if t.len() == 0 || prev.contains(t) {
            prev
        } else {
            prev.push(t)
        }
    }
}

/// The texts one after another.
pub open spec fn concat_texts(ts: Seq<Seq<char>>) -> Seq<char>
    decreases ts.len(),
{
    if ts.len() == 0 {
        Seq::empty()
    } else {
        concat_texts(ts.drop_last()) + ts.last()
    }
}

/// The text for one file: `-> FILE:START-END` followed by its source segments, or, where
/// its spans start and end at `0`, `-> FILE:0` and an empty source line.
pub open spec fn group_text(k: Seq<char>, g: Seq<Span>) -> Seq<char> {
    let start = min_start(g);
    let end = max_end(g);
    if start == 0 && end == 0 {
        seq!['-', '>', ' '] + k + seq![':'] + decimal_text(start) + seq!['\n', ' ', ' ', ' ', '>', ' ', '0', '|']
    } else {
        seq!['-', '>', ' '] + k + seq![':'] + decimal_text(start) + seq!['-'] + decimal_text(end) + concat_texts(unique_segs(g))
    }
}

/// The texts of the files among `ks` with a name, one per line.
pub open spec fn groups_text(ks: Seq<Seq<char>>, spans: Seq<Span>) -> Seq<char>
    decreases ks.len(),
{
    if ks.len() == 0 {
        Seq::empty()
    } else {
        let prev = groups_text(ks.drop_last(), spans);
        let k = ks.last();
        if k.len() == 0 {
            prev
        } else if prev.len() == 0 {
            group_text(k, spans_with_key(spans, k))
        } else {
            prev + seq!['\n'] + group_text(k, spans_with_key(spans, k))
        }
    }
}

/// The error text of the spans: the hint and a newline (if there is a hint), then, for each
/// file in increasing order of name, its line range and source segments.
pub open spec fn ast_error_text(spans: Seq<Span>, hint: Option<Seq<char>>) -> Seq<char> {
    let head = match hint {
        Some(h) => h + seq!['\n'],
        None => Seq::empty(),
    };
    head + groups_text(span_keys(spans), spans)
}

/// The files of the spans from the last to the first, one `-> PATH` line each; a span
/// without a file clears what came before it.
pub open spec fn files_text(spans: Seq<Span>) -> Seq<char>
    decreases spans.len(),
{
    if spans.len() == 0 {
        Seq::empty()
    } else {
        match spans.last().file {
            Some(f) => seq!['-', '>', ' '] + f.path@ + seq!['\n'] + files_text(spans.drop_last()),
            None => Seq::empty(),
        }
    }
}

/// The position where `k` goes among the sorted `ks`.
fn find_key_position(ks: &Vec<String>, k: &String) -> (r: usize)
    ensures
        r as int == key_position(ks@.map_values(|s: String| s@), k@),
        r <= ks@.len(),
{
    let ghost kv = ks@.map_values(|s: String| s@);
    let mut i: usize = 0;
    assert(kv.skip(0) =~= kv);
    while i < ks.len() && compare_names(ks[i].as_str(), k.as_str()) < 0
        invariant
            kv == ks@.map_values(|s: String| s@),
            i <= ks@.len(),
            key_position(kv, k@) == i + key_position(kv.skip(i as int), k@),
        decreases ks.len() - i,
    {
        proof {
            let rest = kv.skip(i as int);
            assert(rest[0] == ks@[i as int]@);
            assert(rest.drop_first() =~= kv.skip(i + 1));
        }
        i = i + 1;
    }
    proof {
        let rest = kv.skip(i as int);
        if i < ks@.len() {
            assert(rest[0] == ks@[i as int]@);
        }
    }
    i
}

/// The files of the spans, each once, in increasing order of name.
fn sorted_keys(spans: &Vec<Span>) -> (r: Vec<String>)
    ensures
        r@.map_values(|s: String| s@) == span_keys(spans@),
{
    let mut ks: Vec<String> = Vec::new();
    let mut i: usize = 0;
    assert(ks@.map_values(|s: String| s@) =~= span_keys(spans@.take(0)));
    while i < spans.len()
        invariant
            i <= spans@.len(),
            ks@.map_values(|s: String| s@) == span_keys(spans@.take(i as int)),
        decreases spans.len() - i,
    {
        proof {
            let t = spans@.take(i + 1);
            assert(t.drop_last() =~= spans@.take(i as int));
            assert(t.last() == spans@[i as int]);
        }
        let k: String = match &spans[i].file {
            Some(f) => f.path.clone(),
            None => String::new(),
        };
        let ghost kv = ks@.map_values(|s: String| s@);
        let mut present = false;
        let mut j: usize = 0;
        while j < ks.len()
            invariant
                kv == ks@.map_values(|s: String| s@),
                j <= ks@.len(),
                present == (exists|x: int| 0 <= x < j && kv[x] == k@),
            decreases ks.len() - j,
        {
            assert(kv[j as int] == ks@[j as int]@);
            if crate::text::same_text(ks[j].as_str(), k.as_str()) {
                present = true;
            }
            j = j + 1;
        }
        if !present {
            let pos = find_key_position(&ks, &k);
            ks.insert(pos, k);
            assert(ks@.map_values(|s: String| s@) =~= kv.insert(pos as int, k@));
        }
        i = i + 1;
    }
    assert(spans@.take(spans@.len() as int) =~= spans@);
    ks
}

/// The positions of the spans of file `k`, in order.
fn key_group(spans: &Vec<Span>, k: &String) -> (r: Vec<usize>)
    ensures
        r@.map_values(|x: usize| spans@[x as int]) == spans_with_key(spans@, k@),
        forall|j: int| 0 <= j < r@.len() ==> r@[j] < spans@.len(),
{
    let mut r: Vec<usize> = Vec::new();
    let mut i: usize = 0;
    assert(r@.map_values(|x: usize| spans@[x as int]) =~= spans_with_key(spans@.take(0), k@));
    while i < spans.len()
        invariant
            i <= spans@.len(),
            r@.map_values(|x: usize| spans@[x as int]) == spans_with_key(spans@.take(i as int), k@),
            forall|j: int| 0 <= j < r@.len() ==> r@[j] < spans@.len(),
        decreases spans.len() - i,
    {
        proof {
            let t = spans@.take(i + 1);
            assert(t.drop_last() =~= spans@.take(i as int));
            assert(t.last() == spans@[i as int]);
        }
        let same = match &spans[i].file {
            Some(f) => crate::text::same_text(f.path.as_str(), k.as_str()),
            None => k.as_str().is_empty(),
        };
        let ghost before = r@;
        if same {
            assert(file_key(spans@[i as int]) == k@);
            assert(spans_with_key(spans@.take(i + 1), k@) =~= spans_with_key(spans@.take(i as int), k@).push(
                spans@[i as int],
            ));
            r.push(i);
            assert(r@.map_values(|x: usize| spans@[x as int]) =~= before.map_values(
                |x: usize| spans@[x as int],
            ).push(spans@[i as int]));
        } else {
            assert(file_key(spans@[i as int]) != k@);
            assert(spans_with_key(spans@.take(i + 1), k@) =~= spans_with_key(spans@.take(i as int), k@));
        }
        i = i + 1;
    }
    assert(spans@.take(spans@.len() as int) =~= spans@);
    r
}

/// The text for one file's spans (given by their positions).
fn group_chars(spans: &Vec<Span>, k: &String, g: &Vec<usize>) -> (out: Vec<char>)
    requires
        forall|j: int| 0 <= j < g@.len() ==> g@[j] < spans@.len(),
        forall|j: int| 0 <= j < spans@.len() ==> span_seg_ok(#[trigger] spans@[j]),
    ensures
        out@ == group_text(k@, g@.map_values(|x: usize| spans@[x as int])),
{
    let ghost gs = g@.map_values(|x: usize| spans@[x as int]);
    let mut start: usize = 0;
    let mut end: usize = 0;
    let mut segs: Vec<String> = Vec::new();
    let mut i: usize = 0;
    assert(gs.take(0) =~= Seq::<Span>::empty());
    assert(segs@.map_values(|s: String| s@) =~= unique_segs(gs.take(0)));
    while i < g.len()
        invariant
            gs == g@.map_values(|x: usize| spans@[x as int]),
            forall|j: int| 0 <= j < g@.len() ==> g@[j] < spans@.len(),
            forall|j: int| 0 <= j < spans@.len() ==> span_seg_ok(#[trigger] spans@[j]),
            i <= g@.len(),
            start == min_start(gs.take(i as int)),
            end == max_end(gs.take(i as int)),
            segs@.map_values(|s: String| s@) == unique_segs(gs.take(i as int)),
        decreases g.len() - i,
    {
        let sp = &spans[g[i]];
        proof {
            let t = gs.take(i + 1);
            assert(t.drop_last() =~= gs.take(i as int));
            assert(t.last() == spans@[g@[i as int] as int]);
            assert(span_seg_ok(spans@[g@[i as int] as int]));
        }
        if i == 0 || sp.start < start {
            start = sp.start;
        }
        if sp.end > end {
            end = sp.end;
        }
        let seg = sp.source_seg();
        let ghost sv = segs@.map_values(|s: String| s@);
        if !seg.as_str().is_empty() {
            let mut seen = false;
            let mut j: usize = 0;
            while j < segs.len()
                invariant
                    sv == segs@.map_values(|s: String| s@),
                    j <= segs@.len(),
                    seen == (exists|x: int| 0 <= x < j && sv[x] == seg@),
                decreases segs.len() - j,
            {
                assert(sv[j as int] == segs@[j as int]@);
                if crate::text::same_text(segs[j].as_str(), seg.as_str()) {
                    seen = true;
                }
                j = j + 1;
            }
            if !seen {
                segs.push(seg);
                assert(segs@.map_values(|s: String| s@) =~= sv.push(span_seg_text(*sp)));
            }
        }
        i = i + 1;
    }
    assert(gs.take(g@.len() as int) =~= gs);
    let mut out: Vec<char> = Vec::new();
    push_chars(&mut out, &['-', '>', ' ']);
    push_vec(&mut out, &chars_of(k.as_str()));
    out.push(':');
    push_vec(&mut out, &usize_text(start));
    if start == 0 && end == 0 {
        push_chars(&mut out, &['\n', ' ', ' ', ' ', '>', ' ', '0', '|']);
        proof {
            let a = ['\n', ' ', ' ', ' ', '>', ' ', '0', '|'];
            assert(a@ =~= seq!['\n', ' ', ' ', ' ', '>', ' ', '0', '|']);
        }
    } else {
        out.push('-');
        push_vec(&mut out, &usize_text(end));
        let ghost sv = segs@.map_values(|s: String| s@);
        let ghost head = out@;
        let mut j: usize = 0;
        assert(sv.take(0) =~= Seq::<Seq<char>>::empty());
        while j < segs.len()
            invariant
                sv == segs@.map_values(|s: String| s@),
                j <= segs@.len(),
                out@ == head + concat_texts(sv.take(j as int)),
            decreases segs.len() - j,
        {
            proof {
                let t = sv.take(j + 1);
                assert(t.drop_last() =~= sv.take(j as int));
                assert(t.last() == segs@[j as int]@);
            }
            push_vec(&mut out, &chars_of(segs[j].as_str()));
            j = j + 1;
        }
        assert(sv.take(segs@.len() as int) =~= sv);
    }
    proof {
        let a = ['-', '>', ' '];
        assert(a@ =~= seq!['-', '>', ' ']);
    }
    assert(out@ =~= group_text(k@, gs));
    out
}

impl AstSpan {
    /// Coalesce Multiple Spans Into an error string
    pub fn error(&self, hint: Option<&String>) -> (r: String)
        requires
            forall|j: int| 0 <= j < self.0@.len() ==> span_seg_ok(#[trigger] self.0@[j]),
        ensures
            r@ == ast_error_text(
                self.0@,
                match hint {
                    Some(h) => Some(h@),
                    None => None,
                },
            ),
    {
        let spans = &self.0;
        let keys = sorted_keys(spans);
        let ghost kv = keys@.map_values(|s: String| s@);
        let mut body: Vec<char> = Vec::new();
        let mut i: usize = 0;
        assert(kv.take(0) =~= Seq::<Seq<char>>::empty());
        while i < keys.len()
            invariant
                kv == keys@.map_values(|s: String| s@),
                kv == span_keys(spans@),
                spans == &self.0,
                forall|j: int| 0 <= j < spans@.len() ==> span_seg_ok(#[trigger] spans@[j]),
                i <= keys@.len(),
                body@ == groups_text(kv.take(i as int), spans@),
            decreases keys.len() - i,
        {
            proof {
                let t = kv.take(i + 1);
                assert(t.drop_last() =~= kv.take(i as int));
                assert(t.last() == keys@[i as int]@);
            }
            if !keys[i].as_str().is_empty() {
                let g = key_group(spans, &keys[i]);
                let text = group_chars(spans, &keys[i], &g);
                if body.len() > 0 {
                    body.push('\n');
                }
                push_vec(&mut body, &text);
            }
            i = i + 1;
        }
        assert(kv.take(keys@.len() as int) =~= kv);
        let mut out: Vec<char> = Vec::new();
        match hint {
            Some(h) => {
                push_vec(&mut out, &chars_of(h.as_str()));
                out.push('\n');
            },
            None => {},
        }
        push_vec(&mut out, &body);
        string_of(&out)
    }

    /// Print just the file for missing
    pub fn file(&self) -> (r: String)
        ensures
            r@ == files_text(self.0@),
    {
        let mut acc: Vec<char> = Vec::new();
        let mut i: usize = 0;
        assert(self.0@.take(0) =~= Seq::<Span>::empty());
        while i < self.0.len()
            invariant
                i <= self.0@.len(),
                acc@ == files_text(self.0@.take(i as int)),
            decreases self.0.len() - i,
        {
            proof {
                let t = self.0@.take(i + 1);
                assert(t.drop_last() =~= self.0@.take(i as int));
                assert(t.last() == self.0@[i as int]);
            }
            match &self.0[i].file {
                Some(fs) => {
                    let mut next: Vec<char> = Vec::new();
                    push_chars(&mut next, &['-', '>', ' ']);
                    push_vec(&mut next, &chars_of(fs.path.as_str()));
                    next.push('\n');
                    push_vec(&mut next, &acc);
                    proof {
                        let a = ['-', '>', ' '];
                        assert(a@ =~= seq!['-', '>', ' ']);
                    }
                    acc = next;
                },
                None => {
                    acc = Vec::new();
                },
            }
            i = i + 1;
        }
        assert(self.0@.take(self.0@.len() as int) =~= self.0@);
        string_of(&acc)
    }
}

} // verus!

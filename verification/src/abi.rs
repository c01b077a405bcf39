//! ABI type definitions for Ethereum contracts.

use vstd::prelude::*;

use crate::ast::{Argument, Contract, FunctionType, FunctionDefinition, MacroDefinition, EventDefinition, ErrorDefinition};
use crate::name_map::NameMap;
use crate::text::{
    push_chars, push_vec,
    lemma_decimal_text, dec_digits_value,
    chars_of, contains_char, decimal_text, has_prefix, lower_text, parse_usize, starts_with_chars,
    string_of, to_lowercase, usize_text, usize_value, chars_eq,
};

verus! {

// ---------------------------------------------------------------------------
// Parameter types
// ---------------------------------------------------------------------------

/// The type of a function parameter.
#[derive(Debug, PartialEq, Eq, PartialOrd, Ord)]
pub enum FunctionParamType {
    /// An address
    Address,
    /// Bytes
    Bytes,
    /// A signed integer
    Int(usize),
    /// An unsigned integer
    Uint(usize),
    /// A boolean
    Bool,
    /// A String
    String,
    /// Array ; uint256[2][] => Array(Uint(256), [2, 0])
    Array(Box<FunctionParamType>, Vec<usize>),
    /// Fixed number of bytes
    FixedBytes(usize),
    /// A tuple of parameters
    Tuple(Vec<FunctionParamType>),
}

/// The mathematical value of a [`FunctionParamType`].
pub enum ParamType {
    Address,
    Bytes,
    Int(nat),
    Uint(nat),
    Bool,
    Str,
    Array(Box<ParamType>, Seq<nat>),
    FixedBytes(nat),
    Tuple(Seq<ParamType>),
}

impl FunctionParamType {
    /// The value this parameter type stands for.
    pub open spec fn model(self) -> ParamType
        decreases self,
    {
        match self {
            FunctionParamType::Address => ParamType::Address,
            FunctionParamType::Bytes => ParamType::Bytes,
            FunctionParamType::Int(n) => ParamType::Int(n as nat),
            FunctionParamType::Uint(n) => ParamType::Uint(n as nat),
            FunctionParamType::Bool => ParamType::Bool,
            FunctionParamType::String => ParamType::Str,
            FunctionParamType::Array(b, sizes) => ParamType::Array(
                Box::new((*b).model()),
                sizes@.map_values(|x: usize| x as nat),
            ),
            FunctionParamType::FixedBytes(n) => ParamType::FixedBytes(n as nat),
            FunctionParamType::Tuple(inner) => ParamType::Tuple(models(inner@)),
        }
    }
}

/// The values of a sequence of parameter types.
pub open spec fn models(s: Seq<FunctionParamType>) -> Seq<ParamType>
    decreases s,
{
    if s.len() == 0 {
        Seq::empty()
    } else {
        models(s.drop_last()).push(s.last().model())
    }
}

proof fn lemma_models(s: Seq<FunctionParamType>)
    ensures
        models(s).len() == s.len(),
        forall|i: int| 0 <= i < s.len() ==> #[trigger] models(s)[i] == s[i].model(),
    decreases s.len(),
{
    if s.len() > 0 {
        lemma_models(s.drop_last());
        assert forall|i: int| 0 <= i < s.len() implies #[trigger] models(s)[i] == s[i].model() by {
            if i < s.len() - 1 {
                assert(s.drop_last()[i] == s[i]);
            }
        }
    }
}

impl Clone for FunctionParamType {
    fn clone(&self) -> (r: FunctionParamType)
        ensures
            r.model() == self.model(),
    {
        self.copy_type()
    }
}

// ---------------------------------------------------------------------------
// Printing
// ---------------------------------------------------------------------------

/// `[n]` for each nonzero size and `[]` for each zero size.
pub open spec fn sizes_text(sizes: Seq<nat>) -> Seq<char>
    decreases sizes.len(),
{
    if sizes.len() == 0 {
        Seq::empty()
    } else {
        sizes_text(sizes.drop_last()) + (if sizes.last() == 0 {
            seq!['[', ']']
        } else {
            seq!['['] + decimal_text(sizes.last()) + seq![']']
        })
    }
}

/// The Solidity spelling of a parameter type: `address`, `uint256`, `bytes32`,
/// `bool[][2]`, `(uint8, address)`.
pub open spec fn type_text(t: ParamType) -> Seq<char>
    decreases t,
{
    match t {
        ParamType::Address => seq!['a', 'd', 'd', 'r', 'e', 's', 's'],
        ParamType::Bytes => seq!['b', 'y', 't', 'e', 's'],
        ParamType::Int(n) => seq!['i', 'n', 't'] + decimal_text(n),
        ParamType::Uint(n) => seq!['u', 'i', 'n', 't'] + decimal_text(n),
        ParamType::Bool => seq!['b', 'o', 'o', 'l'],
        ParamType::Str => seq!['s', 't', 'r', 'i', 'n', 'g'],
        ParamType::Array(b, sizes) => type_text(*b) + sizes_text(sizes),
        ParamType::FixedBytes(n) => seq!['b', 'y', 't', 'e', 's'] + decimal_text(n),
        ParamType::Tuple(inner) => seq!['('] + list_text(inner) + seq![')'],
    }
}

/// The spellings of the types, joined by `, `.
pub open spec fn list_text(ts: Seq<ParamType>) -> Seq<char>
    decreases ts,
{
    if ts.len() == 0 {
        Seq::empty()
    } else if ts.len() == 1 {
        type_text(ts[0])
    } else {
        list_text(ts.drop_last()) + seq![',', ' '] + type_text(ts.last())
    }
}

impl FunctionParamType {
    /// Checks if the param type should be designated as "memory" for solidity interface
    /// generation.
    pub fn is_memory_type(&self) -> (r: bool)
        ensures
            r == (self.model() is Bytes || self.model() is Str || self.model() is Tuple
                || self.model() is Array),
    {
        match self {
            FunctionParamType::Bytes | FunctionParamType::String | FunctionParamType::Tuple(_)
            | FunctionParamType::Array(_, _) => true,
            _ => false,
        }
    }

    fn write_sizes(sizes: &Vec<usize>, out: &mut Vec<char>)
        ensures
            final(out)@ == old(out)@ + sizes_text(sizes@.map_values(|x: usize| x as nat)),
    {
        let ghost m = sizes@.map_values(|x: usize| x as nat);
        let mut i: usize = 0;
        while i < sizes.len()
            invariant
                m == sizes@.map_values(|x: usize| x as nat),
                i <= sizes@.len(),
                out@ == old(out)@ + sizes_text(m.take(i as int)),
            decreases sizes.len() - i,
        {
            let s = sizes[i];
            proof {
                assert(m.take(i + 1).drop_last() =~= m.take(i as int));
            }
            if s == 0 {
                push_chars(out, &['[', ']']);
            } else {
                push_chars(out, &['[']);
                let d = usize_text(s);
                push_vec(out, &d);
                push_chars(out, &[']']);
            }
            proof {
                assert(out@ =~= old(out)@ + sizes_text(m.take(i + 1)));
            }
            i = i + 1;
        }
        assert(m.take(sizes@.len() as int) =~= m);
    }

    fn write_type(&self, out: &mut Vec<char>)
        ensures
            final(out)@ == old(out)@ + type_text(self.model()),
        decreases self,
    {
        match self {
            FunctionParamType::Address => push_chars(out, &['a', 'd', 'd', 'r', 'e', 's', 's']),
            FunctionParamType::Bytes => push_chars(out, &['b', 'y', 't', 'e', 's']),
            FunctionParamType::Int(n) => {
                push_chars(out, &['i', 'n', 't']);
                let d = usize_text(*n);
                push_vec(out, &d);
            },
            FunctionParamType::Uint(n) => {
                push_chars(out, &['u', 'i', 'n', 't']);
                let d = usize_text(*n);
                push_vec(out, &d);
            },
            FunctionParamType::Bool => push_chars(out, &['b', 'o', 'o', 'l']),
            FunctionParamType::String => push_chars(out, &['s', 't', 'r', 'i', 'n', 'g']),
            FunctionParamType::Array(fpt, sizes) => {
                (**fpt).write_type(out);
                Self::write_sizes(sizes, out);
            },
            FunctionParamType::FixedBytes(n) => {
                push_chars(out, &['b', 'y', 't', 'e', 's']);
                let d = usize_text(*n);
                push_vec(out, &d);
            },
            FunctionParamType::Tuple(inner) => {
                push_chars(out, &['(']);
                let ghost start = out@;
                let ghost ms = models(inner@);
                proof {
                    lemma_models(inner@);
                    assert(decreases_to!(*self => (*self)->Tuple_0));
                }
                let mut i: usize = 0;
                while i < inner.len()
                    invariant
                        decreases_to!(*self => *inner),
                        ms == models(inner@),
                        ms.len() == inner@.len(),
                        forall|j: int| 0 <= j < inner@.len() ==> #[trigger] ms[j] == inner@[j].model(),
                        i <= inner@.len(),
                        out@ == start + list_text(ms.take(i as int)),
                    decreases inner.len() - i,
                {
                    if i > 0 {
                        push_chars(out, &[',', ' ']);
                    }
                    proof {
                        vstd::std_specs::vec::axiom_vec_index_decreases(*inner, i as int);
                        assert(decreases_to!(*self => inner@[i as int]));
                    }
                    inner[i].write_type(out);
                    proof {
                        let t = ms.take(i + 1);
                        assert(t.drop_last() =~= ms.take(i as int));
                        assert(t.last() == inner@[i as int].model());
                        if i == 0 {
                            assert(t.len() == 1);
                            assert(ms.take(0) =~= Seq::<ParamType>::empty());
                        }
                        assert(out@ =~= start + list_text(t));
                    }
                    i = i + 1;
                }
                assert(ms.take(inner@.len() as int) =~= ms);
                push_chars(out, &[')']);
            },
        }
    }

    /// A copy of the type.
    pub fn copy_type(&self) -> (r: FunctionParamType)
        ensures
            r.model() == self.model(),
        decreases self,
    {
        match self {
            FunctionParamType::Address => FunctionParamType::Address,
            FunctionParamType::Bytes => FunctionParamType::Bytes,
            FunctionParamType::Int(n) => FunctionParamType::Int(*n),
            FunctionParamType::Uint(n) => FunctionParamType::Uint(*n),
            FunctionParamType::Bool => FunctionParamType::Bool,
            FunctionParamType::String => FunctionParamType::String,
            FunctionParamType::Array(fpt, sizes) => {
                let inner = (**fpt).copy_type();
                let mut v: Vec<usize> = Vec::new();
                let mut i: usize = 0;
                while i < sizes.len()
                    invariant
                        i <= sizes@.len(),
                        v@ == sizes@.take(i as int),
                    decreases sizes.len() - i,
                {
                    v.push(sizes[i]);
                    proof {
                        assert(sizes@.take(i + 1) =~= sizes@.take(i as int).push(sizes@[i as int]));
                    }
                    i = i + 1;
                }
                assert(sizes@.take(sizes@.len() as int) =~= sizes@);
                FunctionParamType::Array(Box::new(inner), v)
            },
            FunctionParamType::FixedBytes(n) => FunctionParamType::FixedBytes(*n),
            FunctionParamType::Tuple(inner) => {
                let mut v: Vec<FunctionParamType> = Vec::new();
                let mut i: usize = 0;
                proof {
                    lemma_models(inner@);
                    assert(decreases_to!(*self => (*self)->Tuple_0));
                }
                while i < inner.len()
                    invariant
                        decreases_to!(*self => *inner),
                        i <= inner@.len(),
                        models(v@) == models(inner@).take(i as int),
                        models(inner@).len() == inner@.len(),
                        forall|j: int| 0 <= j < inner@.len() ==> #[trigger] models(inner@)[j] == inner@[j].model(),
                    decreases inner.len() - i,
                {
                    proof {
                        vstd::std_specs::vec::axiom_vec_index_decreases(*inner, i as int);
                        assert(decreases_to!(*self => inner@[i as int]));
                    }
                    let c = inner[i].copy_type();
                    let ghost old_v = v@;
                    v.push(c);
                    proof {
                        assert(v@.drop_last() =~= old_v);
                        assert(models(inner@).take(i + 1) =~= models(inner@).take(i as int).push(inner@[i as int].model()));
                    }
                    i = i + 1;
                }
                assert(models(inner@).take(inner@.len() as int) =~= models(inner@));
                FunctionParamType::Tuple(v)
            },
        }
    }

    /// The Solidity spelling of the type, as `Display` prints it.
    pub fn display(&self) -> (s: String)
        ensures
            s@ == type_text(self.model()),
    {
        let mut out: Vec<char> = Vec::new();
        self.write_type(&mut out);
        string_of(&out)
    }
}


// ---------------------------------------------------------------------------
// Reading a type from text
// ---------------------------------------------------------------------------

/// The pieces of `s` between occurrences of `c`, as `str::split(c)` yields them.
pub open spec fn split_on(s: Seq<char>, c: char) -> Seq<Seq<char>>
    decreases s.len(),
{
    if s.len() == 0 {
        seq![Seq::empty()]
    } else {
        let p = split_on(s.drop_last(), c);
        if s.last() == c {
            p.push(Seq::empty())
        } else {
            p.update(p.len() - 1, p.last().push(s.last()))
        }
    }
}

pub(crate) proof fn lemma_split_nonempty(s: Seq<char>, c: char)
    ensures
        split_on(s, c).len() >= 1,
    decreases s.len(),
{
    if s.len() > 0 {
        lemma_split_nonempty(s.drop_last(), c);
    }
}

/// `s` without the occurrences of `c`.
pub open spec fn remove_char(s: Seq<char>, c: char) -> Seq<char>
    decreases s.len(),
{
    if s.len() == 0 {
        Seq::empty()
    } else if s.last() == c {
        remove_char(s.drop_last(), c)
    } else {
        remove_char(s.drop_last(), c).push(s.last())
    }
}

/// A piece of an array type with its `]` removed, `0` standing for an empty piece.
pub open spec fn clean_piece(p: Seq<char>) -> Seq<char> {
    let r = remove_char(p, ']');
    if r.len() == 0 {
        seq!['0']
    } else {
        r
    }
}

/// The sizes that the cleaned pieces read as; `None` when one of them is no `usize`
/// (where reading the type panics).
pub open spec fn sizes_of(ps: Seq<Seq<char>>) -> Option<Seq<nat>>
    decreases ps.len(),
{
    if ps.len() == 0 {
        Some(Seq::empty())
    } else {
        match (sizes_of(ps.drop_last()), usize_value(clean_piece(ps.last()))) {
            (Some(a), Some(v)) => Some(a.push(v)),
            _ => None,
        }
    }
}

/// A size read from the text after a type name: 256 when there is none.
pub open spec fn width_of(rest: Seq<char>) -> Option<nat> {
    if rest.len() == 0 {
        Some(256)
    } else {
        usize_value(rest)
    }
}

/// What `convert_string_to_type(orig)` gives when `orig` lower-cases to `l`, following at
/// most `fuel` nested conversions of an array's element type: `None` where the conversion
/// panics, `Err(text)` naming the text that no type matches.
pub open spec fn lowered_type(orig: Seq<char>, l: Seq<char>, fuel: nat) -> Option<
    Result<ParamType, Seq<char>>,
>
    decreases fuel,
{
    if l.contains('[') {
        if fuel == 0 {
            Some(Err(orig))
        } else {
            let pieces = split_on(l, '[');
            let first = clean_piece(pieces[0]);
            match lowered_type(first, lower_text(first), (fuel - 1) as nat) {
                Some(Ok(t)) => match sizes_of(pieces.drop_first()) {
                    Some(sizes) => Some(Ok(ParamType::Array(Box::new(t), sizes))),
                    None => None,
                },
                other => other,
            }
        }
    } else if has_prefix(l, seq!['u', 'i', 'n', 't']) {
        match width_of(l.skip(4)) {
            Some(n) => Some(Ok(ParamType::Uint(n))),
            None => None,
        }
    } else if has_prefix(l, seq!['i', 'n', 't']) {
        match width_of(l.skip(3)) {
            Some(n) => Some(Ok(ParamType::Int(n))),
            None => None,
        }
    } else if has_prefix(l, seq!['b', 'y', 't', 'e', 's']) && l.len() != 5 {
        match usize_value(l.skip(5)) {
            Some(n) => Some(Ok(ParamType::FixedBytes(n))),
            None => None,
        }
    } else if has_prefix(l, seq!['b', 'o', 'o', 'l']) {
        Some(Ok(ParamType::Bool))
    } else if has_prefix(l, seq!['a', 'd', 'd', 'r', 'e', 's', 's']) {
        Some(Ok(ParamType::Address))
    } else if has_prefix(l, seq!['s', 't', 'r', 'i', 'n', 'g']) {
        Some(Ok(ParamType::Str))
    } else if l == seq!['b', 'y', 't', 'e', 's'] {
        Some(Ok(ParamType::Bytes))
    } else {
        Some(Err(orig))
    }
}

/// What `convert_string_to_type(s)` gives: `None` where the conversion panics.
pub open spec fn param_type_of(s: Seq<char>) -> Option<Result<ParamType, Seq<char>>> {
    lowered_type(s, lower_text(s), usize::MAX as nat)
}

/// A text that no parameter type matches.
#[derive(Debug, Clone, PartialEq, Eq)]
pub struct ParamTypeError {
    /// The text
    pub input: String,
}

impl ParamTypeError {
    /// The error message: `Failed to create FunctionParamType from string: <text>`.
    pub fn message(&self) -> (m: String)
        ensures
            m@ == "Failed to create FunctionParamType from string: "@ + self.input@,
    {
        let mut m = String::from_str("Failed to create FunctionParamType from string: ");
        m.append(self.input.as_str());
        m
    }
}

/// Splits `s` at each `c`.
pub(crate) fn split_chars(s: &Vec<char>, c: char) -> (r: Vec<Vec<char>>)
    ensures
        r@.map_values(|v: Vec<char>| v@) == split_on(s@, c),
{
    let mut done: Vec<Vec<char>> = Vec::new();
    let mut cur: Vec<char> = Vec::new();
    let mut i: usize = 0;
    while i < s.len()
        invariant
            i <= s@.len(),
            done@.map_values(|v: Vec<char>| v@).push(cur@) == split_on(s@.take(i as int), c),
        decreases s.len() - i,
    {
        let ch = s[i];
        let ghost before = done@.map_values(|v: Vec<char>| v@).push(cur@);
        proof {
            let t = s@.take(i + 1);
            assert(t.drop_last() =~= s@.take(i as int));
            assert(t.last() == ch);
        }
        if ch == c {
            let piece = cur;
            done.push(piece);
            cur = Vec::new();
            proof {
                assert(done@.map_values(|v: Vec<char>| v@).push(cur@) =~= before.push(Seq::empty()));
            }
        } else {
            cur.push(ch);
            proof {
                assert(done@.map_values(|v: Vec<char>| v@).push(cur@) =~= before.update(
                    before.len() - 1,
                    before.last().push(ch),
                ));
            }
        }
        i = i + 1;
    }
    assert(s@.take(s@.len() as int) =~= s@);
    done.push(cur);
    done
}

/// `s` with `]` removed, `0` for an empty result.
fn clean(s: &Vec<char>) -> (r: Vec<char>)
    ensures
        r@ == clean_piece(s@),
{
    let mut r: Vec<char> = Vec::new();
    let mut i: usize = 0;
    while i < s.len()
        invariant
            i <= s@.len(),
            r@ == remove_char(s@.take(i as int), ']'),
        decreases s.len() - i,
    {
        proof {
            let t = s@.take(i + 1);
            assert(t.drop_last() =~= s@.take(i as int));
        }
        if s[i] != ']' {
            r.push(s[i]);
        }
        i = i + 1;
    }
    assert(s@.take(s@.len() as int) =~= s@);
    if r.len() == 0 {
        r.push('0');
        assert(r@ =~= seq!['0']);
    }
    r
}

fn rest_from(s: &Vec<char>, k: usize) -> (r: Vec<char>)
    requires
        k <= s@.len(),
    ensures
        r@ == s@.skip(k as int),
{
    let mut r: Vec<char> = Vec::new();
    let mut i = k;
    while i < s.len()
        invariant
            k <= i <= s@.len(),
            r@ == s@.subrange(k as int, i as int),
        decreases s.len() - i,
    {
        r.push(s[i]);
        proof {
            assert(s@.subrange(k as int, i + 1) =~= s@.subrange(k as int, i as int).push(s@[i as int]));
        }
        i = i + 1;
    }
    r
}

/// Reads a width: 256 when `rest` is empty.
fn read_width(rest: &Vec<char>) -> (r: Option<usize>)
    ensures
        r matches Some(x) ==> width_of(rest@) == Some(x as nat),
        r is None ==> width_of(rest@) is None,
{
    if rest.len() == 0 {
        Some(256)
    } else {
        parse_usize(rest)
    }
}

impl FunctionParamType {
    fn convert_with_fuel(string: &str, fuel: usize) -> (r: Option<Result<Self, ParamTypeError>>)
        ensures
            lowered_type(string@, lower_text(string@), fuel as nat) == match r {
                Some(Ok(t)) => Some(Ok::<ParamType, Seq<char>>(t.model())),
                Some(Err(e)) => Some(Err::<ParamType, Seq<char>>(e.input@)),
                None => None,
            },
        decreases fuel,
    {
        let lowered = to_lowercase(string);
        let l = chars_of(lowered.as_str());
        if contains_char(&l, '[') {
            if fuel == 0 {
                return Some(Err(ParamTypeError { input: String::from_str(string) }));
            }
            let pieces = split_chars(&l, '[');
            let ghost ps = pieces@.map_values(|v: Vec<char>| v@);
            proof {
                lemma_split_nonempty(l@, '[');
            }
            assert(ps.len() == pieces@.len());
            assert(ps[0] == pieces@[0]@);
            let first_chars = clean(&pieces[0]);
            let first = string_of(&first_chars);
            let func_type = match Self::convert_with_fuel(first.as_str(), fuel - 1) {
                Some(Ok(t)) => t,
                Some(Err(e)) => {
                    return Some(Err(e));
                },
                None => {
                    return None;
                },
            };
            let mut sizes: Vec<usize> = Vec::new();
            let mut i: usize = 1;
            assert(sizes_of(ps.drop_first()) is None ==> lowered_type(string@, lower_text(string@), fuel as nat) is None);
            while i < pieces.len()
                invariant
                    sizes_of(ps.drop_first()) is None ==> lowered_type(string@, lower_text(string@), fuel as nat) is None,
                    ps == pieces@.map_values(|v: Vec<char>| v@),
                    ps.len() == pieces@.len(),
                    1 <= i <= pieces@.len(),
                    sizes_of(ps.subrange(1, i as int)) == Some(sizes@.map_values(|x: usize| x as nat)),
                decreases pieces.len() - i,
            {
                let c = clean(&pieces[i]);
                let n = parse_usize(&c);
                proof {
                    let t = ps.subrange(1, i + 1);
                    assert(t.drop_last() =~= ps.subrange(1, i as int));
                    assert(t.last() == pieces@[i as int]@);
                    if n is None {
                        lemma_sizes_prefix(ps.drop_first(), i - 1 + 1);
                        assert(ps.drop_first().take(i as int) =~= t);
                    }
                }
                let v = match n {
                    Some(v) => v,
                    None => {
                        return None;
                    },
                };
                let ghost old_m = sizes@.map_values(|x: usize| x as nat);
                sizes.push(v);
                proof {
                    assert(sizes@.map_values(|x: usize| x as nat) =~= old_m.push(v as nat));
                }
                i = i + 1;
            }
            assert(ps.subrange(1, pieces@.len() as int) =~= ps.drop_first());
            return Some(Ok(FunctionParamType::Array(Box::new(func_type), sizes)));
        }
        if starts_with_chars(&l, &['u', 'i', 'n', 't']) {
            let rest = rest_from(&l, 4);
            match read_width(&rest) {
                Some(n) => return Some(Ok(FunctionParamType::Uint(n))),
                None => {
                    return None;
                },
            }
        }
        if starts_with_chars(&l, &['i', 'n', 't']) {
            let rest = rest_from(&l, 3);
            match read_width(&rest) {
                Some(n) => return Some(Ok(FunctionParamType::Int(n))),
                None => {
                    return None;
                },
            }
        }
        if starts_with_chars(&l, &['b', 'y', 't', 'e', 's']) && l.len() != 5 {
            let rest = rest_from(&l, 5);
            match parse_usize(&rest) {
                Some(n) => return Some(Ok(FunctionParamType::FixedBytes(n))),
                None => {
                    return None;
                },
            }
        }
        if starts_with_chars(&l, &['b', 'o', 'o', 'l']) {
            return Some(Ok(FunctionParamType::Bool));
        }
        if starts_with_chars(&l, &['a', 'd', 'd', 'r', 'e', 's', 's']) {
            return Some(Ok(FunctionParamType::Address));
        }
        if starts_with_chars(&l, &['s', 't', 'r', 'i', 'n', 'g']) {
            return Some(Ok(FunctionParamType::String));
        }
        if chars_eq(&l, &['b', 'y', 't', 'e', 's']) {
            Some(Ok(FunctionParamType::Bytes))
        } else {
            Some(Err(ParamTypeError { input: String::from_str(string) }))
        }
    }

    /// Converts a string to a parameter type: the text is lower-cased, then read as an array
    /// (`uint256[2][]`), `uint<N>`, `int<N>` (256 when no width is written), `bytes<N>`,
    /// `bool`, `address`, `string` (each by prefix) or exactly `bytes`.
    ///
    /// A text where an array size or a width is no `usize` is not accepted (reading it
    /// panics); `try_convert_string_to_type` reports it. A text that matches no type gives
    /// `Err`.
    pub fn convert_string_to_type(string: &str) -> (r: Result<Self, ParamTypeError>)
        requires
            param_type_of(string@) is Some,
        ensures
            param_type_of(string@) == Some(
                match r {
                    Ok(t) => Ok::<ParamType, Seq<char>>(t.model()),
                    Err(e) => Err::<ParamType, Seq<char>>(e.input@),
                },
            ),
    {
        match Self::convert_with_fuel(string, usize::MAX) {
            Some(r) => r,
            None => {
                assert(false);
                Err(ParamTypeError { input: String::new() })
            },
        }
    }

    /// Converts a string to a parameter type as `convert_string_to_type` does, where that
    /// does not panic (an array size or a width that is no `usize`); `None` where it does.
    pub fn try_convert_string_to_type(string: &str) -> (r: Option<Result<Self, ParamTypeError>>)
        ensures
            param_type_of(string@) == match r {
                Some(Ok(t)) => Some(Ok::<ParamType, Seq<char>>(t.model())),
                Some(Err(e)) => Some(Err::<ParamType, Seq<char>>(e.input@)),
                None => None,
            },
    {
        Self::convert_with_fuel(string, usize::MAX)
    }
}

proof fn lemma_sizes_prefix(ps: Seq<Seq<char>>, i: int)
    requires
        0 <= i <= ps.len(),
        sizes_of(ps.take(i)) is None,
    ensures
        sizes_of(ps) is None,
    decreases ps.len() - i,
{
    if i < ps.len() {
        let t = ps.take(i + 1);
        assert(t.drop_last() =~= ps.take(i));
        lemma_sizes_prefix(ps, i + 1);
    } else {
        assert(ps.take(i) =~= ps);
    }
}


// ---------------------------------------------------------------------------
// Reading back a printed type
// ---------------------------------------------------------------------------

proof fn lemma_split_without(x: Seq<char>, c: char)
    requires
        !x.contains(c),
    ensures
        split_on(x, c) == seq![x],
    decreases x.len(),
{
    if x.len() > 0 {
        assert(!x.drop_last().contains(c)) by {
            if x.drop_last().contains(c) {
                let k = choose|k: int| 0 <= k < x.drop_last().len() && x.drop_last()[k] == c;
                assert(x[k] == c);
            }
        }
        lemma_split_without(x.drop_last(), c);
        assert(x.last() != c) by {
            assert(x[x.len() - 1] == x.last());
        }
        assert(x.drop_last().push(x.last()) =~= x);
        assert(seq![x.drop_last()].update(0, x.drop_last().push(x.last())) =~= seq![x]);
    } else {
        assert(x =~= Seq::<char>::empty());
    }
}

proof fn lemma_split_concat(x: Seq<char>, y: Seq<char>, c: char)
    ensures
        split_on(x + seq![c] + y, c) == split_on(x, c) + split_on(y, c),
    decreases y.len(),
{
    let z = x + seq![c] + y;
    if y.len() == 0 {
        assert(z.drop_last() =~= x);
        assert(split_on(y, c) =~= seq![Seq::<char>::empty()]);
        assert(split_on(x, c).push(Seq::<char>::empty()) =~= split_on(x, c) + split_on(y, c));
    } else {
        lemma_split_concat(x, y.drop_last(), c);
        assert(z.drop_last() =~= x + seq![c] + y.drop_last());
        lemma_split_nonempty(y.drop_last(), c);
        let a = split_on(x, c);
        let b = split_on(y.drop_last(), c);
        if y.last() == c {
            assert((a + b).push(Seq::<char>::empty()) =~= a + b.push(Seq::<char>::empty()));
        } else {
            assert((a + b).update((a + b).len() - 1, (a + b).last().push(y.last())) =~= a
                + b.update(b.len() - 1, b.last().push(y.last())));
        }
    }
}

/// A parameter type whose printed text reads back: not a tuple, widths and sizes within
/// `usize`, and an array has at least one size and an element type that is neither an
/// array nor a tuple.
pub open spec fn readable_type(t: ParamType) -> bool
    decreases t,
{
    match t {
        ParamType::Int(n) => n <= usize::MAX,
        ParamType::Uint(n) => n <= usize::MAX,
        ParamType::FixedBytes(n) => n <= usize::MAX,
        ParamType::Tuple(_) => false,
        ParamType::Array(b, sizes) => sizes.len() >= 1 && readable_type(*b) && !(*b is Array)
            && forall|i: int| 0 <= i < sizes.len() ==> #[trigger] sizes[i] <= usize::MAX,
        _ => true,
    }
}

/// The element type of an array type; the type itself otherwise.
pub open spec fn element_type(t: ParamType) -> ParamType {
    match t {
        ParamType::Array(b, _) => *b,
        _ => t,
    }
}

/// The piece that `[` splits off for one printed size.
pub open spec fn size_piece(n: nat) -> Seq<char> {
    if n == 0 {
        seq![']']
    } else {
        decimal_text(n) + seq![']']
    }
}

proof fn lemma_decimal_has_no(n: nat, c: char)
    requires
        !('0' <= c <= '9'),
    ensures
        !decimal_text(n).contains(c),
{
    lemma_decimal_text(n);
}

proof fn lemma_split_sizes(t: Seq<char>, sizes: Seq<nat>)
    requires
        !t.contains('['),
    ensures
        split_on(t + sizes_text(sizes), '[') == seq![t] + sizes.map_values(|n: nat| size_piece(n)),
    decreases sizes.len(),
{
    if sizes.len() == 0 {
        assert(t + sizes_text(sizes) =~= t);
        lemma_split_without(t, '[');
        assert(seq![t] + sizes.map_values(|n: nat| size_piece(n)) =~= seq![t]);
    } else {
        let d = sizes.drop_last();
        let n = sizes.last();
        lemma_split_sizes(t, d);
        let p = size_piece(n);
        lemma_decimal_has_no(n, '[');
        assert(!p.contains('[')) by {
            if p.contains('[') {
                let k = choose|k: int| 0 <= k < p.len() && p[k] == '[';
                if n != 0 {
                    assert(k < decimal_text(n).len());
                    assert(decimal_text(n)[k] == '[');
                }
            }
        }
        lemma_split_without(p, '[');
        let tail = if n == 0 { seq!['[', ']'] } else { seq!['['] + decimal_text(n) + seq![']'] };
        assert(tail =~= seq!['['] + p);
        assert(t + sizes_text(sizes) =~= (t + sizes_text(d)) + seq!['['] + p);
        lemma_split_concat(t + sizes_text(d), p, '[');
        assert(seq![t] + sizes.map_values(|n: nat| size_piece(n)) =~= (seq![t] + d.map_values(
            |n: nat| size_piece(n),
        )) + seq![p]);
    }
}

proof fn lemma_remove_absent(x: Seq<char>, c: char)
    requires
        !x.contains(c),
    ensures
        remove_char(x, c) == x,
    decreases x.len(),
{
    if x.len() > 0 {
        assert(!x.drop_last().contains(c)) by {
            if x.drop_last().contains(c) {
                let k = choose|k: int| 0 <= k < x.drop_last().len() && x.drop_last()[k] == c;
                assert(x[k] == c);
            }
        }
        lemma_remove_absent(x.drop_last(), c);
        assert(x[x.len() - 1] == x.last());
        assert(x.drop_last().push(x.last()) =~= x);
    }
}

proof fn lemma_sizes_read_back(sizes: Seq<nat>)
    requires
        forall|i: int| 0 <= i < sizes.len() ==> #[trigger] sizes[i] <= usize::MAX,
    ensures
        sizes_of(sizes.map_values(|n: nat| size_piece(n))) == Some(sizes),
    decreases sizes.len(),
{
    if sizes.len() > 0 {
        let d = sizes.drop_last();
        let n = sizes.last();
        assert forall|i: int| 0 <= i < d.len() implies #[trigger] d[i] <= usize::MAX by {
            assert(d[i] == sizes[i]);
        }
        lemma_sizes_read_back(d);
        let ps = sizes.map_values(|n: nat| size_piece(n));
        assert(ps.drop_last() =~= d.map_values(|n: nat| size_piece(n)));
        assert(ps.last() == size_piece(n));
        assert(n <= usize::MAX) by {
            assert(sizes[sizes.len() - 1] == n);
        }
        if n == 0 {
            assert(seq![']'].drop_last() =~= Seq::<char>::empty());
            assert(remove_char(Seq::<char>::empty(), ']') =~= Seq::<char>::empty());
            assert(clean_piece(seq![']']) =~= seq!['0']);
            assert(seq!['0'].drop_last() =~= Seq::<char>::empty());
            assert(seq!['0'].last() == '0');
            assert(dec_digits_value(Seq::<char>::empty()) == Some(0nat));
            assert(dec_digits_value(seq!['0']) == Some(0nat));
        } else {
            let dt = decimal_text(n);
            lemma_decimal_text(n);
            lemma_decimal_has_no(n, ']');
            lemma_remove_absent(dt, ']');
            assert((dt + seq![']']).drop_last() =~= dt);
            assert(clean_piece(dt + seq![']']) == dt);
            assert(dt[0] != '+');
        }
        assert(d.push(n) =~= sizes);
    }
}

proof fn lemma_plain_text_no_bracket(t: ParamType)
    requires
        readable_type(t),
        !(t is Array),
    ensures
        !type_text(t).contains('['),
        !type_text(t).contains(']'),
        type_text(t).len() >= 1,
{
    match t {
        ParamType::Int(n) => {
            lemma_decimal_text(n);
        },
        ParamType::Uint(n) => {
            lemma_decimal_text(n);
        },
        ParamType::FixedBytes(n) => {
            lemma_decimal_text(n);
        },
        _ => {},
    }
    let x = type_text(t);
    assert(!x.contains('[')) by {
        if x.contains('[') {
            let k = choose|k: int| 0 <= k < x.len() && x[k] == '[';
        }
    }
    assert(!x.contains(']')) by {
        if x.contains(']') {
            let k = choose|k: int| 0 <= k < x.len() && x[k] == ']';
        }
    }
}

proof fn lemma_read_plain(orig: Seq<char>, t: ParamType, fuel: nat)
    requires
        readable_type(t),
        !(t is Array),
    ensures
        lowered_type(orig, type_text(t), fuel) == Some(Ok::<ParamType, Seq<char>>(t)),
{
    lemma_plain_text_no_bracket(t);
    let x = type_text(t);
    match t {
        ParamType::Int(n) => {
            lemma_decimal_text(n);
            assert(x.skip(3) =~= decimal_text(n));
            assert(x[0] == 'i');
            assert(x.take(3) =~= seq!['i', 'n', 't']);
        },
        ParamType::Uint(n) => {
            lemma_decimal_text(n);
            assert(x.skip(4) =~= decimal_text(n));
            assert(x.take(4) =~= seq!['u', 'i', 'n', 't']);
        },
        ParamType::FixedBytes(n) => {
            lemma_decimal_text(n);
            assert(x.skip(5) =~= decimal_text(n));
            assert(x.take(5) =~= seq!['b', 'y', 't', 'e', 's']);
            assert(x[0] == 'b');
            assert(x[1] == 'y');
        },
        ParamType::Address => {
            assert(x.take(7) =~= seq!['a', 'd', 'd', 'r', 'e', 's', 's']);
        },
        ParamType::Bool => {
            assert(x.take(4) =~= seq!['b', 'o', 'o', 'l']);
            assert(x[1] == 'o');
        },
        ParamType::Str => {
            assert(x.take(6) =~= seq!['s', 't', 'r', 'i', 'n', 'g']);
        },
        ParamType::Bytes => {
            assert(x[1] == 'y');
        },
        _ => {},
    }
}

/// Whether every character is ASCII and none is a capital letter.
pub open spec fn caseless_text(s: Seq<char>) -> bool {
    forall|i: int| 0 <= i < s.len() ==> '\0' <= #[trigger] s[i] <= '\u{7f}' && !('A' <= s[i] <= 'Z')
}

proof fn lemma_caseless_lower(s: Seq<char>)
    requires
        caseless_text(s),
    ensures
        lower_text(s) == s,
{
    assert(vstd::utf8::is_ascii_chars(s));
    assert(s.map_values(|c: char| crate::text::ascii_lower(c)) =~= s);
}

proof fn lemma_caseless_concat(a: Seq<char>, b: Seq<char>)
    requires
        caseless_text(a),
        caseless_text(b),
    ensures
        caseless_text(a + b),
{
    assert forall|i: int| 0 <= i < (a + b).len() implies '\0' <= #[trigger] (a + b)[i] <= '\u{7f}' && !('A'
        <= (a + b)[i] <= 'Z') by {
        if i < a.len() {
            assert((a + b)[i] == a[i]);
        } else {
            assert((a + b)[i] == b[i - a.len()]);
        }
    }
}

proof fn lemma_decimal_caseless(n: nat)
    ensures
        caseless_text(decimal_text(n)),
{
    lemma_decimal_text(n);
}

proof fn lemma_sizes_caseless(sizes: Seq<nat>)
    ensures
        caseless_text(sizes_text(sizes)),
    decreases sizes.len(),
{
    if sizes.len() > 0 {
        lemma_sizes_caseless(sizes.drop_last());
        let n = sizes.last();
        if n == 0 {
            lemma_caseless_concat(sizes_text(sizes.drop_last()), seq!['[', ']']);
        } else {
            lemma_decimal_caseless(n);
            lemma_caseless_concat(seq!['['], decimal_text(n));
            lemma_caseless_concat(seq!['['] + decimal_text(n), seq![']']);
            lemma_caseless_concat(sizes_text(sizes.drop_last()), seq!['['] + decimal_text(n) + seq![']']);
        }
    }
}

/// The printed text of a type that reads back is ASCII without capitals.
proof fn lemma_type_caseless(t: ParamType)
    requires
        readable_type(t),
    ensures
        caseless_text(type_text(t)),
    decreases t,
{
    match t {
        ParamType::Int(n) => {
            lemma_decimal_caseless(n);
            lemma_caseless_concat(seq!['i', 'n', 't'], decimal_text(n));
        },
        ParamType::Uint(n) => {
            lemma_decimal_caseless(n);
            lemma_caseless_concat(seq!['u', 'i', 'n', 't'], decimal_text(n));
        },
        ParamType::FixedBytes(n) => {
            lemma_decimal_caseless(n);
            lemma_caseless_concat(seq!['b', 'y', 't', 'e', 's'], decimal_text(n));
        },
        ParamType::Array(b, sizes) => {
            lemma_type_caseless(*b);
            lemma_sizes_caseless(sizes);
            lemma_caseless_concat(type_text(*b), sizes_text(sizes));
        },
        _ => {},
    }
}

/// Reading back the printed text of a type gives the type: `convert_string_to_type` of
/// what `display` prints is the type again, for every type whose text reads back
/// (see [`readable_type`]).
pub proof fn lemma_read_printed_type(t: ParamType)
    requires
        readable_type(t),
    ensures
        param_type_of(type_text(t)) == Some(Ok::<ParamType, Seq<char>>(t)),
{
    lemma_type_caseless(t);
    lemma_caseless_lower(type_text(t));
    lemma_type_caseless(element_type(t));
    lemma_caseless_lower(type_text(element_type(t)));
    match t {
        ParamType::Array(b, sizes) => {
            let e = *b;
            lemma_plain_text_no_bracket(e);
            let te = type_text(e);
            let x = type_text(t);
            assert(x == te + sizes_text(sizes));
            lemma_split_sizes(te, sizes);
            let pieces = split_on(x, '[');
            assert(pieces[0] == te);
            lemma_remove_absent(te, ']');
            assert(clean_piece(te) == te);
            lemma_read_plain(te, e, (usize::MAX - 1) as nat);
            assert(pieces.drop_first() =~= sizes.map_values(|n: nat| size_piece(n)));
            lemma_sizes_read_back(sizes);
            assert(pieces.len() >= 2);
            assert(x.contains('[')) by {
                assert(pieces.len() > 1);
                if !x.contains('[') {
                    lemma_split_without(x, '[');
                }
            }
        },
        _ => {
            lemma_read_plain(type_text(t), t, usize::MAX as nat);
        },
    }
}


// ---------------------------------------------------------------------------
// The ABI
// ---------------------------------------------------------------------------

/// A generic function parameter
#[derive(Debug, Clone, PartialEq, Eq, PartialOrd, Ord)]
pub struct FunctionParam {
    /// The function parameter name
    pub name: String,
    /// The function parameter type
    pub kind: FunctionParamType,
    /// The internal type of the parameter
    pub internal_type: Option<String>,
}

/// Event parameters.
#[derive(Debug, Clone, PartialEq, Eq, PartialOrd, Ord)]
pub struct EventParam {
    /// The parameter name
    pub name: String,
    /// The parameter type
    pub kind: FunctionParamType,
    /// If the parameter is indexed
    pub indexed: bool,
}

/// A function definition.
#[derive(Debug, Clone, PartialEq, Eq, PartialOrd, Ord)]
pub struct Function {
    /// The function name
    pub name: String,
    /// The function inputs
    pub inputs: Vec<FunctionParam>,
    /// The function outputs
    pub outputs: Vec<FunctionParam>,
    /// Constant
    pub constant: bool,
    /// The state mutability
    pub state_mutability: FunctionType,
}

/// An Event definition.
#[derive(Debug, Clone, PartialEq, Eq, PartialOrd, Ord)]
pub struct Event {
    /// The event name
    pub name: String,
    /// The event inputs
    pub inputs: Vec<EventParam>,
    /// Anonymity
    pub anonymous: bool,
}

/// An Error definition.
#[derive(Debug, Clone, PartialEq, Eq, PartialOrd, Ord)]
pub struct Error {
    /// The error name
    pub name: String,
    /// The error inputs
    pub inputs: Vec<FunctionParam>,
}

/// The contract constructor
#[derive(Debug, Clone, PartialEq, Eq, PartialOrd, Ord)]
pub struct Constructor {
    /// Contstructor inputs
    pub inputs: Vec<FunctionParam>,
}

/// The ABI of the generated code.
#[derive(Debug, Clone, PartialEq, Eq)]
pub struct Abi {
    /// The constructor
    pub constructor: Option<Constructor>,
    /// A list of functions and their definitions, keyed by name
    pub functions: NameMap<Function>,
    /// A list of events and their definitions, keyed by name
    pub events: NameMap<Event>,
    /// A list of errors and their definitions, keyed by name
    pub errors: NameMap<Error>,
    /// If the contract defines receive logic
    pub receive: bool,
    /// If the contract defines fallback logic
    pub fallback: bool,
}

/// The name of an argument, empty when it has none.
pub open spec fn arg_name(a: Argument) -> Seq<char> {
    match a.name {
        Some(n) => n@,
        None => Seq::empty(),
    }
}

/// The written type of an argument, empty when it has none.
pub open spec fn arg_type_text(a: Argument) -> Seq<char> {
    match a.arg_type {
        Some(t) => t@,
        None => Seq::empty(),
    }
}

/// Whether a text reads as a parameter type without panicking or failing.
pub open spec fn type_text_ok(t: Seq<char>) -> bool {
    param_type_of(t) matches Some(Ok(_))
}

/// The parameter type a text reads as.
pub open spec fn type_read(t: Seq<char>) -> ParamType {
    param_type_of(t)->Some_0->Ok_0
}

/// `p` is the parameter made of the argument `a`, its type read from `type_text`.
pub open spec fn param_from(p: FunctionParam, a: Argument, type_text: Seq<char>) -> bool {
    &&& p.name@ == arg_name(a)
    &&& p.kind.model() == type_read(type_text)
    &&& p.internal_type is None
}

/// `ps` are the parameters made of the arguments `args`, each type read from the
/// argument's type (or, with `by_name`, from its name).
pub open spec fn params_from(ps: Seq<FunctionParam>, args: Seq<Argument>, by_name: bool) -> bool {
    &&& ps.len() == args.len()
    &&& forall|i: int|
        0 <= i < args.len() ==> param_from(
            #[trigger] ps[i],
            args[i],
            if by_name {
                arg_name(args[i])
            } else {
                arg_type_text(args[i])
            },
        )
}

/// Every argument's type (or, with `by_name`, its name) reads as a parameter type.
pub open spec fn args_ok(args: Seq<Argument>, by_name: bool) -> bool {
    forall|i: int|
        0 <= i < args.len() ==> type_text_ok(
            if by_name {
                arg_name(#[trigger] args[i])
            } else {
                arg_type_text(#[trigger] args[i])
            },
        )
}

/// `f` is the ABI function made of the definition `d`.
pub open spec fn function_from(f: Function, d: FunctionDefinition) -> bool {
    &&& f.name@ == d.name@
    &&& params_from(f.inputs@, d.inputs@, false)
    &&& params_from(f.outputs@, d.outputs@, false)
    &&& !f.constant
    &&& f.state_mutability == d.fn_type
}

/// `e` is the ABI event made of the definition `d`.
pub open spec fn event_from(e: Event, d: EventDefinition) -> bool {
    &&& e.name@ == d.name@
    &&& e.inputs@.len() == d.parameters@.len()
    &&& forall|i: int|
        0 <= i < d.parameters@.len() ==> {
            &&& (#[trigger] e.inputs@[i]).name@ == arg_name(d.parameters@[i])
            &&& e.inputs@[i].kind.model() == type_read(arg_type_text(d.parameters@[i]))
            &&& e.inputs@[i].indexed == d.parameters@[i].indexed
        }
    &&& !e.anonymous
}

/// `e` is the ABI error made of the definition `d`.
pub open spec fn error_from(e: Error, d: ErrorDefinition) -> bool {
    &&& e.name@ == d.name@
    &&& params_from(e.inputs@, d.parameters@, false)
}

/// `CONSTRUCTOR`
pub open spec fn constructor_name() -> Seq<char> {
    seq!['C', 'O', 'N', 'S', 'T', 'R', 'U', 'C', 'T', 'O', 'R']
}

/// `constructor`
pub open spec fn constructor_lower() -> Seq<char> {
    seq!['c', 'o', 'n', 's', 't', 'r', 'u', 'c', 't', 'o', 'r']
}

/// Index of the first function whose name lower-cases to `constructor`.
pub open spec fn first_constructor_fn(fs: Seq<FunctionDefinition>) -> Option<int>
    decreases fs.len(),
{
    if fs.len() == 0 {
        None
    } else {
        match first_constructor_fn(fs.drop_last()) {
            Some(i) => Some(i),
            None => if lower_text(fs.last().name@) == constructor_lower() {
                Some(fs.len() - 1)
            } else {
                None
            },
        }
    }
}

/// Index of the first macro named `CONSTRUCTOR`.
pub open spec fn first_constructor_macro(ms: Seq<MacroDefinition>) -> Option<int>
    decreases ms.len(),
{
    if ms.len() == 0 {
        None
    } else {
        match first_constructor_macro(ms.drop_last()) {
            Some(i) => Some(i),
            None => if ms.last().name@ == constructor_name() {
                Some(ms.len() - 1)
            } else {
                None
            },
        }
    }
}

/// Index of the last definition in `names` carrying `k`, or -1.
pub open spec fn last_named(names: Seq<Seq<char>>, k: Seq<char>) -> int
    decreases names.len(),
{
    if names.len() == 0 {
        -1
    } else if names.last() == k {
        names.len() - 1
    } else {
        last_named(names.drop_last(), k)
    }
}

/// The names of the functions that go into the ABI's function map (all but those named
/// exactly `CONSTRUCTOR`), in order, with `CONSTRUCTOR` standing for the others.
pub open spec fn function_keys(fs: Seq<FunctionDefinition>) -> Seq<Seq<char>> {
    fs.map_values(|f: FunctionDefinition| f.name@)
}

/// When `Abi::from_contract` accepts a contract: every type that it reads is a
/// parameter type (reading the ABI panics otherwise).
pub open spec fn contract_abi_ok(c: Contract) -> bool {
    &&& (match first_constructor_fn(c.functions@) {
        Some(i) => args_ok(c.functions@[i].inputs@, false),
        None => match first_constructor_macro(c.macros@) {
            Some(j) => args_ok(c.macros@[j].parameters@, true),
            None => true,
        },
    })
    &&& forall|i: int|
        0 <= i < c.functions@.len() && (#[trigger] c.functions@[i]).name@ != constructor_name()
            ==> args_ok(c.functions@[i].inputs@, false) && args_ok(c.functions@[i].outputs@, false)
    &&& forall|i: int| 0 <= i < c.events@.len() ==> args_ok((#[trigger] c.events@[i]).parameters@, false)
    &&& forall|i: int| 0 <= i < c.errors@.len() ==> args_ok((#[trigger] c.errors@[i]).parameters@, false)
}

/// `m` holds, under each name, the item made of the last definition with that name
/// among `names` (skipping positions where `skip` holds), and nothing else.
pub open spec fn keyed_by_last<V>(
    m: Map<Seq<char>, V>,
    names: Seq<Seq<char>>,
    skip: spec_fn(int) -> bool,
    made_of: spec_fn(V, int) -> bool,
) -> bool {
    &&& forall|k: Seq<char>|
        #[trigger] m.contains_key(k) <==> exists|i: int|
            0 <= i < names.len() && !skip(i) && names[i] == k
    &&& forall|k: Seq<char>|
        #[trigger] m.contains_key(k) ==> {
            let i = last_kept(names, skip, k);
            0 <= i < names.len() && made_of(m[k], i)
        }
}

/// Index of the last position carrying `k` where `skip` does not hold, or -1.
pub open spec fn last_kept(names: Seq<Seq<char>>, skip: spec_fn(int) -> bool, k: Seq<char>) -> int
    decreases names.len(),
{
    if names.len() == 0 {
        -1
    } else if names.last() == k && !skip(names.len() - 1) {
        names.len() - 1
    } else {
        last_kept(names.drop_last(), skip, k)
    }
}


/// The last position carrying `k` where `skip` does not hold: no later kept position
/// carries `k`, and -1 where there is none.
proof fn lemma_last_kept(names: Seq<Seq<char>>, skip: spec_fn(int) -> bool, k: Seq<char>)
    ensures
        last_kept(names, skip, k) == -1 || (0 <= last_kept(names, skip, k) < names.len()
            && names[last_kept(names, skip, k)] == k && !skip(last_kept(names, skip, k))),
        forall|j: int|
            last_kept(names, skip, k) < j < names.len() && !skip(j) ==> #[trigger] names[j] != k,
    decreases names.len(),
{
    if names.len() > 0 {
        let p = names.drop_last();
        lemma_last_kept(p, skip, k);
        if !(names.last() == k && !skip(names.len() - 1)) {
            assert forall|j: int|
                last_kept(names, skip, k) < j < names.len() && !skip(j) implies #[trigger] names[j]
                != k by {
                if j < names.len() - 1 {
                    assert(p[j] == names[j]);
                }
            }
        }
    }
}

/// The item kept under a name is made of the definition at the last kept position that
/// carries the name.
proof fn lemma_keyed_entry<V>(
    m: Map<Seq<char>, V>,
    names: Seq<Seq<char>>,
    skip: spec_fn(int) -> bool,
    made_of: spec_fn(V, int) -> bool,
    k: Seq<char>,
) -> (i: int)
    requires
        keyed_by_last(m, names, skip, made_of),
        m.contains_key(k),
    ensures
        0 <= i < names.len(),
        names[i] == k,
        !skip(i),
        made_of(m[k], i),
        forall|j: int| i < j < names.len() && !skip(j) ==> #[trigger] names[j] != k,
{
    lemma_last_kept(names, skip, k);
    last_kept(names, skip, k)
}

/// Each event in a contract's ABI is made of the last event definition of its name: it has
/// that name, is not anonymous, has as many parameters as the definition, and each of its
/// parameters is `indexed` exactly when the definition's parameter at the same position is.
pub proof fn lemma_abi_event_from_last_definition(contract: Contract, abi: Abi, k: Seq<char>)
    requires
        abi_made_from(contract, abi),
        abi.events.view().contains_key(k),
    ensures
        exists|i: int|
            {
                &&& 0 <= i < contract.events@.len()
                &&& (#[trigger] contract.events@[i]).name@ == k
                &&& forall|j: int| i < j < contract.events@.len() ==> contract.events@[j].name@ != k
                &&& abi.events.view()[k].name@ == k
                &&& !abi.events.view()[k].anonymous
                &&& abi.events.view()[k].inputs@.len() == contract.events@[i].parameters@.len()
                &&& forall|p: int|
                    0 <= p < contract.events@[i].parameters@.len()
                        ==> (#[trigger] abi.events.view()[k].inputs@[p]).indexed
                        == contract.events@[i].parameters@[p].indexed
            },
{
    let names = contract.events@.map_values(|e: EventDefinition| e.name@);
    let i = lemma_keyed_entry(
        abi.events.view(),
        names,
        |i: int| false,
        |e: Event, i: int| event_from(e, contract.events@[i]),
        k,
    );
    assert forall|j: int| i < j < contract.events@.len() implies contract.events@[j].name@ != k by {
        assert(names[j] == contract.events@[j].name@);
    }
    assert(contract.events@[i].name@ == k);
}

proof fn lemma_keyed_empty<V>(
    m: Map<Seq<char>, V>,
    names: Seq<Seq<char>>,
    skip: spec_fn(int) -> bool,
    made_of: spec_fn(V, int) -> bool,
)
    requires
        m == Map::<Seq<char>, V>::empty(),
    ensures
        keyed_by_last(m, names.take(0), skip, made_of),
{
}

proof fn lemma_keyed_step<V>(
    m: Map<Seq<char>, V>,
    names: Seq<Seq<char>>,
    skip: spec_fn(int) -> bool,
    made_of: spec_fn(V, int) -> bool,
    i: int,
    v: V,
)
    requires
        0 <= i < names.len(),
        keyed_by_last(m, names.take(i), skip, made_of),
        !skip(i) ==> made_of(v, i),
    ensures
        keyed_by_last(
            if skip(i) {
                m
            } else {
                m.insert(names[i], v)
            },
            names.take(i + 1),
            skip,
            made_of,
        ),
{
    let t = names.take(i + 1);
    let p = names.take(i);
    assert(t.drop_last() =~= p);
    let m2 = if skip(i) { m } else { m.insert(names[i], v) };
    assert forall|k: Seq<char>| #[trigger] m2.contains_key(k) <==> exists|j: int|
        0 <= j < t.len() && !skip(j) && t[j] == k by {
        if m2.contains_key(k) {
            if !skip(i) && k == names[i] {
                assert(t[i] == k);
            } else {
                let j = choose|j: int| 0 <= j < p.len() && !skip(j) && p[j] == k;
                assert(t[j] == k);
            }
        }
        if exists|j: int| 0 <= j < t.len() && !skip(j) && t[j] == k {
            let j = choose|j: int| 0 <= j < t.len() && !skip(j) && t[j] == k;
            if j < i {
                assert(p[j] == k);
            }
        }
    }
    assert forall|k: Seq<char>| #[trigger] m2.contains_key(k) implies {
        let j = last_kept(t, skip, k);
        0 <= j < t.len() && made_of(m2[k], j)
    } by {
        if !skip(i) && k == names[i] {
            assert(last_kept(t, skip, k) == i);
        } else {
            assert(last_kept(t, skip, k) == last_kept(p, skip, k));
        }
    }
}

fn param_from_text(a: &Argument, text: &String) -> (p: FunctionParam)
    requires
        type_text_ok(text@),
    ensures
        param_from(p, *a, text@),
{
    let name = match &a.name {
        Some(n) => n.clone(),
        None => String::new(),
    };
    let kind = match FunctionParamType::convert_string_to_type(text.as_str()) {
        Ok(t) => t,
        Err(_) => {
            assert(false);
            FunctionParamType::Bool
        },
    };
    FunctionParam { name, kind, internal_type: None }
}

fn arg_text(a: &Argument, by_name: bool) -> (t: String)
    ensures
        t@ == (if by_name {
            arg_name(*a)
        } else {
            arg_type_text(*a)
        }),
{
    let field = if by_name {
        &a.name
    } else {
        &a.arg_type
    };
    match field {
        Some(n) => n.clone(),
        None => String::new(),
    }
}

fn params_of(args: &Vec<Argument>, by_name: bool) -> (ps: Vec<FunctionParam>)
    requires
        args_ok(args@, by_name),
    ensures
        params_from(ps@, args@, by_name),
{
    let mut ps: Vec<FunctionParam> = Vec::new();
    let mut i: usize = 0;
    while i < args.len()
        invariant
            args_ok(args@, by_name),
            i <= args@.len(),
            ps@.len() == i,
            forall|j: int|
                0 <= j < i ==> param_from(
                    #[trigger] ps@[j],
                    args@[j],
                    if by_name {
                        arg_name(args@[j])
                    } else {
                        arg_type_text(args@[j])
                    },
                ),
        decreases args.len() - i,
    {
        let text = arg_text(&args[i], by_name);
        assert(type_text_ok(
            if by_name {
                arg_name(args@[i as int])
            } else {
                arg_type_text(args@[i as int])
            },
        ));
        let p = param_from_text(&args[i], &text);
        ps.push(p);
        i = i + 1;
    }
    ps
}

fn function_of(d: &FunctionDefinition) -> (f: Function)
    requires
        args_ok(d.inputs@, false),
        args_ok(d.outputs@, false),
    ensures
        function_from(f, *d),
{
    Function {
        name: d.name.clone(),
        inputs: params_of(&d.inputs, false),
        outputs: params_of(&d.outputs, false),
        constant: false,
        state_mutability: d.fn_type,
    }
}

fn event_of(d: &EventDefinition) -> (e: Event)
    requires
        args_ok(d.parameters@, false),
    ensures
        event_from(e, *d),
{
    let mut inputs: Vec<EventParam> = Vec::new();
    let mut i: usize = 0;
    while i < d.parameters.len()
        invariant
            args_ok(d.parameters@, false),
            i <= d.parameters@.len(),
            inputs@.len() == i,
            forall|j: int|
                0 <= j < i ==> {
                    &&& (#[trigger] inputs@[j]).name@ == arg_name(d.parameters@[j])
                    &&& inputs@[j].kind.model() == type_read(arg_type_text(d.parameters@[j]))
                    &&& inputs@[j].indexed == d.parameters@[j].indexed
                },
        decreases d.parameters.len() - i,
    {
        let a = &d.parameters[i];
        let text = arg_text(a, false);
        assert(type_text_ok(arg_type_text(d.parameters@[i as int])));
        let p = param_from_text(a, &text);
        inputs.push(EventParam { name: p.name, kind: p.kind, indexed: a.indexed });
        i = i + 1;
    }
    Event { name: d.name.clone(), inputs, anonymous: false }
}

fn error_of(d: &ErrorDefinition) -> (e: Error)
    requires
        args_ok(d.parameters@, false),
    ensures
        error_from(e, *d),
{
    Error { name: d.name.clone(), inputs: params_of(&d.parameters, false) }
}

fn is_constructor_name(name: &String) -> (r: bool)
    ensures
        r == (name@ == constructor_name()),
{
    chars_eq(&chars_of(name.as_str()), &['C', 'O', 'N', 'S', 'T', 'R', 'U', 'C', 'T', 'O', 'R'])
}

fn lowers_to_constructor(name: &String) -> (r: bool)
    ensures
        r == (lower_text(name@) == constructor_lower()),
{
    let l = to_lowercase(name.as_str());
    chars_eq(&chars_of(l.as_str()), &['c', 'o', 'n', 's', 't', 'r', 'u', 'c', 't', 'o', 'r'])
}

/// `abi` is the ABI generated from the contract: its constructor made of the first function
/// whose name lower-cases to `constructor` (else of the parameters of the first macro named
/// `CONSTRUCTOR`), and its functions (but those named `CONSTRUCTOR`), events and errors each
/// under its name, made of the last definition with that name.
pub open spec fn abi_made_from(contract: Contract, abi: Abi) -> bool {
    &&& (match first_constructor_fn(contract.functions@) {
            Some(i) => abi.constructor matches Some(c) && params_from(
                c.inputs@,
                contract.functions@[i].inputs@,
                false,
            ),
            None => match first_constructor_macro(contract.macros@) {
                Some(j) => abi.constructor matches Some(c) && params_from(
                    c.inputs@,
                    contract.macros@[j].parameters@,
                    true,
                ),
                None => abi.constructor is None,
            },
        })
    &&& (abi.functions.wf())
    &&& (keyed_by_last(
            abi.functions.view(),
            function_keys(contract.functions@),
            |i: int| contract.functions@[i].name@ == constructor_name(),
            |f: Function, i: int| function_from(f, contract.functions@[i]),
        ))
    &&& (abi.events.wf())
    &&& (keyed_by_last(
            abi.events.view(),
            contract.events@.map_values(|e: EventDefinition| e.name@),
            |i: int| false,
            |e: Event, i: int| event_from(e, contract.events@[i]),
        ))
    &&& (abi.errors.wf())
    &&& (keyed_by_last(
            abi.errors.view(),
            contract.errors@.map_values(|e: ErrorDefinition| e.name@),
            |i: int| false,
            |e: Error, i: int| error_from(e, contract.errors@[i]),
        ))
    &&& (!abi.receive)
    &&& (!abi.fallback)
}

impl Abi {
    /// Public associated function to instatiate a new Abi.
    pub fn new() -> (a: Self)
        ensures
            a.constructor is None,
            a.functions.wf() && a.functions.view() == Map::<Seq<char>, Function>::empty(),
            a.events.wf() && a.events.view() == Map::<Seq<char>, Event>::empty(),
            a.errors.wf() && a.errors.view() == Map::<Seq<char>, Error>::empty(),
            !a.receive,
            !a.fallback,
    {
        Abi {
            constructor: None,
            functions: NameMap::new(),
            events: NameMap::new(),
            errors: NameMap::new(),
            receive: false,
            fallback: false,
        }
    }

    /// Generates the ABI of a contract by translating its AST.
    ///
    /// The constructor's inputs come from the first function whose name lower-cases to
    /// `constructor`, or else from the parameters of the first macro named `CONSTRUCTOR`
    /// (whose types are read from the parameter names). Every function but those named
    /// `CONSTRUCTOR`, every event and every error goes in under its name; a later
    /// definition with the same name replaces an earlier one.
    ///
    /// A contract where an argument type does not read as a parameter type is not accepted
    /// (reading its ABI panics); `try_from_contract` reports it.
    pub fn from_contract(contract: &Contract) -> (abi: Self)
        requires
            contract_abi_ok(*contract),
        ensures
            abi_made_from(*contract, abi),
    {
        let constructor = Self::constructor_of(contract);

        let ghost fnames = function_keys(contract.functions@);
        let ghost fskip = |i: int| contract.functions@[i].name@ == constructor_name();
        let ghost fmade = |f: Function, i: int| function_from(f, contract.functions@[i]);
        let mut functions: NameMap<Function> = NameMap::new();
        proof {
            lemma_keyed_empty(functions.view(), fnames, fskip, fmade);
        }
        let mut i: usize = 0;
        while i < contract.functions.len()
            invariant
                contract_abi_ok(*contract),
                fnames == function_keys(contract.functions@),
                fskip == (|i: int| contract.functions@[i].name@ == constructor_name()),
                fmade == (|f: Function, i: int| function_from(f, contract.functions@[i])),
                i <= contract.functions@.len(),
                functions.wf(),
                keyed_by_last(functions.view(), fnames.take(i as int), fskip, fmade),
            decreases contract.functions.len() - i,
        {
            let d = &contract.functions[i];
            let ghost before = functions.view();
            if !is_constructor_name(&d.name) {
                assert(args_ok(d.inputs@, false) && args_ok(d.outputs@, false));
                let f = function_of(d);
                proof {
                    lemma_keyed_step(before, fnames, fskip, fmade, i as int, f);
                }
                functions.insert(d.name.clone(), f);
            } else {
                proof {
                    lemma_keyed_step(before, fnames, fskip, fmade, i as int, arbitrary());
                }
            }
            i = i + 1;
        }
        assert(fnames.take(contract.functions@.len() as int) =~= fnames);

        let ghost enames = contract.events@.map_values(|e: EventDefinition| e.name@);
        let ghost eskip = |i: int| false;
        let ghost emade = |e: Event, i: int| event_from(e, contract.events@[i]);
        let mut events: NameMap<Event> = NameMap::new();
        proof {
            lemma_keyed_empty(events.view(), enames, eskip, emade);
        }
        let mut i: usize = 0;
        while i < contract.events.len()
            invariant
                contract_abi_ok(*contract),
                enames == contract.events@.map_values(|e: EventDefinition| e.name@),
                eskip == (|i: int| false),
                emade == (|e: Event, i: int| event_from(e, contract.events@[i])),
                i <= contract.events@.len(),
                events.wf(),
                keyed_by_last(events.view(), enames.take(i as int), eskip, emade),
            decreases contract.events.len() - i,
        {
            let d = &contract.events[i];
            let ghost before = events.view();
            assert(args_ok(d.parameters@, false));
            let e = event_of(d);
            proof {
                lemma_keyed_step(before, enames, eskip, emade, i as int, e);
            }
            events.insert(d.name.clone(), e);
            i = i + 1;
        }
        assert(enames.take(contract.events@.len() as int) =~= enames);

        let ghost rnames = contract.errors@.map_values(|e: ErrorDefinition| e.name@);
        let ghost rskip = |i: int| false;
        let ghost rmade = |e: Error, i: int| error_from(e, contract.errors@[i]);
        let mut errors: NameMap<Error> = NameMap::new();
        proof {
            lemma_keyed_empty(errors.view(), rnames, rskip, rmade);
        }
        let mut i: usize = 0;
        while i < contract.errors.len()
            invariant
                contract_abi_ok(*contract),
                rnames == contract.errors@.map_values(|e: ErrorDefinition| e.name@),
                rskip == (|i: int| false),
                rmade == (|e: Error, i: int| error_from(e, contract.errors@[i])),
                i <= contract.errors@.len(),
                errors.wf(),
                keyed_by_last(errors.view(), rnames.take(i as int), rskip, rmade),
            decreases contract.errors.len() - i,
        {
            let d = &contract.errors[i];
            let ghost before = errors.view();
            assert(args_ok(d.parameters@, false));
            let e = error_of(d);
            proof {
                lemma_keyed_step(before, rnames, rskip, rmade, i as int, e);
            }
            errors.insert(d.name.clone(), e);
            i = i + 1;
        }
        assert(rnames.take(contract.errors@.len() as int) =~= rnames);

        Abi { constructor, functions, events, errors, receive: false, fallback: false }
    }

    fn constructor_of(contract: &Contract) -> (c: Option<Constructor>)
        requires
            contract_abi_ok(*contract),
        ensures
            match first_constructor_fn(contract.functions@) {
                Some(i) => c matches Some(c) && params_from(
                    c.inputs@,
                    contract.functions@[i].inputs@,
                    false,
                ),
                None => match first_constructor_macro(contract.macros@) {
                    Some(j) => c matches Some(c) && params_from(
                        c.inputs@,
                        contract.macros@[j].parameters@,
                        true,
                    ),
                    None => c is None,
                },
            },
    {
        let mut i: usize = 0;
        while i < contract.functions.len()
            invariant
                contract_abi_ok(*contract),
                i <= contract.functions@.len(),
                first_constructor_fn(contract.functions@.take(i as int)) is None,
            decreases contract.functions.len() - i,
        {
            proof {
                let t = contract.functions@.take(i + 1);
                assert(t.drop_last() =~= contract.functions@.take(i as int));
            }
            if lowers_to_constructor(&contract.functions[i].name) {
                proof {
                    lemma_first_fn_prefix(contract.functions@, i + 1);
                }
                return Some(Constructor { inputs: params_of(&contract.functions[i].inputs, false) });
            }
            i = i + 1;
        }
        assert(contract.functions@.take(i as int) =~= contract.functions@);
        let mut j: usize = 0;
        while j < contract.macros.len()
            invariant
                contract_abi_ok(*contract),
                first_constructor_fn(contract.functions@) is None,
                j <= contract.macros@.len(),
                first_constructor_macro(contract.macros@.take(j as int)) is None,
            decreases contract.macros.len() - j,
        {
            proof {
                let t = contract.macros@.take(j + 1);
                assert(t.drop_last() =~= contract.macros@.take(j as int));
            }
            if is_constructor_name(&contract.macros[j].name) {
                proof {
                    lemma_first_macro_prefix(contract.macros@, j + 1);
                }
                return Some(Constructor { inputs: params_of(&contract.macros[j].parameters, true) });
            }
            j = j + 1;
        }
        assert(contract.macros@.take(j as int) =~= contract.macros@);
        None
    }
}

/// Whether every argument's type text (or, with `by_name`, its name) reads as a parameter
/// type.
fn args_readable(args: &Vec<Argument>, by_name: bool) -> (r: bool)
    ensures
        r == args_ok(args@, by_name),
{
    let mut i: usize = 0;
    while i < args.len()
        invariant
            i <= args@.len(),
            forall|j: int|
                0 <= j < i ==> type_text_ok(
                    if by_name {
                        arg_name(#[trigger] args@[j])
                    } else {
                        arg_type_text(#[trigger] args@[j])
                    },
                ),
        decreases args.len() - i,
    {
        let text = arg_text(&args[i], by_name);
        match FunctionParamType::try_convert_string_to_type(text.as_str()) {
            Some(Ok(_)) => {},
            _ => {
                return false;
            },
        }
        i = i + 1;
    }
    true
}

/// Whether `Abi::from_contract` accepts the contract.
fn contract_readable(contract: &Contract) -> (r: bool)
    ensures
        r == contract_abi_ok(*contract),
{
    let mut constructor_ok = true;
    let mut found = false;
    let mut i: usize = 0;
    while i < contract.functions.len()
        invariant
            i <= contract.functions@.len(),
            !found ==> first_constructor_fn(contract.functions@.take(i as int)) is None,
            !found ==> constructor_ok,
            found ==> (first_constructor_fn(contract.functions@) matches Some(k) && constructor_ok
                == args_ok(contract.functions@[k].inputs@, false)),
        decreases contract.functions.len() - i,
    {
        proof {
            let t = contract.functions@.take(i + 1);
            assert(t.drop_last() =~= contract.functions@.take(i as int));
        }
        if !found && lowers_to_constructor(&contract.functions[i].name) {
            proof {
                lemma_first_fn_prefix(contract.functions@, i + 1);
            }
            constructor_ok = args_readable(&contract.functions[i].inputs, false);
            found = true;
        }
        i = i + 1;
    }
    if !found {
        assert(contract.functions@.take(i as int) =~= contract.functions@);
        let mut j: usize = 0;
        while j < contract.macros.len()
            invariant
                first_constructor_fn(contract.functions@) is None,
                j <= contract.macros@.len(),
                !found ==> first_constructor_macro(contract.macros@.take(j as int)) is None,
                !found ==> constructor_ok,
                found ==> (first_constructor_macro(contract.macros@) matches Some(k) && constructor_ok
                    == args_ok(contract.macros@[k].parameters@, true)),
            decreases contract.macros.len() - j,
        {
            proof {
                let t = contract.macros@.take(j + 1);
                assert(t.drop_last() =~= contract.macros@.take(j as int));
            }
            if !found && is_constructor_name(&contract.macros[j].name) {
                proof {
                    lemma_first_macro_prefix(contract.macros@, j + 1);
                }
                constructor_ok = args_readable(&contract.macros[j].parameters, true);
                found = true;
            }
            j = j + 1;
        }
        if !found {
            assert(contract.macros@.take(j as int) =~= contract.macros@);
        }
    }
    if !constructor_ok {
        return false;
    }
    let mut i: usize = 0;
    while i < contract.functions.len()
        invariant
            i <= contract.functions@.len(),
            forall|j: int|
                0 <= j < i && (#[trigger] contract.functions@[j]).name@ != constructor_name() ==> args_ok(
                    contract.functions@[j].inputs@,
                    false,
                ) && args_ok(contract.functions@[j].outputs@, false),
        decreases contract.functions.len() - i,
    {
        if !is_constructor_name(&contract.functions[i].name) {
            if !args_readable(&contract.functions[i].inputs, false) || !args_readable(
                &contract.functions[i].outputs,
                false,
            ) {
                return false;
            }
        }
        i = i + 1;
    }
    let mut i: usize = 0;
    while i < contract.events.len()
        invariant
            i <= contract.events@.len(),
            forall|j: int| 0 <= j < i ==> args_ok((#[trigger] contract.events@[j]).parameters@, false),
        decreases contract.events.len() - i,
    {
        if !args_readable(&contract.events[i].parameters, false) {
            return false;
        }
        i = i + 1;
    }
    let mut i: usize = 0;
    while i < contract.errors.len()
        invariant
            i <= contract.errors@.len(),
            forall|j: int| 0 <= j < i ==> args_ok((#[trigger] contract.errors@[j]).parameters@, false),
        decreases contract.errors.len() - i,
    {
        if !args_readable(&contract.errors[i].parameters, false) {
            return false;
        }
        i = i + 1;
    }
    true
}

impl Abi {
    /// Generates the ABI of a contract as `from_contract` does, where that does not panic (an
    /// argument type that does not read as a parameter type); `None` where it does.
    pub fn try_from_contract(contract: &Contract) -> (r: Option<Self>)
        ensures
            r is Some <==> contract_abi_ok(*contract),
            r matches Some(abi) ==> abi_made_from(*contract, abi),
    {
        if contract_readable(contract) {
            Some(Abi::from_contract(contract))
        } else {
            None
        }
    }
}

impl Default for Abi {
    fn default() -> (a: Self)
        ensures
            a.constructor is None,
            a.functions.wf() && a.functions.view() == Map::<Seq<char>, Function>::empty(),
            a.events.wf() && a.events.view() == Map::<Seq<char>, Event>::empty(),
            a.errors.wf() && a.errors.view() == Map::<Seq<char>, Error>::empty(),
            !a.receive,
            !a.fallback,
    {
        Abi::new()
    }
}

proof fn lemma_first_fn_prefix(fs: Seq<FunctionDefinition>, n: int)
    requires
        0 <= n <= fs.len(),
        first_constructor_fn(fs.take(n)) is Some,
    ensures
        first_constructor_fn(fs) == first_constructor_fn(fs.take(n)),
    decreases fs.len() - n,
{
    if n < fs.len() {
        let t = fs.take(n + 1);
        assert(t.drop_last() =~= fs.take(n));
        lemma_first_fn_prefix(fs, n + 1);
    } else {
        assert(fs.take(n) =~= fs);
    }
}

proof fn lemma_first_macro_prefix(ms: Seq<MacroDefinition>, n: int)
    requires
        0 <= n <= ms.len(),
        first_constructor_macro(ms.take(n)) is Some,
    ensures
        first_constructor_macro(ms) == first_constructor_macro(ms.take(n)),
    decreases ms.len() - n,
{
    if n < ms.len() {
        let t = ms.take(n + 1);
        assert(t.drop_last() =~= ms.take(n));
        lemma_first_macro_prefix(ms, n + 1);
    } else {
        assert(ms.take(n) =~= ms);
    }
}

} // verus!

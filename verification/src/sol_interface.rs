//! Solidity interface generation from ABIs.

use std::sync::Arc;
use vstd::prelude::*;

use crate::abi::{split_on, type_text, split_chars, lemma_split_nonempty, Abi, Error, Event, EventParam, Function, FunctionParam};
use crate::artifact::Artifact;
use crate::ast::FunctionType;
use crate::token::TokenKind;
use crate::files::{parent_dir, path_parent};
use crate::text::{chars_of, string_of, push_chars, push_vec, opt_text};

verus! {

/// The parts joined by `sep`.
pub open spec fn join(parts: Seq<Seq<char>>, sep: Seq<char>) -> Seq<char>
    decreases parts.len(),
{
    if parts.len() == 0 {
        Seq::empty()
    } else if parts.len() == 1 {
        parts[0]
    } else {
        join(parts.drop_last(), sep) + sep + parts.last()
    }
}

/// ` memory` for types passed in memory, nothing otherwise.
pub open spec fn memory_suffix(p: FunctionParam) -> Seq<char> {
    let t = p.kind.model();
    if t is Bytes || t is Str || t is Tuple || t is Array {
        seq![' ', 'm', 'e', 'm', 'o', 'r', 'y']
    } else {
        Seq::empty()
    }
}

/// A parameter as written in an error or function declaration.
pub open spec fn param_decl(p: FunctionParam) -> Seq<char> {
    type_text(p.kind.model()) + memory_suffix(p)
}

/// An event parameter as written in an event declaration.
pub open spec fn event_param_decl(p: EventParam) -> Seq<char> {
    type_text(p.kind.model()) + if p.indexed {
        seq![' ', 'i', 'n', 'd', 'e', 'x', 'e', 'd']
    } else {
        Seq::empty()
    }
}

/// `, `
pub open spec fn comma() -> Seq<char> {
    seq![',', ' ']
}

/// `\tevent NAME(params);`
pub open spec fn event_line(e: Event) -> Seq<char> {
    seq!['\t', 'e', 'v', 'e', 'n', 't', ' '] + e.name@ + seq!['('] + join(
        e.inputs@.map_values(|p: EventParam| event_param_decl(p)),
        comma(),
    ) + seq![')', ';']
}

/// `\terror NAME(params);`
pub open spec fn error_line(e: Error) -> Seq<char> {
    seq!['\t', 'e', 'r', 'r', 'o', 'r', ' '] + e.name@ + seq!['('] + join(
        e.inputs@.map_values(|p: FunctionParam| param_decl(p)),
        comma(),
    ) + seq![')', ';']
}

/// `\tfunction NAME(params) external[ view| pure][ returns (outputs)];`
pub open spec fn function_line(f: Function) -> Seq<char> {
    seq!['\t', 'f', 'u', 'n', 'c', 't', 'i', 'o', 'n', ' '] + f.name@ + seq!['('] + join(
        f.inputs@.map_values(|p: FunctionParam| param_decl(p)),
        comma(),
    ) + seq![')', ' ', 'e', 'x', 't', 'e', 'r', 'n', 'a', 'l']
        + f.state_mutability.mutability_text() + (if f.outputs@.len() == 0 {
        Seq::empty()
    } else {
        seq![' ', 'r', 'e', 't', 'u', 'r', 'n', 's', ' ', '('] + join(
            f.outputs@.map_values(|p: FunctionParam| param_decl(p)),
            comma(),
        ) + seq![')']
    }) + seq![';']
}

/// In a function's interface line, `external` is followed by the function's mutability
/// where that is `view` or `pure` (after a space, spelled as the Huff keyword of that
/// mutability), and by nothing where it is payable or nonpayable; after it come only the
/// `returns (...)` clause, where the function has outputs, and the closing `;`.
pub proof fn lemma_function_line_mutability(f: Function)
    ensures
        exists|head: Seq<char>, tail: Seq<char>|
            {
                &&& function_line(f) == head + seq![' ', 'e', 'x', 't', 'e', 'r', 'n', 'a', 'l'] + (
                match f.state_mutability {
                    FunctionType::View => seq![' '] + TokenKind::View.text(),
                    FunctionType::Pure => seq![' '] + TokenKind::Pure.text(),
                    _ => Seq::<char>::empty(),
                }) + tail
                &&& (f.outputs@.len() == 0 ==> tail == seq![';'])
                &&& (f.outputs@.len() > 0 ==> tail.len() > 10 && tail.take(10) == seq![
                    ' ',
                    'r',
                    'e',
                    't',
                    'u',
                    'r',
                    'n',
                    's',
                    ' ',
                    '(',
                ] && tail.last() == ';')
            },
{
    let head = seq!['\t', 'f', 'u', 'n', 'c', 't', 'i', 'o', 'n', ' '] + f.name@ + seq!['('] + join(
        f.inputs@.map_values(|p: FunctionParam| param_decl(p)),
        comma(),
    ) + seq![')'];
    let outs = if f.outputs@.len() == 0 {
        Seq::empty()
    } else {
        seq![' ', 'r', 'e', 't', 'u', 'r', 'n', 's', ' ', '('] + join(
            f.outputs@.map_values(|p: FunctionParam| param_decl(p)),
            comma(),
        ) + seq![')']
    };
    let tail = outs + seq![';'];
    let kw = match f.state_mutability {
        FunctionType::View => seq![' '] + TokenKind::View.text(),
        FunctionType::Pure => seq![' '] + TokenKind::Pure.text(),
        _ => Seq::<char>::empty(),
    };
    assert(f.state_mutability.mutability_text() =~= kw);
    assert(function_line(f) =~= head + seq![' ', 'e', 'x', 't', 'e', 'r', 'n', 'a', 'l'] + kw + tail);
    assert(tail.last() == ';');
    if f.outputs@.len() > 0 {
        assert(tail.take(10) =~= seq![' ', 'r', 'e', 't', 'u', 'r', 'n', 's', ' ', '(']);
    } else {
        assert(tail =~= seq![';']);
    }
    assert(function_line(f) == head + seq![' ', 'e', 'x', 't', 'e', 'r', 'n', 'a', 'l'] + (
    match f.state_mutability {
        FunctionType::View => seq![' '] + TokenKind::View.text(),
        FunctionType::Pure => seq![' '] + TokenKind::Pure.text(),
        _ => Seq::<char>::empty(),
    }) + tail);
}

/// The declarations of an interface: the events, then the errors, then the functions,
/// each in increasing order of name.
pub open spec fn interface_defs(a: Abi) -> Seq<Seq<char>> {
    a.events.entry_seq().map_values(|e: (Seq<char>, Event)| event_line(e.1))
        + a.errors.entry_seq().map_values(|e: (Seq<char>, Error)| error_line(e.1))
        + a.functions.entry_seq().map_values(|e: (Seq<char>, Function)| function_line(e.1))
}

/// `interface NAME {\n<declarations, one per line>\n}`
pub open spec fn interface_text(name: Seq<char>, a: Abi) -> Seq<char> {
    seq!['i', 'n', 't', 'e', 'r', 'f', 'a', 'c', 'e', ' '] + name + seq![' ', '{', '\n'] + join(
        interface_defs(a),
        seq!['\n'],
    ) + seq!['\n', '}']
}

/// `I` and the file name of `path` up to its first `.`: `./src/Token.huff` gives `IToken`.
pub open spec fn default_interface_name(path: Seq<char>) -> Seq<char> {
    seq!['I'] + split_on(split_on(path, '/').last(), '.')[0]
}

/// The generated interfaces of the artifacts that have an ABI, in order: the directory of
/// the artifact's file, the interface name and the interface text.
pub open spec fn interfaces_of(artifacts: Seq<Arc<Artifact>>, interface: Option<Seq<char>>) -> Seq<
    (Seq<char>, Seq<char>, Seq<char>),
>
    decreases artifacts.len(),
{
    if artifacts.len() == 0 {
        Seq::empty()
    } else {
        let rest = interfaces_of(artifacts.drop_last(), interface);
        let a = artifacts.last();
        match a.abi {
            Some(abi) => {
                let name = match interface {
                    Some(n) => n,
                    None => default_interface_name(a.file.path@),
                };
                rest.push((path_parent(a.file.path@)->0, name, interface_text(name, abi)))
            },
            None => rest,
        }
    }
}

/// `gen_sol_interfaces` does not panic: every artifact with an ABI has a file path with a
/// parent directory.
pub open spec fn interfaces_ok(artifacts: Seq<Arc<Artifact>>) -> bool {
    forall|i: int|
        0 <= i < artifacts.len() && (#[trigger] artifacts[i]).abi is Some ==> path_parent(
            artifacts[i].file.path@,
        ) is Some
}


/// Appends the parts joined by `sep`.
fn push_joined(out: &mut Vec<char>, parts: &Vec<Vec<char>>, sep: &[char])
    ensures
        final(out)@ == old(out)@ + join(parts@.map_values(|v: Vec<char>| v@), sep@),
{
    let ghost ps = parts@.map_values(|v: Vec<char>| v@);
    let mut i: usize = 0;
    while i < parts.len()
        invariant
            ps == parts@.map_values(|v: Vec<char>| v@),
            i <= parts@.len(),
            out@ == old(out)@ + join(ps.take(i as int), sep@),
        decreases parts.len() - i,
    {
        if i > 0 {
            push_chars(out, sep);
        }
        push_vec(out, &parts[i]);
        proof {
            let t = ps.take(i + 1);
            assert(t.drop_last() =~= ps.take(i as int));
            assert(t.last() == parts@[i as int]@);
            if i == 0 {
                assert(ps.take(0) =~= Seq::<Seq<char>>::empty());
            }
            assert(out@ =~= old(out)@ + join(t, sep@));
        }
        i = i + 1;
    }
    assert(ps.take(parts@.len() as int) =~= ps);
}

fn param_decl_chars(p: &FunctionParam) -> (v: Vec<char>)
    ensures
        v@ == param_decl(*p),
{
    let mut v = chars_of(p.kind.display().as_str());
    if p.kind.is_memory_type() {
        push_chars(&mut v, &[' ', 'm', 'e', 'm', 'o', 'r', 'y']);
    } else {
        assert(v@ + Seq::<char>::empty() =~= v@);
    }
    v
}

fn param_decls(ps: &Vec<FunctionParam>) -> (r: Vec<Vec<char>>)
    ensures
        r@.map_values(|v: Vec<char>| v@) == ps@.map_values(|p: FunctionParam| param_decl(p)),
{
    let mut r: Vec<Vec<char>> = Vec::new();
    let mut i: usize = 0;
    while i < ps.len()
        invariant
            i <= ps@.len(),
            r@.len() == i,
            forall|j: int| 0 <= j < i ==> (#[trigger] r@[j])@ == param_decl(ps@[j]),
        decreases ps.len() - i,
    {
        let d = param_decl_chars(&ps[i]);
        r.push(d);
        i = i + 1;
    }
    assert(r@.map_values(|v: Vec<char>| v@) =~= ps@.map_values(|p: FunctionParam| param_decl(p)));
    r
}

fn event_param_decls(ps: &Vec<EventParam>) -> (r: Vec<Vec<char>>)
    ensures
        r@.map_values(|v: Vec<char>| v@) == ps@.map_values(|p: EventParam| event_param_decl(p)),
{
    let mut r: Vec<Vec<char>> = Vec::new();
    let mut i: usize = 0;
    while i < ps.len()
        invariant
            i <= ps@.len(),
            r@.len() == i,
            forall|j: int| 0 <= j < i ==> (#[trigger] r@[j])@ == event_param_decl(ps@[j]),
        decreases ps.len() - i,
    {
        let mut d = chars_of(ps[i].kind.display().as_str());
        if ps[i].indexed {
            push_chars(&mut d, &[' ', 'i', 'n', 'd', 'e', 'x', 'e', 'd']);
        } else {
            assert(d@ + Seq::<char>::empty() =~= d@);
        }
        r.push(d);
        i = i + 1;
    }
    assert(r@.map_values(|v: Vec<char>| v@) =~= ps@.map_values(
        |p: EventParam| event_param_decl(p),
    ));
    r
}

fn event_line_chars(e: &Event) -> (v: Vec<char>)
    ensures
        v@ == event_line(*e),
{
    let mut v: Vec<char> = Vec::new();
    push_chars(&mut v, &['\t', 'e', 'v', 'e', 'n', 't', ' ']);
    push_vec(&mut v, &chars_of(e.name.as_str()));
    push_chars(&mut v, &['(']);
    push_joined(&mut v, &event_param_decls(&e.inputs), &[',', ' ']);
    push_chars(&mut v, &[')', ';']);
    v
}

fn error_line_chars(e: &Error) -> (v: Vec<char>)
    ensures
        v@ == error_line(*e),
{
    let mut v: Vec<char> = Vec::new();
    push_chars(&mut v, &['\t', 'e', 'r', 'r', 'o', 'r', ' ']);
    push_vec(&mut v, &chars_of(e.name.as_str()));
    push_chars(&mut v, &['(']);
    push_joined(&mut v, &param_decls(&e.inputs), &[',', ' ']);
    push_chars(&mut v, &[')', ';']);
    v
}

fn function_line_chars(f: &Function) -> (v: Vec<char>)
    ensures
        v@ == function_line(*f),
{
    let mut v: Vec<char> = Vec::new();
    push_chars(&mut v, &['\t', 'f', 'u', 'n', 'c', 't', 'i', 'o', 'n', ' ']);
    push_vec(&mut v, &chars_of(f.name.as_str()));
    push_chars(&mut v, &['(']);
    push_joined(&mut v, &param_decls(&f.inputs), &[',', ' ']);
    push_chars(&mut v, &[')', ' ', 'e', 'x', 't', 'e', 'r', 'n', 'a', 'l']);
    push_vec(&mut v, &chars_of(f.state_mutability.interface_mutability()));
    if f.outputs.len() == 0 {
        assert(v@ + Seq::<char>::empty() =~= v@);
    } else {
        push_chars(&mut v, &[' ', 'r', 'e', 't', 'u', 'r', 'n', 's', ' ', '(']);
        push_joined(&mut v, &param_decls(&f.outputs), &[',', ' ']);
        push_chars(&mut v, &[')']);
    }
    push_chars(&mut v, &[';']);
    v
}

fn interface_lines(a: &Abi) -> (r: Vec<Vec<char>>)
    ensures
        r@.map_values(|v: Vec<char>| v@) == interface_defs(*a),
{
    let mut r: Vec<Vec<char>> = Vec::new();
    let ev = a.events.entries();
    let ghost es = a.events.entry_seq().map_values(|e: (Seq<char>, Event)| event_line(e.1));
    let mut i: usize = 0;
    while i < ev.len()
        invariant
            ev@.map_values(|e: (String, Event)| (e.0@, e.1)) == a.events.entry_seq(),
            es == a.events.entry_seq().map_values(|e: (Seq<char>, Event)| event_line(e.1)),
            i <= ev@.len(),
            r@.len() == i,
            forall|j: int| 0 <= j < i ==> (#[trigger] r@[j])@ == es[j],
        decreases ev.len() - i,
    {
        let line = event_line_chars(&ev[i].1);
        proof {
            let m = ev@.map_values(|e: (String, Event)| (e.0@, e.1));
            assert(m[i as int].1 == ev@[i as int].1);
        }
        r.push(line);
        i = i + 1;
    }
    let ghost n1 = r@.len();
    let er = a.errors.entries();
    let ghost rs = a.errors.entry_seq().map_values(|e: (Seq<char>, Error)| error_line(e.1));
    let mut i: usize = 0;
    while i < er.len()
        invariant
            er@.map_values(|e: (String, Error)| (e.0@, e.1)) == a.errors.entry_seq(),
            rs == a.errors.entry_seq().map_values(|e: (Seq<char>, Error)| error_line(e.1)),
            es == a.events.entry_seq().map_values(|e: (Seq<char>, Event)| event_line(e.1)),
            n1 == es.len(),
            i <= er@.len(),
            r@.len() == n1 + i,
            forall|j: int| 0 <= j < n1 ==> (#[trigger] r@[j])@ == es[j],
            forall|j: int| 0 <= j < i ==> (#[trigger] r@[n1 + j])@ == rs[j],
        decreases er.len() - i,
    {
        let line = error_line_chars(&er[i].1);
        proof {
            let m = er@.map_values(|e: (String, Error)| (e.0@, e.1));
            assert(m[i as int].1 == er@[i as int].1);
        }
        r.push(line);
        i = i + 1;
    }
    let ghost n2 = r@.len();
    let fv = a.functions.entries();
    let ghost fs = a.functions.entry_seq().map_values(
        |e: (Seq<char>, Function)| function_line(e.1),
    );
    let mut i: usize = 0;
    while i < fv.len()
        invariant
            fv@.map_values(|e: (String, Function)| (e.0@, e.1)) == a.functions.entry_seq(),
            fs == a.functions.entry_seq().map_values(
                |e: (Seq<char>, Function)| function_line(e.1),
            ),
            rs == a.errors.entry_seq().map_values(|e: (Seq<char>, Error)| error_line(e.1)),
            es == a.events.entry_seq().map_values(|e: (Seq<char>, Event)| event_line(e.1)),
            n1 == es.len(),
            n2 == n1 + rs.len(),
            i <= fv@.len(),
            r@.len() == n2 + i,
            forall|j: int| 0 <= j < n1 ==> (#[trigger] r@[j])@ == es[j],
            forall|j: int| 0 <= j < rs.len() ==> (#[trigger] r@[n1 + j])@ == rs[j],
            forall|j: int| 0 <= j < i ==> (#[trigger] r@[n2 + j])@ == fs[j],
        decreases fv.len() - i,
    {
        let line = function_line_chars(&fv[i].1);
        proof {
            let m = fv@.map_values(|e: (String, Function)| (e.0@, e.1));
            assert(m[i as int].1 == fv@[i as int].1);
        }
        r.push(line);
        i = i + 1;
    }
    proof {
        let d = interface_defs(*a);
        assert(d =~= es + rs + fs);
        assert forall|j: int| 0 <= j < d.len() implies (#[trigger] r@[j])@ == d[j] by {
            if j < n1 {
            } else if j < n2 {
                assert(r@[n1 + (j - n1)] == r@[j]);
            } else {
                assert(r@[n2 + (j - n2)] == r@[j]);
            }
        }
        assert(r@.map_values(|v: Vec<char>| v@) =~= d);
    }
    r
}

fn interface_chars(name: &Vec<char>, a: &Abi) -> (text: Vec<char>)
    ensures
        text@ == interface_text(name@, *a),
{
    let lines = interface_lines(a);
    let mut text: Vec<char> = Vec::new();
    push_chars(&mut text, &['i', 'n', 't', 'e', 'r', 'f', 'a', 'c', 'e', ' ']);
    push_vec(&mut text, name);
    push_chars(&mut text, &[' ', '{', '\n']);
    let sep: [char; 1] = ['\n'];
    assert(sep@ =~= seq!['\n']);
    push_joined(&mut text, &lines, &sep);
    push_chars(&mut text, &['\n', '}']);
    text
}

fn default_name(path: &String) -> (n: Vec<char>)
    ensures
        n@ == default_interface_name(path@),
{
    let pieces = split_chars(&chars_of(path.as_str()), '/');
    proof {
        lemma_split_nonempty(path@, '/');
    }
    let ghost ps = pieces@.map_values(|v: Vec<char>| v@);
    assert(ps.len() == pieces@.len());
    let last = &pieces[pieces.len() - 1];
    assert(ps.last() == last@);
    let parts = split_chars(last, '.');
    proof {
        lemma_split_nonempty(last@, '.');
    }
    let ghost qs = parts@.map_values(|v: Vec<char>| v@);
    assert(qs.len() == parts@.len());
    assert(qs[0] == parts@[0]@);
    let mut n: Vec<char> = Vec::new();
    n.push('I');
    push_vec(&mut n, &parts[0]);
    n
}

/// Generates Solidity interfaces from artifacts: for each artifact with an ABI, the
/// directory of its file, the interface name (`interface`, or `I` and the file name up to
/// its first `.`) and the interface text declaring its events, errors and functions.
///
/// Artifacts with an ABI whose path has no parent directory are not accepted (the
/// directory could not be taken); `try_gen_sol_interfaces` reports them.
pub fn gen_sol_interfaces(artifacts: &Vec<Arc<Artifact>>, interface: Option<String>) -> (r: Vec<
    (String, String, String),
>)
    requires
        interfaces_ok(artifacts@),
    ensures
        r@.map_values(|t: (String, String, String)| (t.0@, t.1@, t.2@)) == interfaces_of(
            artifacts@,
            opt_text(interface),
        ),
{
    let ghost iname = opt_text(interface);
    let mut out: Vec<(String, String, String)> = Vec::new();
    let mut i: usize = 0;
    while i < artifacts.len()
        invariant
            interfaces_ok(artifacts@),
            iname == opt_text(interface),
            i <= artifacts@.len(),
            out@.map_values(|t: (String, String, String)| (t.0@, t.1@, t.2@)) == interfaces_of(
                artifacts@.take(i as int),
                iname,
            ),
        decreases artifacts.len() - i,
    {
        let artifact = &artifacts[i];
        proof {
            let t = artifacts@.take(i + 1);
            assert(t.drop_last() =~= artifacts@.take(i as int));
            assert(t.last() == artifacts@[i as int]);
        }
        match &artifact.abi {
            Some(a) => {
                let name_chars: Vec<char> = match &interface {
                    Some(n) => chars_of(n.as_str()),
                    None => default_name(&artifact.file.path),
                };
                let text = interface_chars(&name_chars, a);
                let dir = match parent_dir(artifact.file.path.as_str()) {
                    Some(d) => d,
                    None => {
                        assert(false);
                        String::new()
                    },
                };
                let ghost before = out@.map_values(|t: (String, String, String)| (t.0@, t.1@, t.2@));
                let name_s = string_of(&name_chars);
                let text_s = string_of(&text);
                proof {
                    assert(dir@ == path_parent(artifact.file.path@)->0);
                    assert(text_s@ == interface_text(name_s@, *a));
                }
                out.push((dir, name_s, text_s));
                proof {
                    assert(out@.map_values(|t: (String, String, String)| (t.0@, t.1@, t.2@))
                        =~= before.push((dir@, name_s@, text_s@)));
                }
            },
            None => {},
        }
        i = i + 1;
    }
    assert(artifacts@.take(artifacts@.len() as int) =~= artifacts@);
    out
}

/// Generates Solidity interfaces as `gen_sol_interfaces` does, where that does not panic (an
/// artifact with an ABI whose file path has no parent directory); `None` where it does.
pub fn try_gen_sol_interfaces(artifacts: &Vec<Arc<Artifact>>, interface: Option<String>) -> (r: Option<
    Vec<(String, String, String)>,
>)
    ensures
        r is Some <==> interfaces_ok(artifacts@),
        r matches Some(v) ==> v@.map_values(|t: (String, String, String)| (t.0@, t.1@, t.2@))
            == interfaces_of(artifacts@, opt_text(interface)),
{
    let mut i: usize = 0;
    while i < artifacts.len()
        invariant
            i <= artifacts@.len(),
            forall|j: int|
                0 <= j < i && (#[trigger] artifacts@[j]).abi is Some ==> path_parent(
                    artifacts@[j].file.path@,
                ) is Some,
        decreases artifacts.len() - i,
    {
        if artifacts[i].abi.is_some() {
            match parent_dir(artifacts[i].file.path.as_str()) {
                Some(_) => {},
                None => {
                    return None;
                },
            }
        }
        i = i + 1;
    }
    Some(gen_sol_interfaces(artifacts, interface))
}

} // verus!

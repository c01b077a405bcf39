//! Looking up definitions in a contract and deriving the values of its storage-pointer
//! constants.

use vstd::prelude::*;

use crate::abi::constructor_name;
use crate::ast::{
    Argument, AstSpan, ConstVal, ConstantDefinition, Contract, MacroArg, MacroDefinition, MacroInvocation, Statement,
    StatementType, TableDefinition,
};
use crate::files::Span;
use crate::name_map::NameMap;
use crate::bytes_util::{
    bytes32_of_text, digit_pairs, even_hex, lemma_decimal_digits_bytes32_ok, left_pad32, str_to_bytes32,
};
use crate::text::{chars_eq, chars_of, decimal_text, lemma_decimal_len, lemma_decimal_text, pow10, same_text, string_of, texts, usize_text};

verus! {

// ---------------------------------------------------------------------------
// Lookups
// ---------------------------------------------------------------------------

/// The first macro named `name`.
pub open spec fn first_macro(ms: Seq<MacroDefinition>, name: Seq<char>) -> Option<MacroDefinition>
    decreases ms.len(),
{
    if ms.len() == 0 {
        None
    } else if ms[0].name@ == name {
        Some(ms[0])
    } else {
        first_macro(ms.drop_first(), name)
    }
}

/// The first table named `name`.
pub open spec fn first_table(ts: Seq<TableDefinition>, name: Seq<char>) -> Option<TableDefinition>
    decreases ts.len(),
{
    if ts.len() == 0 {
        None
    } else if ts[0].name@ == name {
        Some(ts[0])
    } else {
        first_table(ts.drop_first(), name)
    }
}

/// The first constant named `name`.
pub open spec fn first_constant(cs: Seq<ConstantDefinition>, name: Seq<char>) -> Option<ConstantDefinition>
    decreases cs.len(),
{
    if cs.len() == 0 {
        None
    } else if cs[0].name@ == name {
        Some(cs[0])
    } else {
        first_constant(cs.drop_first(), name)
    }
}

proof fn lemma_first_macro(ms: Seq<MacroDefinition>, name: Seq<char>, i: int)
    requires
        0 <= i <= ms.len(),
        forall|j: int| 0 <= j < i ==> (#[trigger] ms[j]).name@ != name,
        i < ms.len() ==> ms[i].name@ == name,
    ensures
        first_macro(ms, name) == if i < ms.len() {
            Some(ms[i])
        } else {
            None
        },
    decreases i,
{
    if i > 0 {
        assert(ms[0].name@ != name);
        let t = ms.drop_first();
        assert forall|j: int| 0 <= j < i - 1 implies (#[trigger] t[j]).name@ != name by {
            assert(t[j] == ms[j + 1]);
        }
        lemma_first_macro(t, name, i - 1);
    }
}

proof fn lemma_first_table(ts: Seq<TableDefinition>, name: Seq<char>, i: int)
    requires
        0 <= i <= ts.len(),
        forall|j: int| 0 <= j < i ==> (#[trigger] ts[j]).name@ != name,
        i < ts.len() ==> ts[i].name@ == name,
    ensures
        first_table(ts, name) == if i < ts.len() {
            Some(ts[i])
        } else {
            None
        },
    decreases i,
{
    if i > 0 {
        assert(ts[0].name@ != name);
        let t = ts.drop_first();
        assert forall|j: int| 0 <= j < i - 1 implies (#[trigger] t[j]).name@ != name by {
            assert(t[j] == ts[j + 1]);
        }
        lemma_first_table(t, name, i - 1);
    }
}

proof fn lemma_first_constant(cs: Seq<ConstantDefinition>, name: Seq<char>, i: int)
    requires
        0 <= i <= cs.len(),
        forall|j: int| 0 <= j < i ==> (#[trigger] cs[j]).name@ != name,
        i < cs.len() ==> cs[i].name@ == name,
    ensures
        first_constant(cs, name) == if i < cs.len() {
            Some(cs[i])
        } else {
            None
        },
    decreases i,
{
    if i > 0 {
        assert(cs[0].name@ != name);
        let t = cs.drop_first();
        assert forall|j: int| 0 <= j < i - 1 implies (#[trigger] t[j]).name@ != name by {
            assert(t[j] == cs[j + 1]);
        }
        lemma_first_constant(t, name, i - 1);
    }
}

// ---------------------------------------------------------------------------
// Storage pointers
// ---------------------------------------------------------------------------

/// The storage pointers set so far, each a constant's name and its 32-byte word, and the
/// number of the last free storage pointer handed out.
pub type PointerState = (Seq<(Seq<char>, Seq<u8>)>, int);

/// Storage pointers taken by their names' texts and their words.
pub open spec fn pointer_entries(v: Seq<(String, [u8; 32])>) -> Seq<(Seq<char>, Seq<u8>)> {
    v.map_values(|e: (String, [u8; 32])| (e.0@, e.1@))
}

/// Whether a pointer is set for `name`.
pub open spec fn has_pointer(ps: Seq<(Seq<char>, Seq<u8>)>, name: Seq<char>) -> bool {
    exists|i: int| 0 <= i < ps.len() && ps[i].0 == name
}

/// The word of the first pointer set for `name`.
pub open spec fn first_pointer(ps: Seq<(Seq<char>, Seq<u8>)>, name: Seq<char>) -> Option<Seq<u8>>
    decreases ps.len(),
{
    if ps.len() == 0 {
        None
    } else if ps[0].0 == name {
        Some(ps[0].1)
    } else {
        first_pointer(ps.drop_first(), name)
    }
}

/// The word of free storage pointer number `n`: its decimal digits, read as hex by
/// `str_to_bytes32`.
pub open spec fn free_pointer_word(n: nat) -> Seq<u8> {
    bytes32_of_text(decimal_text(n))
}

/// The decimal text of a positive number does not start with `0`, and has more than one
/// digit exactly when the number is 10 or more.
proof fn lemma_decimal_leading(n: nat)
    ensures
        n > 0 ==> decimal_text(n)[0] != '0',
        decimal_text(n).len() == 1 <==> n < 10,
    decreases n,
{
    if n >= 10 {
        lemma_decimal_leading(n / 10);
        lemma_decimal_text(n / 10);
        assert(decimal_text(n)[0] == decimal_text(n / 10)[0]);
    }
}

/// The even-length text that `str_to_bytes32` reads for a text of decimal digits: the text,
/// with a `0` in front where its length is odd.
proof fn lemma_even_digits(s: Seq<char>)
    requires
        forall|i: int| 0 <= i < s.len() ==> '0' <= #[trigger] s[i] <= '9',
    ensures
        even_hex(s) == if s.len() % 2 == 1 {
            seq!['0'] + s
        } else {
            s
        },
        even_hex(s).len() % 2 == 0,
        forall|i: int| 0 <= i < even_hex(s).len() ==> '0' <= #[trigger] even_hex(s)[i] <= '9',
{
    assert(vstd::utf8::is_ascii_chars(s));
    vstd::utf8::is_ascii_chars_encode_utf8(s);
    let t = even_hex(s);
    assert forall|i: int| 0 <= i < t.len() implies '0' <= #[trigger] t[i] <= '9' by {
        if s.len() % 2 == 1 && i > 0 {
            assert(t[i] == s[i - 1]);
        }
    }
}

/// The first byte of the word of a positive number is not zero.
proof fn lemma_first_pair_nonzero(n: nat)
    requires
        n > 0,
    ensures
        digit_pairs(even_hex(decimal_text(n))).len() >= 1,
        digit_pairs(even_hex(decimal_text(n)))[0] != 0,
{
    let s = decimal_text(n);
    lemma_decimal_text(n);
    lemma_decimal_leading(n);
    lemma_even_digits(s);
    let t = even_hex(s);
    if s.len() % 2 == 1 {
        assert(t[1] == s[0]);
    } else {
        assert(t[0] == s[0]);
    }
}

/// Distinct free storage pointer numbers that fit in an `i32` have distinct words.
pub proof fn lemma_free_pointer_word_injective(n: nat, m: nat)
    requires
        n != m,
        n <= i32::MAX,
        m <= i32::MAX,
    ensures
        free_pointer_word(n) != free_pointer_word(m),
{
    reveal_with_fuel(pow10, 11);
    assert(pow10(10) == 10000000000nat);
    lemma_decimal_len(n, 10);
    lemma_decimal_len(m, 10);
    lemma_decimal_text(n);
    lemma_decimal_text(m);
    lemma_decimal_leading(n);
    lemma_decimal_leading(m);
    let s = decimal_text(n);
    let r = decimal_text(m);
    lemma_decimal_digits_bytes32_ok(s);
    lemma_decimal_digits_bytes32_ok(r);
    lemma_even_digits(s);
    lemma_even_digits(r);
    let ts = even_hex(s);
    let tr = even_hex(r);
    let ws = digit_pairs(ts);
    let wr = digit_pairs(tr);
    assert(ws.len() <= 5 && wr.len() <= 5);
    if ws.len() < wr.len() {
        lemma_first_pair_nonzero(m);
        let k = 32 - wr.len();
        assert(left_pad32(ws)[k] == 0u8);
        assert(left_pad32(wr)[k] == wr[0]);
        assert(left_pad32(ws) != left_pad32(wr));
    } else if wr.len() < ws.len() {
        lemma_first_pair_nonzero(n);
        let k = 32 - ws.len();
        assert(left_pad32(wr)[k] == 0u8);
        assert(left_pad32(ws)[k] == ws[0]);
        assert(left_pad32(ws) != left_pad32(wr));
    } else {
        assert(ts.len() == tr.len());
        assert(ts != tr) by {
            if ts == tr {
                if s.len() % 2 == r.len() % 2 {
                    if s.len() % 2 == 1 {
                        assert(s =~= ts.drop_first());
                        assert(r =~= tr.drop_first());
                    }
                    assert(s == r);
                } else if s.len() % 2 == 1 {
                    assert(tr[0] == '0');
                    assert(r[0] == '0');
                } else {
                    assert(ts[0] == '0');
                    assert(s[0] == '0');
                }
            }
        }
        let k = choose|k: int| 0 <= k < ts.len() && ts[k] != tr[k];
        assert(exists|k: int| 0 <= k < ts.len() && ts[k] != tr[k]) by {
            if forall|k: int| 0 <= k < ts.len() ==> ts[k] == tr[k] {
                assert(ts =~= tr);
            }
        }
        let j = k / 2;
        assert(ws[j] != wr[j]) by {
            assert(ws[j] == (((ts[2 * j] as nat - 0x30) * 16 + (ts[2 * j + 1] as nat - 0x30)) as u8));
            assert(wr[j] == (((tr[2 * j] as nat - 0x30) * 16 + (tr[2 * j + 1] as nat - 0x30)) as u8));
            assert('0' <= ts[2 * j] <= '9' && '0' <= ts[2 * j + 1] <= '9');
            assert('0' <= tr[2 * j] <= '9' && '0' <= tr[2 * j + 1] <= '9');
        }
        let idx = 32 - ws.len() + j;
        assert(left_pad32(ws)[idx] == ws[j]);
        assert(left_pad32(wr)[idx] == wr[j]);
        assert(left_pad32(ws) != left_pad32(wr));
    }
}

/// Sets the pointer of constant `name` unless one is set: the first constant of that name
/// gives its literal, or, for a free storage pointer, the next number's word. Nothing
/// changes for a name no constant has.
pub open spec fn assign_pointer(cs: Seq<ConstantDefinition>, name: Seq<char>, st: PointerState) -> PointerState {
    if has_pointer(st.0, name) {
        st
    } else {
        match first_constant(cs, name) {
            Some(c) => match c.value {
                ConstVal::Literal(l) => (st.0.push((name, l@)), st.1),
                ConstVal::FreeStoragePointer(_) => (st.0.push((name, free_pointer_word(st.1 as nat))), st.1 + 1),
            },
            None => st,
        }
    }
}

/// `assign_pointer` for each name, in order.
pub open spec fn assign_all(cs: Seq<ConstantDefinition>, names: Seq<Seq<char>>, st: PointerState) -> PointerState
    decreases names.len(),
{
    if names.len() == 0 {
        st
    } else {
        assign_pointer(cs, names.last(), assign_all(cs, names.drop_last(), st))
    }
}

/// `name` once for each constant of that name.
pub open spec fn matching_names(cs: Seq<ConstantDefinition>, name: Seq<char>) -> Seq<Seq<char>>
    decreases cs.len(),
{
    if cs.len() == 0 {
        Seq::empty()
    } else {
        matching_names(cs.drop_last(), name) + if cs.last().name@ == name {
            seq![name]
        } else {
            Seq::empty()
        }
    }
}

/// The macro arguments that name constants: each identifier argument once for each
/// constant of its name, in order.
pub open spec fn constant_args(cs: Seq<ConstantDefinition>, args: Seq<MacroArg>) -> Seq<Seq<char>>
    decreases args.len(),
{
    if args.len() == 0 {
        Seq::empty()
    } else {
        constant_args(cs, args.drop_last()) + match args.last() {
            MacroArg::Ident(n) => matching_names(cs, n@),
            _ => Seq::empty(),
        }
    }
}

/// The size of a statement: one, plus the sizes of a label's statements.
pub open spec fn stmt_size(s: Statement) -> nat
    decreases s,
{
    1 + match s.ty {
        StatementType::Label(l) => stmts_size(l.inner@),
        _ => 0,
    }
}

/// The sizes of the statements added up.
pub open spec fn stmts_size(ss: Seq<Statement>) -> nat
    decreases ss,
{
    if ss.len() == 0 {
        0
    } else {
        stmts_size(ss.drop_last()) + stmt_size(ss.last())
    }
}

/// `main`'s name: `MAIN`.
pub open spec fn main_name() -> Seq<char> {
    seq!['M', 'A', 'I', 'N']
}

/// Walking a macro with `fuel` levels of macro nesting left: its statements in order;
/// `None` where the nesting goes deeper than the fuel.
pub open spec fn walk_macro(c: Contract, m: MacroDefinition, st: PointerState, checking: bool, fuel: nat) -> Option<PointerState>
    decreases fuel, 0int, 0int,
{
    if fuel == 0 {
        None
    } else {
        walk_stmts(c, m.statements@, st, checking, (fuel - 1) as nat)
    }
}

/// Walking statements in order.
pub open spec fn walk_stmts(c: Contract, ss: Seq<Statement>, st: PointerState, checking: bool, fuel: nat) -> Option<PointerState>
    decreases fuel, 1int, 2 * stmts_size(ss) + 1,
{
    if ss.len() == 0 {
        Some(st)
    } else {
        match walk_stmts(c, ss.drop_last(), st, checking, fuel) {
            Some(s1) => walk_stmt(c, ss.last(), s1, checking, fuel),
            None => None,
        }
    }
}

/// Walking one statement: a constant gets its pointer; a macro invocation first sets the
/// pointers of the constants among its arguments, then walks the invoked macro (if there is
/// one of that name); a builtin call walks the macros its named arguments name; a label
/// walks its statements; anything else changes nothing.
pub open spec fn walk_stmt(c: Contract, s: Statement, st: PointerState, checking: bool, fuel: nat) -> Option<PointerState>
    decreases fuel, 1int, 2 * stmt_size(s),
{
    match s.ty {
        StatementType::Constant(n) => Some(assign_pointer(c.constants@, n@, st)),
        StatementType::MacroInvocation(mi) => {
            let s1 = assign_all(c.constants@, constant_args(c.constants@, mi.args@), st);
            match first_macro(c.macros@, mi.macro_name@) {
                Some(md) => invoke(c, md, s1, checking, fuel),
                None => Some(s1),
            }
        },
        StatementType::BuiltinFunctionCall(b) => walk_builtin_args(c, b.args@, st, checking, fuel),
        StatementType::Label(l) => walk_stmts(c, l.inner@, st, checking, fuel),
        _ => Some(st),
    }
}

/// Walking the macros that a builtin call's named arguments name, in order.
pub open spec fn walk_builtin_args(c: Contract, args: Seq<Argument>, st: PointerState, checking: bool, fuel: nat) -> Option<PointerState>
    decreases fuel, 0int, args.len() + 2,
{
    if args.len() == 0 {
        Some(st)
    } else {
        match walk_builtin_args(c, args.drop_last(), st, checking, fuel) {
            Some(s1) => match args.last().name {
                Some(n) => match first_macro(c.macros@, n@) {
                    Some(md) => invoke(c, md, s1, checking, fuel),
                    None => Some(s1),
                },
                None => Some(s1),
            },
            None => None,
        }
    }
}

/// Walking an invoked macro: `CONSTRUCTOR` is walked (as the constructor) only when the
/// constructor is not already being walked; any other macro is walked as the caller is.
pub open spec fn invoke(c: Contract, md: MacroDefinition, st: PointerState, checking: bool, fuel: nat) -> Option<PointerState>
    decreases fuel, 0int, 1int,
{
    if md.name@ == constructor_name() {
        if !checking {
            walk_macro(c, md, st, true, fuel)
        } else {
            Some(st)
        }
    } else {
        walk_macro(c, md, st, checking, fuel)
    }
}

/// Whether walking the macro ends: the macros it invokes do not invoke one another
/// without end.
pub open spec fn walk_ends(c: Contract, m: MacroDefinition, st: PointerState, checking: bool) -> bool {
    exists|fuel: nat| walk_macro(c, m, st, checking, fuel) is Some
}

/// The state after walking the macro, where the walk ends.
pub open spec fn walked(c: Contract, m: MacroDefinition, st: PointerState, checking: bool) -> PointerState {
    walk_macro(c, m, st, checking, choose|fuel: nat| walk_macro(c, m, st, checking, fuel) is Some)->0
}

/// Setting pointers never lowers the last number handed out.
proof fn lemma_assign_all_mono(cs: Seq<ConstantDefinition>, names: Seq<Seq<char>>, st: PointerState)
    ensures
        st.1 <= assign_all(cs, names, st).1,
    decreases names.len(),
{
    if names.len() > 0 {
        lemma_assign_all_mono(cs, names.drop_last(), st);
    }
}

/// A prefix of the names leaves the last number handed out no higher than all of them.
proof fn lemma_assign_all_prefix(cs: Seq<ConstantDefinition>, names: Seq<Seq<char>>, st: PointerState, i: int)
    requires
        0 <= i <= names.len(),
    ensures
        st.1 <= assign_all(cs, names.take(i), st).1 <= assign_all(cs, names, st).1,
    decreases names.len(),
{
    if i == names.len() {
        assert(names.take(i) =~= names);
        lemma_assign_all_mono(cs, names, st);
    } else {
        lemma_assign_all_prefix(cs, names.drop_last(), st, i);
        assert(names.drop_last().take(i) =~= names.take(i));
    }
}

proof fn lemma_walk_macro_mono(c: Contract, m: MacroDefinition, st: PointerState, checking: bool, fuel: nat)
    ensures
        walk_macro(c, m, st, checking, fuel) matches Some(r) ==> r.1 >= st.1,
    decreases fuel, 0int, 0int,
{
    if fuel > 0 {
        lemma_walk_stmts_mono(c, m.statements@, st, checking, (fuel - 1) as nat);
    }
}

proof fn lemma_walk_stmts_mono(c: Contract, ss: Seq<Statement>, st: PointerState, checking: bool, fuel: nat)
    ensures
        walk_stmts(c, ss, st, checking, fuel) matches Some(r) ==> r.1 >= st.1,
    decreases fuel, 1int, 2 * stmts_size(ss) + 1,
{
    if ss.len() > 0 {
        assert(stmts_size(ss) == stmts_size(ss.drop_last()) + stmt_size(ss.last()));
        lemma_walk_stmts_mono(c, ss.drop_last(), st, checking, fuel);
        match walk_stmts(c, ss.drop_last(), st, checking, fuel) {
            Some(s1) => lemma_walk_stmt_mono(c, ss.last(), s1, checking, fuel),
            None => {},
        }
    }
}

proof fn lemma_walk_stmt_mono(c: Contract, s: Statement, st: PointerState, checking: bool, fuel: nat)
    ensures
        walk_stmt(c, s, st, checking, fuel) matches Some(r) ==> r.1 >= st.1,
    decreases fuel, 1int, 2 * stmt_size(s),
{
    match s.ty {
        StatementType::MacroInvocation(mi) => {
            let names = constant_args(c.constants@, mi.args@);
            lemma_assign_all_prefix(c.constants@, names, st, 0);
            assert(names.take(0) =~= Seq::<Seq<char>>::empty());
            let s1 = assign_all(c.constants@, names, st);
            match first_macro(c.macros@, mi.macro_name@) {
                Some(md) => lemma_invoke_mono(c, md, s1, checking, fuel),
                None => {},
            }
        },
        StatementType::BuiltinFunctionCall(b) => lemma_walk_builtin_mono(c, b.args@, st, checking, fuel),
        StatementType::Label(l) => lemma_walk_stmts_mono(c, l.inner@, st, checking, fuel),
        _ => {},
    }
}

proof fn lemma_walk_builtin_mono(c: Contract, args: Seq<Argument>, st: PointerState, checking: bool, fuel: nat)
    ensures
        walk_builtin_args(c, args, st, checking, fuel) matches Some(r) ==> r.1 >= st.1,
    decreases fuel, 0int, args.len() + 2,
{
    if args.len() > 0 {
        lemma_walk_builtin_mono(c, args.drop_last(), st, checking, fuel);
        match walk_builtin_args(c, args.drop_last(), st, checking, fuel) {
            Some(s1) => match args.last().name {
                Some(n) => match first_macro(c.macros@, n@) {
                    Some(md) => lemma_invoke_mono(c, md, s1, checking, fuel),
                    None => {},
                },
                None => {},
            },
            None => {},
        }
    }
}

proof fn lemma_invoke_mono(c: Contract, md: MacroDefinition, st: PointerState, checking: bool, fuel: nat)
    ensures
        invoke(c, md, st, checking, fuel) matches Some(r) ==> r.1 >= st.1,
    decreases fuel, 0int, 1int,
{
    if md.name@ == constructor_name() {
        if !checking {
            lemma_walk_macro_mono(c, md, st, true, fuel);
        }
    } else {
        lemma_walk_macro_mono(c, md, st, checking, fuel);
    }
}

/// Where walking the statements ends, walking a prefix of them ends too, no further on.
proof fn lemma_walk_stmts_prefix(c: Contract, ss: Seq<Statement>, st: PointerState, checking: bool, fuel: nat, i: int)
    requires
        0 <= i <= ss.len(),
        walk_stmts(c, ss, st, checking, fuel) is Some,
    ensures
        walk_stmts(c, ss.take(i), st, checking, fuel) is Some,
        walk_stmts(c, ss.take(i), st, checking, fuel).unwrap().1 <= walk_stmts(c, ss, st, checking, fuel).unwrap().1,
    decreases ss.len() - i,
{
    if i < ss.len() {
        lemma_walk_stmts_prefix(c, ss, st, checking, fuel, i + 1);
        let t = ss.take(i + 1);
        assert(t.drop_last() =~= ss.take(i));
        assert(t.last() == ss[i]);
        let s1 = walk_stmts(c, ss.take(i), st, checking, fuel);
        if s1 is Some {
            lemma_walk_stmt_mono(c, ss[i], s1->0, checking, fuel);
        }
    } else {
        assert(ss.take(i) =~= ss);
    }
}

/// Where walking a builtin's arguments ends, walking a prefix of them ends too, no further
/// on.
proof fn lemma_walk_builtin_prefix(c: Contract, args: Seq<Argument>, st: PointerState, checking: bool, fuel: nat, i: int)
    requires
        0 <= i <= args.len(),
        walk_builtin_args(c, args, st, checking, fuel) is Some,
    ensures
        walk_builtin_args(c, args.take(i), st, checking, fuel) is Some,
        walk_builtin_args(c, args.take(i), st, checking, fuel).unwrap().1 <= walk_builtin_args(c, args, st, checking, fuel).unwrap().1,
    decreases args.len() - i,
{
    if i < args.len() {
        lemma_walk_builtin_prefix(c, args, st, checking, fuel, i + 1);
        let t = args.take(i + 1);
        assert(t.drop_last() =~= args.take(i));
        assert(t.last() == args[i]);
        let s1 = walk_builtin_args(c, args.take(i), st, checking, fuel);
        if s1 is Some {
            match args[i].name {
                Some(n) => match first_macro(c.macros@, n@) {
                    Some(md) => lemma_invoke_mono(c, md, s1->0, checking, fuel),
                    None => {},
                },
                None => {},
            }
        }
    } else {
        assert(args.take(i) =~= args);
    }
}

/// A statement is no larger than the statements it is among.
proof fn lemma_stmt_size_le(ss: Seq<Statement>, i: int)
    requires
        0 <= i < ss.len(),
    ensures
        stmt_size(ss[i]) <= stmts_size(ss),
    decreases ss.len(),
{
    if i < ss.len() - 1 {
        lemma_stmt_size_le(ss.drop_last(), i);
    }
}

/// No name has two pointers.
pub open spec fn names_distinct(ps: Seq<(Seq<char>, Seq<u8>)>) -> bool {
    forall|i: int, j: int| 0 <= i < j < ps.len() ==> ps[i].0 != ps[j].0
}

proof fn lemma_assign_distinct(cs: Seq<ConstantDefinition>, name: Seq<char>, st: PointerState)
    requires
        names_distinct(st.0),
    ensures
        names_distinct(assign_pointer(cs, name, st).0),
{
    if !has_pointer(st.0, name) {
        let r = assign_pointer(cs, name, st).0;
        assert forall|i: int, j: int| 0 <= i < j < r.len() implies r[i].0 != r[j].0 by {
            if j == st.0.len() {
                assert(r[j].0 == name);
                assert(r[i] == st.0[i]);
            }
        }
    }
}

/// Whether setting any constant's pointer keeps `inv`.
pub open spec fn assign_keeps(cs: Seq<ConstantDefinition>, inv: spec_fn(PointerState) -> bool) -> bool {
    forall|name: Seq<char>, st: PointerState| inv(st) ==> #[trigger] inv(assign_pointer(cs, name, st))
}

proof fn lemma_assign_all_keeps(
    cs: Seq<ConstantDefinition>,
    names: Seq<Seq<char>>,
    st: PointerState,
    inv: spec_fn(PointerState) -> bool,
)
    requires
        assign_keeps(cs, inv),
        inv(st),
    ensures
        inv(assign_all(cs, names, st)),
    decreases names.len(),
{
    if names.len() > 0 {
        lemma_assign_all_keeps(cs, names.drop_last(), st, inv);
        let s1 = assign_all(cs, names.drop_last(), st);
        assert(inv(assign_pointer(cs, names.last(), s1)));
    }
}

proof fn lemma_walk_macro_keeps(
    c: Contract,
    m: MacroDefinition,
    st: PointerState,
    checking: bool,
    fuel: nat,
    inv: spec_fn(PointerState) -> bool,
)
    requires
        assign_keeps(c.constants@, inv),
        inv(st),
    ensures
        walk_macro(c, m, st, checking, fuel) matches Some(r) ==> inv(r),
    decreases fuel, 0int, 0int,
{
    if fuel > 0 {
        lemma_walk_stmts_keeps(c, m.statements@, st, checking, (fuel - 1) as nat, inv);
    }
}

proof fn lemma_walk_stmts_keeps(
    c: Contract,
    ss: Seq<Statement>,
    st: PointerState,
    checking: bool,
    fuel: nat,
    inv: spec_fn(PointerState) -> bool,
)
    requires
        assign_keeps(c.constants@, inv),
        inv(st),
    ensures
        walk_stmts(c, ss, st, checking, fuel) matches Some(r) ==> inv(r),
    decreases fuel, 1int, 2 * stmts_size(ss) + 1,
{
    if ss.len() > 0 {
        assert(stmts_size(ss) == stmts_size(ss.drop_last()) + stmt_size(ss.last()));
        lemma_walk_stmts_keeps(c, ss.drop_last(), st, checking, fuel, inv);
        match walk_stmts(c, ss.drop_last(), st, checking, fuel) {
            Some(s1) => lemma_walk_stmt_keeps(c, ss.last(), s1, checking, fuel, inv),
            None => {},
        }
    }
}

proof fn lemma_walk_stmt_keeps(
    c: Contract,
    s: Statement,
    st: PointerState,
    checking: bool,
    fuel: nat,
    inv: spec_fn(PointerState) -> bool,
)
    requires
        assign_keeps(c.constants@, inv),
        inv(st),
    ensures
        walk_stmt(c, s, st, checking, fuel) matches Some(r) ==> inv(r),
    decreases fuel, 1int, 2 * stmt_size(s),
{
    match s.ty {
        StatementType::Constant(n) => {
            assert(inv(assign_pointer(c.constants@, n@, st)));
        },
        StatementType::MacroInvocation(mi) => {
            let names = constant_args(c.constants@, mi.args@);
            lemma_assign_all_keeps(c.constants@, names, st, inv);
            let s1 = assign_all(c.constants@, names, st);
            match first_macro(c.macros@, mi.macro_name@) {
                Some(md) => lemma_invoke_keeps(c, md, s1, checking, fuel, inv),
                None => {},
            }
        },
        StatementType::BuiltinFunctionCall(b) => lemma_walk_builtin_keeps(c, b.args@, st, checking, fuel, inv),
        StatementType::Label(l) => lemma_walk_stmts_keeps(c, l.inner@, st, checking, fuel, inv),
        _ => {},
    }
}

proof fn lemma_walk_builtin_keeps(
    c: Contract,
    args: Seq<Argument>,
    st: PointerState,
    checking: bool,
    fuel: nat,
    inv: spec_fn(PointerState) -> bool,
)
    requires
        assign_keeps(c.constants@, inv),
        inv(st),
    ensures
        walk_builtin_args(c, args, st, checking, fuel) matches Some(r) ==> inv(r),
    decreases fuel, 0int, args.len() + 2,
{
    if args.len() > 0 {
        lemma_walk_builtin_keeps(c, args.drop_last(), st, checking, fuel, inv);
        match walk_builtin_args(c, args.drop_last(), st, checking, fuel) {
            Some(s1) => match args.last().name {
                Some(n) => match first_macro(c.macros@, n@) {
                    Some(md) => lemma_invoke_keeps(c, md, s1, checking, fuel, inv),
                    None => {},
                },
                None => {},
            },
            None => {},
        }
    }
}

proof fn lemma_invoke_keeps(
    c: Contract,
    md: MacroDefinition,
    st: PointerState,
    checking: bool,
    fuel: nat,
    inv: spec_fn(PointerState) -> bool,
)
    requires
        assign_keeps(c.constants@, inv),
        inv(st),
    ensures
        invoke(c, md, st, checking, fuel) matches Some(r) ==> inv(r),
    decreases fuel, 0int, 1int,
{
    if md.name@ == constructor_name() {
        if !checking {
            lemma_walk_macro_keeps(c, md, st, true, fuel, inv);
        }
    } else {
        lemma_walk_macro_keeps(c, md, st, checking, fuel, inv);
    }
}

/// A property that setting pointers keeps holds after the derivation where it holds of no
/// pointers and counter `0`.
proof fn lemma_derived_keeps(c: Contract, inv: spec_fn(PointerState) -> bool)
    requires
        derivation_ends(c),
        assign_keeps(c.constants@, inv),
        inv((Seq::empty(), 0)),
    ensures
        inv(constructor_state(c)),
        inv(derived_state(c)),
{
    let e: PointerState = (Seq::empty(), 0);
    match first_macro(c.macros@, constructor_name()) {
        Some(m) => {
            let f = choose|fuel: nat| walk_macro(c, m, e, false, fuel) is Some;
            lemma_walk_macro_keeps(c, m, e, false, f, inv);
        },
        None => {},
    }
    let s = constructor_state(c);
    match first_macro(c.macros@, main_name()) {
        Some(m) => {
            let f = choose|fuel: nat| walk_macro(c, m, s, false, fuel) is Some;
            lemma_walk_macro_keeps(c, m, s, false, f, inv);
        },
        None => {},
    }
}

/// Deriving the storage pointers sets each constant's pointer at most once: no name has two
/// pointers after `CONSTRUCTOR` and `MAIN` are walked.
pub proof fn lemma_derived_pointers_distinct(c: Contract)
    requires
        derivation_ends(c),
    ensures
        names_distinct(derived_state(c).0),
{
    let inv = |s: PointerState| names_distinct(s.0);
    assert forall|name: Seq<char>, st: PointerState| inv(st) implies #[trigger] inv(
        assign_pointer(c.constants@, name, st),
    ) by {
        lemma_assign_distinct(c.constants@, name, st);
    }
    lemma_derived_keeps(c, inv);
}

/// A name some constant has is the name of one of the constants.
proof fn lemma_first_constant_named(cs: Seq<ConstantDefinition>, name: Seq<char>)
    requires
        first_constant(cs, name) is Some,
    ensures
        exists|i: int| 0 <= i < cs.len() && (#[trigger] cs[i]).name@ == name,
    decreases cs.len(),
{
    if cs[0].name@ != name {
        lemma_first_constant_named(cs.drop_first(), name);
        let i = choose|i: int| 0 <= i < cs.len() - 1 && (#[trigger] cs.drop_first()[i]).name@ == name;
        assert(cs[i + 1] == cs.drop_first()[i]);
    }
}

/// A constant of the name puts the name among `matching_names`.
proof fn lemma_matching_names_has(cs: Seq<ConstantDefinition>, name: Seq<char>, i: int)
    requires
        0 <= i < cs.len(),
        cs[i].name@ == name,
    ensures
        matching_names(cs, name).contains(name),
    decreases cs.len(),
{
    let p = cs.drop_last();
    if i == cs.len() - 1 {
        let r = matching_names(cs, name);
        assert(r[r.len() - 1] == name);
    } else {
        lemma_matching_names_has(p, name, i);
        let k = choose|k: int| 0 <= k < matching_names(p, name).len() && matching_names(p, name)[k] == name;
        assert(matching_names(cs, name)[k] == name);
    }
}

/// An identifier argument naming a constant is among the constant arguments.
proof fn lemma_constant_args_has(cs: Seq<ConstantDefinition>, args: Seq<MacroArg>, j: int, n: String)
    requires
        0 <= j < args.len(),
        args[j] == MacroArg::Ident(n),
        matching_names(cs, n@).contains(n@),
    ensures
        constant_args(cs, args).contains(n@),
    decreases args.len(),
{
    let p = args.drop_last();
    if j == args.len() - 1 {
        let k = choose|k: int| 0 <= k < matching_names(cs, n@).len() && matching_names(cs, n@)[k] == n@;
        assert(constant_args(cs, args)[constant_args(cs, p).len() + k] == n@);
    } else {
        assert(p[j] == args[j]);
        lemma_constant_args_has(cs, p, j, n);
        let k = choose|k: int| 0 <= k < constant_args(cs, p).len() && constant_args(cs, p)[k] == n@;
        assert(constant_args(cs, args)[k] == n@);
    }
}

/// Setting a pointer keeps every pointer already set.
proof fn lemma_assign_keeps_pointer(cs: Seq<ConstantDefinition>, name: Seq<char>, st: PointerState, x: Seq<char>)
    requires
        has_pointer(st.0, x),
    ensures
        has_pointer(assign_pointer(cs, name, st).0, x),
{
    let i = choose|i: int| 0 <= i < st.0.len() && st.0[i].0 == x;
    assert(assign_pointer(cs, name, st).0[i] == st.0[i]);
}

/// Setting the pointers of some names sets the pointer of each of them that a constant has.
proof fn lemma_assign_all_sets(cs: Seq<ConstantDefinition>, names: Seq<Seq<char>>, st: PointerState, x: Seq<char>)
    requires
        names.contains(x),
        first_constant(cs, x) is Some,
    ensures
        has_pointer(assign_all(cs, names, st).0, x),
    decreases names.len(),
{
    let p = names.drop_last();
    let s1 = assign_all(cs, p, st);
    if names.last() == x {
        if !has_pointer(s1.0, x) {
            let r = assign_pointer(cs, x, s1).0;
            assert(r[r.len() - 1].0 == x);
        }
    } else {
        let k = choose|k: int| 0 <= k < names.len() && names[k] == x;
        assert(p[k] == x);
        lemma_assign_all_sets(cs, p, st, x);
        lemma_assign_keeps_pointer(cs, names.last(), s1, x);
    }
}

/// Walking a macro invocation sets the pointer of every constant that one of its identifier
/// arguments names, and the pointer stays set through the walk of the invoked macro: a
/// constant passed to a macro always has a pointer once the invocation has been walked.
pub proof fn lemma_invocation_sets_argument_pointers(
    c: Contract,
    s: Statement,
    mi: MacroInvocation,
    st: PointerState,
    checking: bool,
    fuel: nat,
    j: int,
    n: String,
)
    requires
        s.ty == StatementType::MacroInvocation(mi),
        0 <= j < mi.args@.len(),
        mi.args@[j] == MacroArg::Ident(n),
        first_constant(c.constants@, n@) is Some,
        walk_stmt(c, s, st, checking, fuel) is Some,
    ensures
        has_pointer(walk_stmt(c, s, st, checking, fuel).unwrap().0, n@),
{
    let cs = c.constants@;
    lemma_first_constant_named(cs, n@);
    let i = choose|i: int| 0 <= i < cs.len() && (#[trigger] cs[i]).name@ == n@;
    lemma_matching_names_has(cs, n@, i);
    lemma_constant_args_has(cs, mi.args@, j, n);
    let names = constant_args(cs, mi.args@);
    lemma_assign_all_sets(cs, names, st, n@);
    let s1 = assign_all(cs, names, st);
    let inv = |t: PointerState| has_pointer(t.0, n@);
    assert forall|name: Seq<char>, t: PointerState| inv(t) implies #[trigger] inv(assign_pointer(cs, name, t)) by {
        lemma_assign_keeps_pointer(cs, name, t, n@);
    }
    match first_macro(c.macros@, mi.macro_name@) {
        Some(md) => lemma_invoke_keeps(c, md, s1, checking, fuel, inv),
        None => {},
    }
}

/// A name with a pointer has a first pointer.
proof fn lemma_has_first_pointer(ps: Seq<(Seq<char>, Seq<u8>)>, name: Seq<char>)
    requires
        has_pointer(ps, name),
    ensures
        first_pointer(ps, name) is Some,
    decreases ps.len(),
{
    if ps[0].0 != name {
        let i = choose|i: int| 0 <= i < ps.len() && ps[i].0 == name;
        assert(ps.drop_first()[i - 1] == ps[i]);
        lemma_has_first_pointer(ps.drop_first(), name);
    }
}

/// Walking statements, one of which invokes a macro with an identifier argument naming a
/// constant, leaves that constant with a pointer.
proof fn lemma_walk_stmts_sets_argument_pointer(
    c: Contract,
    ss: Seq<Statement>,
    st: PointerState,
    checking: bool,
    fuel: nat,
    i: int,
    mi: MacroInvocation,
    j: int,
    n: String,
)
    requires
        0 <= i < ss.len(),
        ss[i].ty == StatementType::MacroInvocation(mi),
        0 <= j < mi.args@.len(),
        mi.args@[j] == MacroArg::Ident(n),
        first_constant(c.constants@, n@) is Some,
        walk_stmts(c, ss, st, checking, fuel) is Some,
    ensures
        has_pointer(walk_stmts(c, ss, st, checking, fuel).unwrap().0, n@),
    decreases ss.len(),
{
    let p = ss.drop_last();
    let s1 = walk_stmts(c, p, st, checking, fuel).unwrap();
    if i == ss.len() - 1 {
        lemma_invocation_sets_argument_pointers(c, ss[i], mi, s1, checking, fuel, j, n);
    } else {
        assert(p[i] == ss[i]);
        lemma_walk_stmts_sets_argument_pointer(c, p, st, checking, fuel, i, mi, j, n);
        let cs = c.constants@;
        let inv = |t: PointerState| has_pointer(t.0, n@);
        assert forall|name: Seq<char>, t: PointerState| inv(t) implies #[trigger] inv(assign_pointer(cs, name, t)) by {
            lemma_assign_keeps_pointer(cs, name, t, n@);
        }
        lemma_walk_stmt_keeps(c, ss.last(), s1, checking, fuel, inv);
    }
}

/// A constant passed by name to a macro that `MAIN` invokes gets its storage pointer: after
/// the derivation it has a pointer, so `derive_storage_pointers` makes every constant of
/// that name a literal.
pub proof fn lemma_main_invocation_args_get_pointers(
    c: Contract,
    m: MacroDefinition,
    i: int,
    mi: MacroInvocation,
    j: int,
    n: String,
)
    requires
        derivation_ends(c),
        first_macro(c.macros@, main_name()) == Some(m),
        0 <= i < m.statements@.len(),
        m.statements@[i].ty == StatementType::MacroInvocation(mi),
        0 <= j < mi.args@.len(),
        mi.args@[j] == MacroArg::Ident(n),
        first_constant(c.constants@, n@) is Some,
    ensures
        first_pointer(derived_state(c).0, n@) is Some,
        forall|k: int, d: ConstantDefinition|
            0 <= k < c.constants@.len() && c.constants@[k].name@ == n@ && #[trigger] derived_constant(
                c.constants@[k],
                d,
                derived_state(c).0,
            ) ==> d.value is Literal,
{
    let s = constructor_state(c);
    let f = choose|fuel: nat| walk_macro(c, m, s, false, fuel) is Some;
    assert(walk_macro(c, m, s, false, f) is Some);
    lemma_walk_stmts_sets_argument_pointer(c, m.statements@, s, false, (f - 1) as nat, i, mi, j, n);
    lemma_has_first_pointer(derived_state(c).0, n@);
}

/// Whether the first constant named `name` is a free storage pointer.
pub open spec fn is_free_pointer(cs: Seq<ConstantDefinition>, name: Seq<char>) -> bool {
    first_constant(cs, name) matches Some(k) && k.value is FreeStoragePointer
}

/// How many of the pointers belong to free storage pointers.
pub open spec fn free_count(cs: Seq<ConstantDefinition>, ps: Seq<(Seq<char>, Seq<u8>)>) -> nat
    decreases ps.len(),
{
    if ps.len() == 0 {
        0
    } else {
        free_count(cs, ps.drop_last()) + if is_free_pointer(cs, ps.last().0) {
            1nat
        } else {
            0nat
        }
    }
}

/// The free storage pointers are numbered in the order they are set: the counter is how
/// many there are, and each one's word is the word of the number of those set before it.
pub open spec fn free_slots_numbered(cs: Seq<ConstantDefinition>, st: PointerState) -> bool {
    &&& st.1 == free_count(cs, st.0)
    &&& forall|i: int|
        0 <= i < st.0.len() && is_free_pointer(cs, (#[trigger] st.0[i]).0) ==> st.0[i].1
            == free_pointer_word(free_count(cs, st.0.take(i)))
}

proof fn lemma_assign_numbered(cs: Seq<ConstantDefinition>, name: Seq<char>, st: PointerState)
    requires
        free_slots_numbered(cs, st),
    ensures
        free_slots_numbered(cs, assign_pointer(cs, name, st)),
{
    if !has_pointer(st.0, name) {
        match first_constant(cs, name) {
            Some(k) => {
                let r = assign_pointer(cs, name, st);
                assert(r.0.drop_last() =~= st.0);
                assert forall|i: int|
                    0 <= i < r.0.len() && is_free_pointer(cs, (#[trigger] r.0[i]).0) implies r.0[i].1
                    == free_pointer_word(free_count(cs, r.0.take(i))) by {
                    if i < st.0.len() {
                        assert(r.0.take(i) =~= st.0.take(i));
                        assert(r.0[i] == st.0[i]);
                    } else {
                        assert(r.0.take(i) =~= st.0);
                    }
                }
            },
            None => {},
        }
    }
}

/// Counting the free storage pointers of longer prefixes never gives less, and a free
/// storage pointer at `i` is counted before `i + 1`.
proof fn lemma_free_count_prefix(cs: Seq<ConstantDefinition>, ps: Seq<(Seq<char>, Seq<u8>)>, i: int, j: int)
    requires
        0 <= i <= j <= ps.len(),
    ensures
        free_count(cs, ps.take(i)) <= free_count(cs, ps.take(j)),
        i < j && is_free_pointer(cs, ps[i].0) ==> free_count(cs, ps.take(i)) < free_count(
            cs,
            ps.take(j),
        ),
    decreases j - i,
{
    if i < j {
        lemma_free_count_prefix(cs, ps, i, j - 1);
        assert(ps.take(j).drop_last() =~= ps.take(j - 1));
        if i == j - 1 {
            assert(ps.take(j).last() == ps[i]);
        }
    }
}

/// Each free storage pointer gets a slot of its own: after the derivation, the words set
/// for constants that are free storage pointers are the words of `0, 1, 2, ...` in the order
/// they were set, and no two of them are equal.
pub proof fn lemma_free_pointer_slots(c: Contract)
    requires
        derivation_ends(c),
    ensures
        free_slots_numbered(c.constants@, derived_state(c)),
        forall|i: int, j: int|
            0 <= i < j < derived_state(c).0.len() && is_free_pointer(
                c.constants@,
                (#[trigger] derived_state(c).0[i]).0,
            ) && is_free_pointer(c.constants@, (#[trigger] derived_state(c).0[j]).0)
                ==> derived_state(c).0[i].1 != derived_state(c).0[j].1,
{
    let cs = c.constants@;
    let inv = |s: PointerState| free_slots_numbered(cs, s);
    assert forall|name: Seq<char>, st: PointerState| inv(st) implies #[trigger] inv(
        assign_pointer(cs, name, st),
    ) by {
        lemma_assign_numbered(cs, name, st);
    }
    assert(inv((Seq::empty(), 0)));
    lemma_derived_keeps(c, inv);
    let d = derived_state(c);
    assert(d.1 <= i32::MAX) by {
        match first_macro(c.macros@, main_name()) {
            Some(m) => {},
            None => {
                match first_macro(c.macros@, constructor_name()) {
                    Some(m) => {},
                    None => {},
                }
            },
        }
    }
    assert forall|i: int, j: int|
        0 <= i < j < d.0.len() && is_free_pointer(cs, (#[trigger] d.0[i]).0) && is_free_pointer(
            cs,
            (#[trigger] d.0[j]).0,
        ) implies d.0[i].1 != d.0[j].1 by {
        lemma_free_count_prefix(cs, d.0, i, j);
        lemma_free_count_prefix(cs, d.0, j, d.0.len() as int);
        assert(d.0.take(d.0.len() as int) =~= d.0);
        lemma_free_pointer_word_injective(free_count(cs, d.0.take(i)), free_count(cs, d.0.take(j)));
    }
}

/// What a walk from `st0` to `st` keeps: the pointers set before stay as they were, in
/// front; every pointer added names a constant; and the counter goes up by the number of
/// added pointers that belong to free storage pointers.
pub open spec fn walk_extends(cs: Seq<ConstantDefinition>, st0: PointerState, st: PointerState) -> bool {
    &&& st0.0.len() <= st.0.len()
    &&& st.0.take(st0.0.len() as int) == st0.0
    &&& forall|i: int| st0.0.len() <= i < st.0.len() ==> first_constant(cs, (#[trigger] st.0[i]).0) is Some
    &&& st.1 == st0.1 + free_count(cs, st.0.skip(st0.0.len() as int))
}

proof fn lemma_assign_extends(cs: Seq<ConstantDefinition>, st0: PointerState, name: Seq<char>, st: PointerState)
    requires
        walk_extends(cs, st0, st),
    ensures
        walk_extends(cs, st0, assign_pointer(cs, name, st)),
{
    if !has_pointer(st.0, name) {
        match first_constant(cs, name) {
            Some(k) => {
                let r = assign_pointer(cs, name, st);
                let n = st0.0.len() as int;
                assert(r.0.take(n) =~= st.0.take(n));
                assert(r.0.skip(n).drop_last() =~= st.0.skip(n));
                assert(r.0.skip(n).last() == r.0[r.0.len() - 1]);
                assert forall|i: int| n <= i < r.0.len() implies first_constant(cs, (#[trigger] r.0[i]).0) is Some by {
                    if i < st.0.len() {
                        assert(r.0[i] == st.0[i]);
                    }
                }
            },
            None => {},
        }
    }
}

/// A walk that ends keeps the pointers set before it, in front and unchanged; every pointer
/// it adds names a constant of the contract; it raises the counter by the number of added
/// pointers that belong to free storage pointers; and where no name had two pointers before
/// it, none has after it. (`recurse_ast_constants` leaves its pointers and counter as
/// `walked` gives them.)
pub proof fn lemma_walked_extends(c: Contract, m: MacroDefinition, st: PointerState, checking: bool)
    requires
        walk_ends(c, m, st, checking),
    ensures
        walk_extends(c.constants@, st, walked(c, m, st, checking)),
        names_distinct(st.0) ==> names_distinct(walked(c, m, st, checking).0),
{
    let cs = c.constants@;
    let fuel = choose|fuel: nat| walk_macro(c, m, st, checking, fuel) is Some;
    let inv = |s: PointerState| walk_extends(cs, st, s);
    assert forall|name: Seq<char>, s: PointerState| inv(s) implies #[trigger] inv(assign_pointer(cs, name, s)) by {
        lemma_assign_extends(cs, st, name, s);
    }
    assert(st.0.take(st.0.len() as int) =~= st.0);
    assert(st.0.skip(st.0.len() as int) =~= Seq::<(Seq<char>, Seq<u8>)>::empty());
    assert(inv(st));
    lemma_walk_macro_keeps(c, m, st, checking, fuel, inv);
    if names_distinct(st.0) {
        let dinv = |s: PointerState| names_distinct(s.0);
        assert forall|name: Seq<char>, s: PointerState| dinv(s) implies #[trigger] dinv(assign_pointer(cs, name, s)) by {
            lemma_assign_distinct(cs, name, s);
        }
        lemma_walk_macro_keeps(c, m, st, checking, fuel, dinv);
    }
}

/// The state the pointers and the counter stand for.
pub open spec fn state_of(sp: Seq<(String, [u8; 32])>, last: i32) -> PointerState {
    (pointer_entries(sp), last as int)
}

/// The pointers after walking the first macro named `CONSTRUCTOR` (if any) from no pointers
/// and counter `0`.
pub open spec fn constructor_state(c: Contract) -> PointerState {
    match first_macro(c.macros@, constructor_name()) {
        Some(m) => walked(c, m, (Seq::empty(), 0), false),
        None => (Seq::empty(), 0),
    }
}

/// The pointers after walking `CONSTRUCTOR` and then the first macro named `MAIN` (if any).
pub open spec fn derived_state(c: Contract) -> PointerState {
    let s = constructor_state(c);
    match first_macro(c.macros@, main_name()) {
        Some(m) => walked(c, m, s, false),
        None => s,
    }
}

/// When `derive_storage_pointers` returns: both walks end, and their free storage pointer
/// numbers fit in an `i32`.
pub open spec fn derivation_ends(c: Contract) -> bool {
    &&& (first_macro(c.macros@, constructor_name()) matches Some(m) ==> walk_ends(
        c,
        m,
        (Seq::empty(), 0),
        false,
    ) && walked(c, m, (Seq::empty(), 0), false).1 <= i32::MAX)
    &&& (first_macro(c.macros@, main_name()) matches Some(m) ==> walk_ends(
        c,
        m,
        constructor_state(c),
        false,
    ) && walked(c, m, constructor_state(c), false).1 <= i32::MAX)
}

/// A constant after the derivation: its value becomes the literal of the first pointer set
/// for its name; a constant without a pointer keeps its value.
pub open spec fn derived_constant(old_c: ConstantDefinition, new_c: ConstantDefinition, ps: Seq<(Seq<char>, Seq<u8>)>) -> bool {
    &&& new_c.name == old_c.name
    &&& new_c.span == old_c.span
    &&& match first_pointer(ps, old_c.name@) {
        Some(w) => new_c.value matches ConstVal::Literal(l) && l@ == w,
        None => new_c.value == old_c.value,
    }
}

/// The first position holding `name`, if any.
pub open spec fn name_position(cs: Seq<(Seq<char>, ConstVal)>, name: Seq<char>) -> Option<int>
    decreases cs.len(),
{
    if cs.len() == 0 {
        None
    } else if cs[0].0 == name {
        Some(0)
    } else {
        match name_position(cs.drop_first(), name) {
            Some(i) => Some(i + 1),
            None => None,
        }
    }
}

/// The constants (names and values) after the overrides, in order: the first constant of
/// an override's name takes its value as a literal; a name no constant has is added at the
/// end.
pub open spec fn overridden(cs: Seq<(Seq<char>, ConstVal)>, os: Seq<(Seq<char>, [u8; 32])>) -> Seq<(Seq<char>, ConstVal)>
    decreases os.len(),
{
    if os.len() == 0 {
        cs
    } else {
        let prev = overridden(cs, os.drop_last());
        let o = os.last();
        match name_position(prev, o.0) {
            Some(i) => prev.update(i, (o.0, ConstVal::Literal(o.1))),
            None => prev.push((o.0, ConstVal::Literal(o.1))),
        }
    }
}

proof fn lemma_first_constant_index(cs: Seq<(Seq<char>, ConstVal)>, name: Seq<char>, i: int)
    requires
        0 <= i < cs.len(),
        cs[i].0 == name,
        forall|j: int| 0 <= j < i ==> (#[trigger] cs[j]).0 != name,
    ensures
        name_position(cs, name) == Some(i),
    decreases i,
{
    if i > 0 {
        let t = cs.drop_first();
        assert forall|j: int| 0 <= j < i - 1 implies (#[trigger] t[j]).0 != name by {
            assert(t[j] == cs[j + 1]);
        }
        lemma_first_constant_index(t, name, i - 1);
    }
}

proof fn lemma_no_constant_index(cs: Seq<(Seq<char>, ConstVal)>, name: Seq<char>)
    requires
        forall|j: int| 0 <= j < cs.len() ==> (#[trigger] cs[j]).0 != name,
    ensures
        name_position(cs, name) is None,
    decreases cs.len(),
{
    if cs.len() > 0 {
        let t = cs.drop_first();
        assert forall|j: int| 0 <= j < t.len() implies (#[trigger] t[j]).0 != name by {
            assert(t[j] == cs[j + 1]);
        }
        lemma_no_constant_index(t, name);
    }
}

fn pointer_set(sp: &Vec<(String, [u8; 32])>, name: &String) -> (r: bool)
    ensures
        r == has_pointer(pointer_entries(sp@), name@),
{
    let ghost ps = pointer_entries(sp@);
    let mut i: usize = 0;
    while i < sp.len()
        invariant
            ps == pointer_entries(sp@),
            i <= sp@.len(),
            forall|j: int| 0 <= j < i ==> ps[j].0 != name@,
        decreases sp.len() - i,
    {
        assert(ps[i as int].0 == sp@[i as int].0@);
        if same_text(sp[i].0.as_str(), name.as_str()) {
            return true;
        }
        i = i + 1;
    }
    false
}

fn pointer_word(sp: &Vec<(String, [u8; 32])>, name: &String) -> (r: Option<[u8; 32]>)
    ensures
        match r {
            Some(w) => first_pointer(pointer_entries(sp@), name@) == Some(w@),
            None => first_pointer(pointer_entries(sp@), name@) is None,
        },
{
    let ghost ps = pointer_entries(sp@);
    let mut i: usize = 0;
    assert(ps.skip(0) =~= ps);
    while i < sp.len()
        invariant
            ps == pointer_entries(sp@),
            i <= sp@.len(),
            first_pointer(ps, name@) == first_pointer(ps.skip(i as int), name@),
        decreases sp.len() - i,
    {
        let ghost rest = ps.skip(i as int);
        assert(rest[0] == ps[i as int]);
        assert(ps[i as int] == (sp@[i as int].0@, sp@[i as int].1@));
        if same_text(sp[i].0.as_str(), name.as_str()) {
            return Some(sp[i].1);
        }
        assert(rest.drop_first() =~= ps.skip(i + 1));
        i = i + 1;
    }
    None
}

impl Contract {
    /// Returns the first macro that matches the provided name
    pub fn find_macro_by_name(&self, name: &str) -> (r: Option<&MacroDefinition>)
        ensures
            match r {
                Some(m) => first_macro(self.macros@, name@) == Some(*m),
                None => first_macro(self.macros@, name@) is None,
            },
    {
        let mut i: usize = 0;
        while i < self.macros.len()
            invariant
                i <= self.macros@.len(),
                forall|j: int| 0 <= j < i ==> (#[trigger] self.macros@[j]).name@ != name@,
            decreases self.macros.len() - i,
        {
            if same_text(self.macros[i].name.as_str(), name) {
                proof {
                    lemma_first_macro(self.macros@, name@, i as int);
                }
                return Some(&self.macros[i]);
            }
            i = i + 1;
        }
        proof {
            lemma_first_macro(self.macros@, name@, i as int);
        }
        None
    }

    /// Returns the first table that matches the provided name
    pub fn find_table_by_name(&self, name: &str) -> (r: Option<&TableDefinition>)
        ensures
            match r {
                Some(t) => first_table(self.tables@, name@) == Some(*t),
                None => first_table(self.tables@, name@) is None,
            },
    {
        let mut i: usize = 0;
        while i < self.tables.len()
            invariant
                i <= self.tables@.len(),
                forall|j: int| 0 <= j < i ==> (#[trigger] self.tables@[j]).name@ != name@,
            decreases self.tables.len() - i,
        {
            if same_text(self.tables[i].name.as_str(), name) {
                proof {
                    lemma_first_table(self.tables@, name@, i as int);
                }
                return Some(&self.tables[i]);
            }
            i = i + 1;
        }
        proof {
            lemma_first_table(self.tables@, name@, i as int);
        }
        None
    }

    fn constant_position(&self, name: &String) -> (r: Option<usize>)
        ensures
            match r {
                Some(i) => i < self.constants@.len() && first_constant(self.constants@, name@) == Some(
                    self.constants@[i as int],
                ) && self.constants@[i as int].name@ == name@ && forall|j: int|
                    0 <= j < i ==> (#[trigger] self.constants@[j]).name@ != name@,
                None => first_constant(self.constants@, name@) is None && forall|j: int|
                    0 <= j < self.constants@.len() ==> (#[trigger] self.constants@[j]).name@ != name@,
            },
    {
        let mut i: usize = 0;
        while i < self.constants.len()
            invariant
                i <= self.constants@.len(),
                forall|j: int| 0 <= j < i ==> (#[trigger] self.constants@[j]).name@ != name@,
            decreases self.constants.len() - i,
        {
            if same_text(self.constants[i].name.as_str(), name.as_str()) {
                proof {
                    lemma_first_constant(self.constants@, name@, i as int);
                }
                return Some(i);
            }
            i = i + 1;
        }
        proof {
            lemma_first_constant(self.constants@, name@, i as int);
        }
        None
    }

    /// Sets the storage pointer of the constant `const_name` unless one is set: to the
    /// literal of the first constant of that name, or, for a free storage pointer, to the
    /// word of the next number.
    fn assign_free_storage_pointers(
        &self,
        const_name: &String,
        storage_pointers: &mut Vec<(String, [u8; 32])>,
        last_p: &mut i32,
    )
        requires
            *old(last_p) >= 0 || assign_pointer(self.constants@, const_name@, state_of(old(storage_pointers)@, *old(last_p))).1
                == *old(last_p),
            assign_pointer(self.constants@, const_name@, state_of(old(storage_pointers)@, *old(last_p))).1 <= i32::MAX,
        ensures
            state_of(final(storage_pointers)@, *final(last_p)) == assign_pointer(
                self.constants@,
                const_name@,
                state_of(old(storage_pointers)@, *old(last_p)),
            ),
    {
        let ghost st = state_of(storage_pointers@, *last_p);
        if !pointer_set(storage_pointers, const_name) {
            match self.constant_position(const_name) {
                Some(i) => {
                    let new_value: [u8; 32] = match self.constants[i].value {
                        ConstVal::Literal(l) => l,
                        ConstVal::FreeStoragePointer(_) => {
                            let old_p = *last_p;
                            *last_p = *last_p + 1;
                            proof {
                                lemma_decimal_text(old_p as nat);
                                reveal_with_fuel(pow10, 11);
                                lemma_decimal_len(old_p as nat, 10);
                                lemma_decimal_digits_bytes32_ok(decimal_text(old_p as nat));
                            }
                            let text = string_of(&usize_text(old_p as usize));
                            str_to_bytes32(text.as_str())
                        },
                    };
                    let ghost before = storage_pointers@;
                    storage_pointers.push((const_name.clone(), new_value));
                    assert(pointer_entries(storage_pointers@) =~= pointer_entries(before).push(
                        (const_name@, new_value@),
                    ));
                },
                None => {},
            }
        }
    }

    /// Sets the pointers of the named constants, in order.
    fn assign_names(
        &self,
        names: &Vec<String>,
        storage_pointers: &mut Vec<(String, [u8; 32])>,
        last_p: &mut i32,
    )
        requires
            *old(last_p) >= 0 || assign_all(self.constants@, texts(names@), state_of(old(storage_pointers)@, *old(last_p))).1
                == *old(last_p),
            assign_all(self.constants@, texts(names@), state_of(old(storage_pointers)@, *old(last_p))).1 <= i32::MAX,
        ensures
            state_of(final(storage_pointers)@, *final(last_p)) == assign_all(
                self.constants@,
                texts(names@),
                state_of(old(storage_pointers)@, *old(last_p)),
            ),
            *final(last_p) >= *old(last_p),
    {
        let ghost st0 = state_of(storage_pointers@, *last_p);
        let ghost ns = texts(names@);
        let ghost l0 = *last_p;
        let mut i: usize = 0;
        assert(ns.take(0) =~= Seq::<Seq<char>>::empty());
        while i < names.len()
            invariant
                ns == texts(names@),
                i <= names@.len(),
                l0 == st0.1,
                l0 >= 0 || assign_all(self.constants@, ns, st0).1 == l0,
                assign_all(self.constants@, ns, st0).1 <= i32::MAX,
                state_of(storage_pointers@, *last_p) == assign_all(self.constants@, ns.take(i as int), st0),
                *last_p >= l0,
            decreases names.len() - i,
        {
            proof {
                lemma_assign_all_prefix(self.constants@, ns, st0, i + 1);
                lemma_assign_all_prefix(self.constants@, ns, st0, i as int);
                let t = ns.take(i + 1);
                assert(t.drop_last() =~= ns.take(i as int));
                assert(t.last() == names@[i as int]@);
            }
            self.assign_free_storage_pointers(&names[i], storage_pointers, last_p);
            i = i + 1;
        }
        assert(ns.take(names@.len() as int) =~= ns);
    }

    /// The names of the constants among macro arguments, once for each constant of the name.
    fn constant_arg_names(&self, args: &Vec<MacroArg>) -> (r: Vec<String>)
        ensures
            texts(r@) == constant_args(self.constants@, args@),
    {
        let mut r: Vec<String> = Vec::new();
        let mut i: usize = 0;
        assert(texts(r@) =~= Seq::<Seq<char>>::empty());
        while i < args.len()
            invariant
                i <= args@.len(),
                texts(r@) == constant_args(self.constants@, args@.take(i as int)),
            decreases args.len() - i,
        {
            proof {
                let t = args@.take(i + 1);
                assert(t.drop_last() =~= args@.take(i as int));
                assert(t.last() == args@[i as int]);
            }
            match &args[i] {
                MacroArg::Ident(name) => {
                    let ghost base = texts(r@);
                    let mut j: usize = 0;
                    assert(self.constants@.take(0) =~= Seq::<ConstantDefinition>::empty());
                    assert(base + matching_names(self.constants@.take(0), name@) =~= base);
                    while j < self.constants.len()
                        invariant
                            j <= self.constants@.len(),
                            texts(r@) == base + matching_names(self.constants@.take(j as int), name@),
                        decreases self.constants.len() - j,
                    {
                        proof {
                            let t = self.constants@.take(j + 1);
                            assert(t.drop_last() =~= self.constants@.take(j as int));
                            assert(t.last() == self.constants@[j as int]);
                        }
                        if same_text(name.as_str(), self.constants[j].name.as_str()) {
                            let ghost prev = r@;
                            r.push(name.clone());
                            assert(texts(r@) =~= texts(prev) + seq![name@]);
                            assert(texts(r@) =~= base + matching_names(self.constants@.take(j + 1), name@));
                        } else {
                            assert(texts(r@) =~= base + matching_names(self.constants@.take(j + 1), name@));
                        }
                        j = j + 1;
                    }
                    assert(self.constants@.take(self.constants@.len() as int) =~= self.constants@);
                },
                _ => {
                    assert(texts(r@) =~= texts(r@) + Seq::<Seq<char>>::empty());
                },
            }
            i = i + 1;
        }
        assert(args@.take(args@.len() as int) =~= args@);
        r
    }

    fn walk_macro_exec(
        &self,
        m: &MacroDefinition,
        sp: &mut Vec<(String, [u8; 32])>,
        last_p: &mut i32,
        checking: bool,
        Ghost(fuel): Ghost<nat>,
    )
        requires
            walk_macro(*self, *m, state_of(old(sp)@, *old(last_p)), checking, fuel) matches Some(r)
                && r.1 <= i32::MAX && (*old(last_p) >= 0 || r.1 == *old(last_p)),
        ensures
            Some(state_of(final(sp)@, *final(last_p))) == walk_macro(
                *self,
                *m,
                state_of(old(sp)@, *old(last_p)),
                checking,
                fuel,
            ),
        decreases fuel, 0int, 0int,
    {
        self.walk_stmts_exec(&m.statements, sp, last_p, checking, Ghost((fuel - 1) as nat));
    }

    fn walk_stmts_exec(
        &self,
        ss: &Vec<Statement>,
        sp: &mut Vec<(String, [u8; 32])>,
        last_p: &mut i32,
        checking: bool,
        Ghost(fuel): Ghost<nat>,
    )
        requires
            walk_stmts(*self, ss@, state_of(old(sp)@, *old(last_p)), checking, fuel) matches Some(r)
                && r.1 <= i32::MAX && (*old(last_p) >= 0 || r.1 == *old(last_p)),
        ensures
            Some(state_of(final(sp)@, *final(last_p))) == walk_stmts(
                *self,
                ss@,
                state_of(old(sp)@, *old(last_p)),
                checking,
                fuel,
            ),
        decreases fuel, 1int, 2 * stmts_size(ss@) + 1,
    {
        let ghost st0 = state_of(sp@, *last_p);
        let mut i: usize = 0;
        assert(ss@.take(0) =~= Seq::<Statement>::empty());
        while i < ss.len()
            invariant
                i <= ss@.len(),
                walk_stmts(*self, ss@, st0, checking, fuel) matches Some(r) && r.1 <= i32::MAX && ((st0.1 >= 0
                    && *last_p >= 0) || (r.1 == st0.1 && *last_p == st0.1)),
                walk_stmts(*self, ss@.take(i as int), st0, checking, fuel) == Some(state_of(sp@, *last_p)),
            decreases ss.len() - i,
        {
            proof {
                lemma_walk_stmts_prefix(*self, ss@, st0, checking, fuel, i + 1);
                let t = ss@.take(i + 1);
                assert(t.drop_last() =~= ss@.take(i as int));
                assert(t.last() == ss@[i as int]);
                lemma_stmt_size_le(ss@, i as int);
            }
            let ghost prev = state_of(sp@, *last_p);
            proof {
                lemma_walk_stmt_mono(*self, ss@[i as int], prev, checking, fuel);
            }
            self.walk_stmt_exec(&ss[i], sp, last_p, checking, Ghost(fuel));
            i = i + 1;
        }
        assert(ss@.take(ss@.len() as int) =~= ss@);
    }

    fn walk_stmt_exec(
        &self,
        s: &Statement,
        sp: &mut Vec<(String, [u8; 32])>,
        last_p: &mut i32,
        checking: bool,
        Ghost(fuel): Ghost<nat>,
    )
        requires
            walk_stmt(*self, *s, state_of(old(sp)@, *old(last_p)), checking, fuel) matches Some(r)
                && r.1 <= i32::MAX && (*old(last_p) >= 0 || r.1 == *old(last_p)),
        ensures
            Some(state_of(final(sp)@, *final(last_p))) == walk_stmt(
                *self,
                *s,
                state_of(old(sp)@, *old(last_p)),
                checking,
                fuel,
            ),
        decreases fuel, 1int, 2 * stmt_size(*s),
    {
        let ghost st0 = state_of(sp@, *last_p);
        match &s.ty {
            StatementType::Constant(name) => {
                self.assign_free_storage_pointers(name, sp, last_p);
            },
            StatementType::MacroInvocation(mi) => {
                let names = self.constant_arg_names(&mi.args);
                let ghost s1 = assign_all(self.constants@, texts(names@), st0);
                proof {
                    lemma_assign_all_mono(self.constants@, texts(names@), st0);
                    match first_macro(self.macros@, mi.macro_name@) {
                        Some(md) => lemma_invoke_mono(*self, md, s1, checking, fuel),
                        None => {},
                    }
                }
                self.assign_names(&names, sp, last_p);
                match self.find_macro_by_name(mi.macro_name.as_str()) {
                    Some(md) => {
                        self.invoke_exec(md, sp, last_p, checking, Ghost(fuel));
                    },
                    None => {},
                }
            },
            StatementType::BuiltinFunctionCall(b) => {
                self.walk_builtin_exec(&b.args, sp, last_p, checking, Ghost(fuel));
            },
            StatementType::Label(l) => {
                self.walk_stmts_exec(&l.inner, sp, last_p, checking, Ghost(fuel));
            },
            _ => {},
        }
    }

    fn walk_builtin_exec(
        &self,
        args: &Vec<Argument>,
        sp: &mut Vec<(String, [u8; 32])>,
        last_p: &mut i32,
        checking: bool,
        Ghost(fuel): Ghost<nat>,
    )
        requires
            walk_builtin_args(*self, args@, state_of(old(sp)@, *old(last_p)), checking, fuel) matches Some(r)
                && r.1 <= i32::MAX && (*old(last_p) >= 0 || r.1 == *old(last_p)),
        ensures
            Some(state_of(final(sp)@, *final(last_p))) == walk_builtin_args(
                *self,
                args@,
                state_of(old(sp)@, *old(last_p)),
                checking,
                fuel,
            ),
        decreases fuel, 0int, args@.len() + 2,
    {
        let ghost st0 = state_of(sp@, *last_p);
        let mut i: usize = 0;
        assert(args@.take(0) =~= Seq::<Argument>::empty());
        while i < args.len()
            invariant
                i <= args@.len(),
                walk_builtin_args(*self, args@, st0, checking, fuel) matches Some(r) && r.1 <= i32::MAX && ((
                st0.1 >= 0 && *last_p >= 0) || (r.1 == st0.1 && *last_p == st0.1)),
                walk_builtin_args(*self, args@.take(i as int), st0, checking, fuel) == Some(
                    state_of(sp@, *last_p),
                ),
            decreases args.len() - i,
        {
            proof {
                lemma_walk_builtin_prefix(*self, args@, st0, checking, fuel, i + 1);
                let t = args@.take(i + 1);
                assert(t.drop_last() =~= args@.take(i as int));
                assert(t.last() == args@[i as int]);
            }
            match &args[i].name {
                Some(n) => {
                    match self.find_macro_by_name(n.as_str()) {
                        Some(md) => {
                            proof {
                                lemma_invoke_mono(*self, *md, state_of(sp@, *last_p), checking, fuel);
                            }
                            self.invoke_exec(md, sp, last_p, checking, Ghost(fuel));
                        },
                        None => {},
                    }
                },
                None => {},
            }
            i = i + 1;
        }
        assert(args@.take(args@.len() as int) =~= args@);
    }

    fn invoke_exec(
        &self,
        md: &MacroDefinition,
        sp: &mut Vec<(String, [u8; 32])>,
        last_p: &mut i32,
        checking: bool,
        Ghost(fuel): Ghost<nat>,
    )
        requires
            invoke(*self, *md, state_of(old(sp)@, *old(last_p)), checking, fuel) matches Some(r)
                && r.1 <= i32::MAX && (*old(last_p) >= 0 || r.1 == *old(last_p)),
        ensures
            Some(state_of(final(sp)@, *final(last_p))) == invoke(
                *self,
                *md,
                state_of(old(sp)@, *old(last_p)),
                checking,
                fuel,
            ),
        decreases fuel, 0int, 1int,
    {
        let is_constructor = chars_eq(
            &chars_of(md.name.as_str()),
            &['C', 'O', 'N', 'S', 'T', 'R', 'U', 'C', 'T', 'O', 'R'],
        );
        proof {
            let lit = ['C', 'O', 'N', 'S', 'T', 'R', 'U', 'C', 'T', 'O', 'R'];
            assert(lit@ =~= constructor_name());
        }
        if is_constructor {
            if !checking {
                self.walk_macro_exec(md, sp, last_p, true, Ghost(fuel));
            }
        } else {
            self.walk_macro_exec(md, sp, last_p, checking, Ghost(fuel));
        }
    }

    /// Recurse down an AST Macro Definition to set Storage Pointers
    ///
    /// ## Overview
    ///
    /// For each statement in the macro definition:
    ///     - If it's a free storage pointer constant, set the constant value if not already set and
    ///       updated out `last_p` tracker value
    ///     - If it's a literal constant, we can set the constant value directly to the literal if
    ///       not already set
    ///     - If it's a macro invocation, look for the macro definition and recurse into that macro
    ///       definition using `recurse_ast_constants`
    ///
    /// A label's statements are walked where the label stands. The walk must end (macros must
    /// not invoke one another without end) and the free storage pointer numbers must fit in
    /// an `i32`; a negative counter is accepted where the walk numbers no free storage
    /// pointer (numbering one from a negative counter panics).
    pub fn recurse_ast_constants(
        &self,
        macro_def: &MacroDefinition,
        storage_pointers: &mut Vec<(String, [u8; 32])>,
        last_p: &mut i32,
        checking_constructor: bool,
    )
        requires
            walk_ends(*self, *macro_def, state_of(old(storage_pointers)@, *old(last_p)), checking_constructor),
            *old(last_p) >= 0 || walked(*self, *macro_def, state_of(old(storage_pointers)@, *old(last_p)), checking_constructor).1
                == *old(last_p),
            walked(*self, *macro_def, state_of(old(storage_pointers)@, *old(last_p)), checking_constructor).1
                <= i32::MAX,
        ensures
            state_of(final(storage_pointers)@, *final(last_p)) == walked(
                *self,
                *macro_def,
                state_of(old(storage_pointers)@, *old(last_p)),
                checking_constructor,
            ),
            *final(last_p) >= *old(last_p),
    {
        let ghost st0 = state_of(storage_pointers@, *last_p);
        let ghost fuel = choose|fuel: nat| walk_macro(*self, *macro_def, st0, checking_constructor, fuel) is Some;
        proof {
            lemma_walk_macro_mono(*self, *macro_def, st0, checking_constructor, fuel);
        }
        self.walk_macro_exec(macro_def, storage_pointers, last_p, checking_constructor, Ghost(fuel));
    }

    /// Derives the FreeStoragePointers into their bytes32 representation
    ///
    /// Walks `CONSTRUCTOR`, then `MAIN` (each where the contract has it), setting storage
    /// pointers from no pointers and counter `0`; then each constant with a pointer for its
    /// name takes that pointer's word as its literal value.
    pub fn derive_storage_pointers(&mut self)
        requires
            derivation_ends(*old(self)),
        ensures
            final(self).macros == old(self).macros,
            final(self).invocations == old(self).invocations,
            final(self).imports == old(self).imports,
            final(self).errors == old(self).errors,
            final(self).functions == old(self).functions,
            final(self).events == old(self).events,
            final(self).tables == old(self).tables,
            final(self).constants@.len() == old(self).constants@.len(),
            forall|i: int|
                0 <= i < old(self).constants@.len() ==> derived_constant(
                    #[trigger] old(self).constants@[i],
                    final(self).constants@[i],
                    derived_state(*old(self)).0,
                ),
    {
        let mut storage_pointers: Vec<(String, [u8; 32])> = Vec::new();
        let mut last_assigned_free_pointer: i32 = 0;
        let ghost c = *self;
        let ghost empty_state: PointerState = (Seq::empty(), 0);
        assert(state_of(storage_pointers@, last_assigned_free_pointer) =~= empty_state);
        proof {
            reveal_strlit("CONSTRUCTOR");
            reveal_strlit("MAIN");
            assert("CONSTRUCTOR"@ =~= constructor_name());
            assert("MAIN"@ =~= main_name());
        }
        match self.find_macro_by_name("CONSTRUCTOR") {
            Some(m) => self.recurse_ast_constants(
                m,
                &mut storage_pointers,
                &mut last_assigned_free_pointer,
                false,
            ),
            None => {},
        }
        assert(state_of(storage_pointers@, last_assigned_free_pointer) == constructor_state(c));
        match self.find_macro_by_name("MAIN") {
            Some(m) => self.recurse_ast_constants(
                m,
                &mut storage_pointers,
                &mut last_assigned_free_pointer,
                false,
            ),
            None => {},
        }
        assert(state_of(storage_pointers@, last_assigned_free_pointer) == derived_state(c));
        let ghost ps = derived_state(c).0;
        let mut i: usize = 0;
        while i < self.constants.len()
            invariant
                ps == pointer_entries(storage_pointers@),
                self.macros == c.macros,
                self.invocations == c.invocations,
                self.imports == c.imports,
                self.errors == c.errors,
                self.functions == c.functions,
                self.events == c.events,
                self.tables == c.tables,
                self.constants@.len() == c.constants@.len(),
                i <= self.constants@.len(),
                forall|j: int| 0 <= j < i ==> derived_constant(#[trigger] c.constants@[j], self.constants@[j], ps),
                forall|j: int| i <= j < self.constants@.len() ==> #[trigger] self.constants@[j] == c.constants@[j],
            decreases self.constants.len() - i,
        {
            match pointer_word(&storage_pointers, &self.constants[i].name) {
                Some(w) => {
                    let ghost old_vec = self.constants@;
                    let mut cd = self.constants.remove(i);
                    cd.value = ConstVal::Literal(w);
                    self.constants.insert(i, cd);
                    assert(self.constants@ =~= old_vec.update(i as int, cd));
                },
                None => {},
            }
            i = i + 1;
        }
    }

    /// Add override constants to the AST
    ///
    /// ## Overview
    ///
    /// For each override constant, in order of name, the first constant of that name takes
    /// its value as a literal, or, where there is none, a constant with that name and value
    /// is added at the end. Override constants can be passed in via the CLI.
    pub fn add_override_constants(&mut self, override_constants: &Option<NameMap<[u8; 32]>>)
        ensures
            final(self).macros == old(self).macros,
            final(self).invocations == old(self).invocations,
            final(self).imports == old(self).imports,
            final(self).errors == old(self).errors,
            final(self).functions == old(self).functions,
            final(self).events == old(self).events,
            final(self).tables == old(self).tables,
            old(self).constants@.len() <= final(self).constants@.len(),
            forall|i: int|
                0 <= i < old(self).constants@.len() ==> (#[trigger] final(self).constants@[i]).span
                    == old(self).constants@[i].span,
            forall|i: int|
                old(self).constants@.len() <= i < final(self).constants@.len() ==> (
                #[trigger] final(self).constants@[i]).span.0@ == Seq::<Span>::empty(),
            final(self).constants@.map_values(|cd: ConstantDefinition| (cd.name@, cd.value))
                == match override_constants {
                Some(m) => overridden(
                    old(self).constants@.map_values(|cd: ConstantDefinition| (cd.name@, cd.value)),
                    m.entry_seq(),
                ),
                None => old(self).constants@.map_values(|cd: ConstantDefinition| (cd.name@, cd.value)),
            },
    {
        match override_constants {
            Some(m) => {
                let es = m.entries();
                let ghost all = m.entry_seq();
                let ghost start = self.constants@.map_values(|cd: ConstantDefinition| (cd.name@, cd.value));
                let ghost orig = self.constants@;
                let mut k: usize = 0;
                assert(all.take(0) =~= Seq::<(Seq<char>, [u8; 32])>::empty());
                while k < es.len()
                    invariant
                        es@.map_values(|e: (String, [u8; 32])| (e.0@, e.1)) == all,
                        k <= es@.len(),
                        orig == old(self).constants@,
                        self.macros == old(self).macros,
                        self.invocations == old(self).invocations,
                        self.imports == old(self).imports,
                        self.errors == old(self).errors,
                        self.functions == old(self).functions,
                        self.events == old(self).events,
                        self.tables == old(self).tables,
                        orig.len() <= self.constants@.len(),
                        forall|i: int| 0 <= i < orig.len() ==> (#[trigger] self.constants@[i]).span == orig[i].span,
                        forall|i: int|
                            orig.len() <= i < self.constants@.len() ==> (#[trigger] self.constants@[i]).span.0@
                                == Seq::<Span>::empty(),
                        self.constants@.map_values(|cd: ConstantDefinition| (cd.name@, cd.value))
                            == overridden(start, all.take(k as int)),
                    decreases es.len() - k,
                {
                    let name = &es[k].0;
                    let value = es[k].1;
                    let ghost before = self.constants@.map_values(|cd: ConstantDefinition| (cd.name@, cd.value));
                    proof {
                        let t = all.take(k + 1);
                        assert(t.drop_last() =~= all.take(k as int));
                        assert(t.last() == (name@, value));
                    }
                    match self.constant_position(name) {
                        Some(i) => {
                            let ghost old_vec = self.constants@;
                            proof {
                                assert forall|j: int| 0 <= j < i implies (#[trigger] before[j]).0 != name@ by {
                                    assert(before[j] == (old_vec[j].name@, old_vec[j].value));
                                }
                                lemma_first_constant_index(before, name@, i as int);
                            }
                            let mut cd = self.constants.remove(i);
                            cd.value = ConstVal::Literal(value);
                            self.constants.insert(i, cd);
                            assert(self.constants@ =~= old_vec.update(i as int, cd));
                            assert(self.constants@.map_values(|cd: ConstantDefinition| (cd.name@, cd.value))
                                =~= before.update(i as int, (name@, ConstVal::Literal(value))));
                        },
                        None => {
                            proof {
                                assert forall|j: int| 0 <= j < before.len() implies (#[trigger] before[j]).0 != name@ by {
                                    assert(before[j] == (self.constants@[j].name@, self.constants@[j].value));
                                }
                            }
                            self.constants.push(
                                ConstantDefinition {
                                    name: name.clone(),
                                    value: ConstVal::Literal(value),
                                    span: AstSpan(Vec::new()),
                                },
                            );
                            proof {
                                lemma_no_constant_index(before, name@);
                            }
                            assert(self.constants@.map_values(|cd: ConstantDefinition| (cd.name@, cd.value))
                                =~= before.push((name@, ConstVal::Literal(value))));
                        },
                    }
                    k = k + 1;
                }
                assert(all.take(es@.len() as int) =~= all);
            },
            None => {},
        }
    }
}

} // verus!

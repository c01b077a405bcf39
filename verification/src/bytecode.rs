//! Bytecode Traits
//!
//! Abstract translating state into bytecode.

use vstd::prelude::*;

use crate::ast::{AstSpan, Statement, TableDefinition};
use crate::evm_version::EVMVersion;
use crate::name_map::NameMap;
use crate::text::{chars_of, push_vec, string_of};

verus! {

/// A string of Bytes
#[derive(Debug, Clone, PartialEq, Eq, PartialOrd, Ord)]
pub struct Bytes(pub String);

/// Intermediate Bytecode Representation
#[derive(Debug, Clone)]
pub struct IRBytes<'a> {
    /// The type of IRByte
    pub ty: IRByteType,
    /// The Span of the IRBytes
    pub span: &'a AstSpan,
}

/// IRBytes Type
#[derive(Debug, Clone)]
pub enum IRByteType {
    /// Bytes
    Bytes(Bytes),
    /// Macro Statement to be expanded
    Statement(Statement),
    /// A Constant to be referenced
    Constant(String),
    /// An Arg Call needs to use the calling macro context
    ArgCall(String),
}

/// Full Intermediate Bytecode Representation
#[derive(Debug, Clone)]
pub struct IRBytecode<'a>(pub Vec<IRBytes<'a>>);

/// ToIRBytecode
///
/// Converts a stateful object to intermediate bytecode
pub trait ToIRBytecode<E> {
    /// Translates `self` to intermediate bytecode representation
    fn to_irbytecode(&self, evm_version: &EVMVersion) -> Result<IRBytecode, E>;
}

/// Full Bytecode
#[derive(Debug, Clone, PartialEq, Eq, PartialOrd, Ord)]
pub struct Bytecode(pub String);

/// ToBytecode
///
/// Converts a stateful object to bytecode
pub trait ToBytecode<'a, E> {
    /// Translates `self` to a bytecode string
    fn to_bytecode(&self) -> Result<Bytecode, E>;
}

/// The byte strings one after another.
pub open spec fn joined_bytes(b: Seq<Bytes>) -> Seq<char>
    decreases b.len(),
{
    if b.len() == 0 {
        Seq::empty()
    } else {
        joined_bytes(b.drop_last()) + b.last().0@
    }
}

/// The lengths of the byte strings added up.
pub open spec fn total_len(b: Seq<Bytes>) -> nat
    decreases b.len(),
{
    if b.len() == 0 {
        0
    } else {
        total_len(b.drop_last()) + b.last().0@.len()
    }
}

/// Joining byte strings loses and adds nothing: the result is as long as the strings put
/// together, and each string stands in it, unchanged, right after all the strings before
/// it (the `i`-th starts at the sum of the lengths of those before it).
pub proof fn lemma_joined_bytes_in_order(b: Seq<Bytes>, i: int)
    requires
        0 <= i < b.len(),
    ensures
        joined_bytes(b).len() == total_len(b),
        total_len(b.take(i)) + b[i].0@.len() <= total_len(b),
        joined_bytes(b).subrange(total_len(b.take(i)) as int, (total_len(b.take(i)) + b[i].0@.len()) as int)
            == b[i].0@,
    decreases b.len(),
{
    lemma_joined_len(b);
    let p = b.drop_last();
    lemma_joined_len(p);
    if i == b.len() - 1 {
        assert(b.take(i) =~= p);
    } else {
        lemma_joined_bytes_in_order(p, i);
        assert(p.take(i) =~= b.take(i));
        assert(p[i] == b[i]);
        let off = total_len(b.take(i)) as int;
        assert(joined_bytes(b).subrange(off, off + b[i].0@.len()) =~= joined_bytes(p).subrange(
            off,
            off + b[i].0@.len(),
        ));
    }
}

/// The joined strings are as long as the strings added up.
proof fn lemma_joined_len(b: Seq<Bytes>)
    ensures
        joined_bytes(b).len() == total_len(b),
    decreases b.len(),
{
    if b.len() > 0 {
        lemma_joined_len(b.drop_last());
    }
}

impl Bytecode {
    /// The bytecode of the byte strings one after another.
    pub fn from(b: Vec<Bytes>) -> (r: Self)
        ensures
            r.0@ == joined_bytes(b@),
    {
        let mut acc: Vec<char> = Vec::new();
        let mut i: usize = 0;
        assert(b@.take(0) =~= Seq::<Bytes>::empty());
        while i < b.len()
            invariant
                i <= b@.len(),
                acc@ == joined_bytes(b@.take(i as int)),
            decreases b.len() - i,
        {
            proof {
                let t = b@.take(i + 1);
                assert(t.drop_last() =~= b@.take(i as int));
                assert(t.last() == b@[i as int]);
            }
            push_vec(&mut acc, &chars_of(b[i].0.as_str()));
            i = i + 1;
        }
        assert(b@.take(b@.len() as int) =~= b@);
        Bytecode(string_of(&acc))
    }
}

/// A Jump
#[derive(Debug, Clone, PartialEq, Eq, PartialOrd, Ord)]
pub struct Jump {
    /// Jump's Label
    pub label: String,
    /// Index of jump within bytecode
    pub bytecode_index: usize,
    /// The Jump Span
    pub span: AstSpan,
}

/// Type for a vec of `Jump`s
pub type Jumps = Vec<Jump>;

/// Type to map `Jump` labels to their bytecode indices
pub type LabelIndices = NameMap<usize>;

/// Result type for the code generator's bytecode recursion.
#[derive(Debug, Clone)]
pub struct BytecodeRes {
    /// Resulting bytes
    pub bytes: Vec<(usize, Bytes)>,
    /// Jump Indices
    pub label_indices: LabelIndices,
    /// Unmatched Jumps
    pub unmatched_jumps: Jumps,
    /// Table Instances
    pub table_instances: Jumps,
    /// Utilized Tables
    pub utilized_tables: Vec<TableDefinition>,
}

} // verus!

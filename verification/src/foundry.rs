//! `foundry.toml` reading support: the parsed document, the remappings and the EVM version
//! found in its profiles.

use vstd::prelude::*;

use crate::name_map::NameMap;
use crate::text::{chars_eq, chars_of, opt_text, split_first, split_first_chars, string_of, texts, lemma_texts_concat};

verus! {

/// Declares toml's parsed value, which the parser hands over before it is converted.
#[verifier::external_type_specification]
#[verifier::external_body]
pub struct ExTomlValue(toml::Value);

/// The document that toml (`str::parse::<toml::Value>`) reads from a text, converted to a
/// [`TomlValue`]; `None` where the text is no TOML document.
pub uninterp spec fn toml_document(text: Seq<char>) -> Option<TomlValue>;

/// `text.parse::<toml::Value>()` (toml), its result converted to a [`TomlValue`].
///
/// Claims only that the result is the named document of the text.
#[verifier::external_body]
pub(crate) fn parse_toml_text(text: &str) -> (r: Option<TomlValue>)
    ensures
        r == toml_document(text@),
{
    text.parse::<toml::Value>().ok().map(|v| toml_value_of(&v))
}

/// A toml value as a [`TomlValue`], one for one: strings, arrays and tables (entries in the
/// order toml's map gives them); every other value is `Other`.
#[verifier::external_body]
fn toml_value_of(v: &toml::Value) -> TomlValue {
    match v {
        toml::Value::String(s) => TomlValue::String(s.clone()),
        toml::Value::Array(items) => TomlValue::Array(items.iter().map(toml_value_of).collect()),
        toml::Value::Table(t) => TomlValue::Table(t.iter().map(|(k, x)| (k.clone(), toml_value_of(x))).collect()),
        _ => TomlValue::Other,
    }
}

/// The document of an optional `foundry.toml` text: none where there is no text or it is no
/// TOML document.
pub open spec fn foundry_document(text: Option<&str>) -> Option<TomlValue> {
    match text {
        Some(t) => toml_document(t@),
        None => None,
    }
}

/// A parsed TOML value, holding what the configuration readers look at: strings, arrays and
/// tables (with their entries in the order that toml's table map gives them, which is by
/// key). Every other kind of value is `Other`.
#[derive(Debug, PartialEq, Eq)]
pub enum TomlValue {
    /// A string.
    String(String),
    /// An array.
    Array(Vec<TomlValue>),
    /// A table: its keys and values.
    Table(Vec<(String, TomlValue)>),
    /// A number, boolean or date.
    Other,
}

/// `remappings`
pub open spec fn remappings_key() -> Seq<char> {
    seq!['r', 'e', 'm', 'a', 'p', 'p', 'i', 'n', 'g', 's']
}

/// `evm_version`
pub open spec fn evm_version_key() -> Seq<char> {
    seq!['e', 'v', 'm', '_', 'v', 'e', 'r', 's', 'i', 'o', 'n']
}

/// The keys whose values are looked at: `remappings`, and `evm_version` too where
/// `with_evm`.
pub open spec fn wanted_key(k: Seq<char>, with_evm: bool) -> bool {
    k == remappings_key() || (with_evm && k == evm_version_key())
}

/// The strings among `xs`, in order.
pub open spec fn string_texts(xs: Seq<TomlValue>) -> Seq<Seq<char>>
    decreases xs.len(),
{
    if xs.len() == 0 {
        Seq::empty()
    } else {
        string_texts(xs.drop_last()) + match xs.last() {
            TomlValue::String(s) => seq![s@],
            _ => Seq::empty(),
        }
    }
}

/// What a wanted value gives: the strings of an array where `from_arrays`, the string
/// itself otherwise.
pub open spec fn leaf_texts(v: TomlValue, from_arrays: bool) -> Seq<Seq<char>> {
    if from_arrays {
        match v {
            TomlValue::Array(xs) => string_texts(xs@),
            _ => Seq::empty(),
        }
    } else {
        match v {
            TomlValue::String(s) => seq![s@],
            _ => Seq::empty(),
        }
    }
}

/// What the wanted entries of a section give, in order.
pub open spec fn section_texts(es: Seq<(String, TomlValue)>, with_evm: bool, from_arrays: bool) -> Seq<Seq<char>>
    decreases es.len(),
{
    if es.len() == 0 {
        Seq::empty()
    } else {
        section_texts(es.drop_last(), with_evm, from_arrays) + if wanted_key(es.last().0@, with_evm) {
            leaf_texts(es.last().1, from_arrays)
        } else {
            Seq::empty()
        }
    }
}

/// What the sections (the tables among its values) of a profile give, in order.
pub open spec fn profile_texts(es: Seq<(String, TomlValue)>, with_evm: bool, from_arrays: bool) -> Seq<Seq<char>>
    decreases es.len(),
{
    if es.len() == 0 {
        Seq::empty()
    } else {
        profile_texts(es.drop_last(), with_evm, from_arrays) + match es.last().1 {
            TomlValue::Table(t) => section_texts(t@, with_evm, from_arrays),
            _ => Seq::empty(),
        }
    }
}

/// What the profiles (the tables among the top-level values) give, in order.
pub open spec fn config_texts(es: Seq<(String, TomlValue)>, with_evm: bool, from_arrays: bool) -> Seq<Seq<char>>
    decreases es.len(),
{
    if es.len() == 0 {
        Seq::empty()
    } else {
        config_texts(es.drop_last(), with_evm, from_arrays) + match es.last().1 {
            TomlValue::Table(p) => profile_texts(p@, with_evm, from_arrays),
            _ => Seq::empty(),
        }
    }
}

/// What a parsed document gives; nothing unless it is a table.
pub open spec fn toml_texts(v: TomlValue, with_evm: bool, from_arrays: bool) -> Seq<Seq<char>> {
    match v {
        TomlValue::Table(es) => config_texts(es@, with_evm, from_arrays),
        _ => Seq::empty(),
    }
}

/// The map after inserting, in order, each remapping of `rs` that splits at `=` (its text
/// before the first `=` mapped to the text after it); the others are left out.
pub open spec fn with_remappings(m: Map<Seq<char>, Seq<char>>, rs: Seq<Seq<char>>) -> Map<Seq<char>, Seq<char>>
    decreases rs.len(),
{
    if rs.len() == 0 {
        m
    } else {
        let prev = with_remappings(m, rs.drop_last());
        match split_first(rs.last(), '=') {
            Some(pr) => prev.insert(pr.0, pr.1),
            None => prev,
        }
    }
}

/// A map of strings taken by their texts.
pub open spec fn text_map(m: Map<Seq<char>, String>) -> Map<Seq<char>, Seq<char>> {
    m.map_values(|s: String| s@)
}

fn is_wanted_key(k: &String, with_evm: bool) -> (r: bool)
    ensures
        r == wanted_key(k@, with_evm),
{
    let kc = chars_of(k.as_str());
    if chars_eq(&kc, &['r', 'e', 'm', 'a', 'p', 'p', 'i', 'n', 'g', 's']) {
        proof {
            let lit = ['r', 'e', 'm', 'a', 'p', 'p', 'i', 'n', 'g', 's'];
            assert(lit@ =~= remappings_key());
        }
        true
    } else if with_evm {
        proof {
            let lit = ['r', 'e', 'm', 'a', 'p', 'p', 'i', 'n', 'g', 's'];
            assert(lit@ =~= remappings_key());
        }
        let r = chars_eq(&kc, &['e', 'v', 'm', '_', 'v', 'e', 'r', 's', 'i', 'o', 'n']);
        proof {
            let lit = ['e', 'v', 'm', '_', 'v', 'e', 'r', 's', 'i', 'o', 'n'];
            assert(lit@ =~= evm_version_key());
        }
        r
    } else {
        proof {
            let lit = ['r', 'e', 'm', 'a', 'p', 'p', 'i', 'n', 'g', 's'];
            assert(lit@ =~= remappings_key());
        }
        false
    }
}

fn strings_of(xs: &Vec<TomlValue>) -> (r: Vec<String>)
    ensures
        texts(r@) == string_texts(xs@),
{
    let mut r: Vec<String> = Vec::new();
    let mut i: usize = 0;
    while i < xs.len()
        invariant
            i <= xs@.len(),
            texts(r@) == string_texts(xs@.take(i as int)),
        decreases xs.len() - i,
    {
        proof {
            assert(xs@.take(i + 1).drop_last() =~= xs@.take(i as int));
        }
        match &xs[i] {
            TomlValue::String(s) => {
                let ghost before = r@;
                r.push(s.clone());
                assert(texts(r@) =~= texts(before) + seq![s@]);
            },
            _ => {
                assert(texts(r@) =~= texts(r@) + Seq::<Seq<char>>::empty());
            },
        }
        i = i + 1;
    }
    assert(xs@.take(xs@.len() as int) =~= xs@);
    r
}

fn leaf_strings(v: &TomlValue, from_arrays: bool) -> (r: Vec<String>)
    ensures
        texts(r@) == leaf_texts(*v, from_arrays),
{
    let mut r: Vec<String> = Vec::new();
    if from_arrays {
        match v {
            TomlValue::Array(xs) => {
                r = strings_of(xs);
            },
            _ => {
                assert(texts(r@) =~= Seq::<Seq<char>>::empty());
            },
        }
    } else {
        match v {
            TomlValue::String(s) => {
                r.push(s.clone());
                assert(texts(r@) =~= seq![s@]);
            },
            _ => {
                assert(texts(r@) =~= Seq::<Seq<char>>::empty());
            },
        }
    }
    r
}

fn section_strings(es: &Vec<(String, TomlValue)>, with_evm: bool, from_arrays: bool) -> (r: Vec<String>)
    ensures
        texts(r@) == section_texts(es@, with_evm, from_arrays),
{
    let mut r: Vec<String> = Vec::new();
    let mut i: usize = 0;
    assert(texts(r@) =~= Seq::<Seq<char>>::empty());
    while i < es.len()
        invariant
            i <= es@.len(),
            texts(r@) == section_texts(es@.take(i as int), with_evm, from_arrays),
        decreases es.len() - i,
    {
        proof {
            assert(es@.take(i + 1).drop_last() =~= es@.take(i as int));
        }
        let ghost before = r@;
        let mut part: Vec<String> = Vec::new();
        if is_wanted_key(&es[i].0, with_evm) {
            part = leaf_strings(&es[i].1, from_arrays);
        } else {
            assert(texts(part@) =~= Seq::<Seq<char>>::empty());
        }
        let ghost p = part@;
        r.append(&mut part);
        proof {
            lemma_texts_concat(before, p);
        }
        i = i + 1;
    }
    assert(es@.take(es@.len() as int) =~= es@);
    r
}

fn profile_strings(es: &Vec<(String, TomlValue)>, with_evm: bool, from_arrays: bool) -> (r: Vec<String>)
    ensures
        texts(r@) == profile_texts(es@, with_evm, from_arrays),
{
    let mut r: Vec<String> = Vec::new();
    let mut i: usize = 0;
    assert(texts(r@) =~= Seq::<Seq<char>>::empty());
    while i < es.len()
        invariant
            i <= es@.len(),
            texts(r@) == profile_texts(es@.take(i as int), with_evm, from_arrays),
        decreases es.len() - i,
    {
        proof {
            assert(es@.take(i + 1).drop_last() =~= es@.take(i as int));
        }
        let ghost before = r@;
        let mut part: Vec<String> = Vec::new();
        match &es[i].1 {
            TomlValue::Table(t) => {
                part = section_strings(t, with_evm, from_arrays);
            },
            _ => {
                assert(texts(part@) =~= Seq::<Seq<char>>::empty());
            },
        }
        let ghost p = part@;
        r.append(&mut part);
        proof {
            lemma_texts_concat(before, p);
        }
        i = i + 1;
    }
    assert(es@.take(es@.len() as int) =~= es@);
    r
}

/// The strings found in a parsed document: for each profile (a table among the top-level
/// values), for each section (a table among the profile's values), the values under the
/// wanted keys (`remappings`, and `evm_version` too where `with_evm`), taken as the strings
/// of an array where `from_arrays`, or as a string otherwise.
pub fn toml_strings(v: &TomlValue, with_evm: bool, from_arrays: bool) -> (r: Vec<String>)
    ensures
        texts(r@) == toml_texts(*v, with_evm, from_arrays),
{
    let mut r: Vec<String> = Vec::new();
    match v {
        TomlValue::Table(es) => {
            let mut i: usize = 0;
            assert(texts(r@) =~= Seq::<Seq<char>>::empty());
            while i < es.len()
                invariant
                    i <= es@.len(),
                    texts(r@) == config_texts(es@.take(i as int), with_evm, from_arrays),
                decreases es.len() - i,
            {
                proof {
                    assert(es@.take(i + 1).drop_last() =~= es@.take(i as int));
                }
                let ghost before = r@;
                let mut part: Vec<String> = Vec::new();
                match &es[i].1 {
                    TomlValue::Table(p) => {
                        part = profile_strings(p, with_evm, from_arrays);
                    },
                    _ => {
                        assert(texts(part@) =~= Seq::<Seq<char>>::empty());
                    },
                }
                let ghost p = part@;
                r.append(&mut part);
                proof {
                    lemma_texts_concat(before, p);
                }
                i = i + 1;
            }
            assert(es@.take(es@.len() as int) =~= es@);
        },
        _ => {
            assert(texts(r@) =~= Seq::<Seq<char>>::empty());
        },
    }
    r
}

/// Inserting into a map of strings inserts the text into its text map.
pub proof fn lemma_text_map_insert(m: Map<Seq<char>, String>, k: Seq<char>, v: String)
    ensures
        text_map(m.insert(k, v)) == text_map(m).insert(k, v@),
{
    assert(text_map(m.insert(k, v)) =~= text_map(m).insert(k, v@));
}

/// Inserts, in order, each remapping of `rs` that splits at `=`.
pub fn insert_remappings(inner: &mut NameMap<String>, rs: &Vec<String>)
    requires
        old(inner).wf(),
    ensures
        final(inner).wf(),
        text_map(final(inner).view()) == with_remappings(text_map(old(inner).view()), texts(rs@)),
{
    let ghost m0 = text_map(inner.view());
    let mut i: usize = 0;
    while i < rs.len()
        invariant
            inner.wf(),
            i <= rs@.len(),
            text_map(inner.view()) == with_remappings(m0, texts(rs@.take(i as int))),
        decreases rs.len() - i,
    {
        proof {
            assert(texts(rs@.take(i + 1)).drop_last() =~= texts(rs@.take(i as int)));
            assert(texts(rs@.take(i + 1)).last() == rs@[i as int]@);
        }
        match split_first_chars(&chars_of(rs[i].as_str()), '=') {
            Some(pr) => {
                let from = string_of(&pr.0);
                let to = string_of(&pr.1);
                proof {
                    lemma_text_map_insert(inner.view(), from@, to);
                }
                inner.insert(from, to);
            },
            None => {},
        }
        i = i + 1;
    }
    assert(rs@.take(rs@.len() as int) =~= rs@);
}

/// Both parts of an optional pair of strings, taken by their texts.
pub open spec fn pair_texts(p: Option<(String, String)>) -> Option<(Seq<char>, Seq<char>)> {
    match p {
        Some(pr) => Some((pr.0@, pr.1@)),
        None => None,
    }
}

/// The first of the texts, if any.
pub open spec fn first_text(ts: Seq<Seq<char>>) -> Option<Seq<char>> {
    if ts.len() > 0 {
        Some(ts[0])
    } else {
        None
    }
}

/// Breaks a remapping apart at its first `=`: the text before it and the text after it;
/// `None` where there is no `=`.
pub fn split_remapping(remapping: &str) -> (r: Option<(String, String)>)
    ensures
        pair_texts(r) == split_first(remapping@, '='),
{
    match split_first_chars(&chars_of(remapping), '=') {
        Some(pr) => Some((string_of(&pr.0), string_of(&pr.1))),
        None => None,
    }
}

/// Foundry.toml reading support
pub struct FoundryConfig {
    /// The remappings
    pub remappings: NameMap<String>,
    /// The evm version
    pub evm_version: Option<String>,
}

impl FoundryConfig {
    /// The settings read from the text of a `foundry.toml` (none where there is no text or it
    /// is no TOML document): the remappings in the arrays under `remappings` or
    /// `evm_version` in the sections of its profiles, and, as the EVM version, the first
    /// string found under those keys.
    pub fn new(foundry_toml: Option<&str>) -> (r: Self)
        ensures
            r.remappings.wf(),
            text_map(r.remappings.view()) == match foundry_document(foundry_toml) {
                Some(v) => with_remappings(Map::empty(), toml_texts(v, true, true)),
                None => Map::empty(),
            },
            opt_text(r.evm_version) == match foundry_document(foundry_toml) {
                Some(v) => first_text(toml_texts(v, true, false)),
                None => None,
            },
    {
        let mut config = FoundryConfig { remappings: NameMap::new(), evm_version: None };
        proof {
            assert(text_map(config.remappings.view()) =~= Map::<Seq<char>, Seq<char>>::empty());
        }
        match foundry_toml {
            Some(t) => config.parse_toml(t),
            None => {},
        }
        config
    }

    /// Helper to break apart a remapping gracefully
    pub fn split_remappings(remapping: &str) -> (r: Option<(String, String)>)
        ensures
            pair_texts(r) == split_first(remapping@, '='),
    {
        split_remapping(remapping)
    }

    /// Reads the settings of the text of a `foundry.toml`: where it is a TOML document, sets
    /// the EVM version to the first string found under `remappings` or `evm_version` in the
    /// sections of its profiles (none if there is none), and inserts, in order, the
    /// remappings in the arrays found there; a text that is no TOML document changes nothing.
    pub fn parse_toml(&mut self, text: &str)
        requires
            old(self).remappings.wf(),
        ensures
            final(self).remappings.wf(),
            match toml_document(text@) {
                Some(v) => text_map(final(self).remappings.view()) == with_remappings(
                    text_map(old(self).remappings.view()),
                    toml_texts(v, true, true),
                ) && opt_text(final(self).evm_version) == first_text(toml_texts(v, true, false)),
                None => *final(self) == *old(self),
            },
    {
        match parse_toml_text(text) {
            Some(toml) => {
                let versions = toml_strings(&toml, true, false);
                if versions.len() > 0 {
                    assert(texts(versions@)[0] == versions@[0]@);
                    self.evm_version = Some(versions[0].clone());
                } else {
                    self.evm_version = None;
                }
                let remappings = toml_strings(&toml, true, true);
                insert_remappings(&mut self.remappings, &remappings);
            },
            None => {},
        }
    }

    /// Kept for callers; it reads nothing.
    pub fn parse_remappings() {
    }
}

} // verus!

//! External configuration options, such as remappings and the EVM version.

use vstd::prelude::*;

use crate::abi::split_on;
use crate::evm_version::{version_named, EVMVersion};
use crate::files::{remap_path, remap_with, Remapper as RemapperFiles};
use crate::foundry::{first_text, foundry_document, text_map, toml_texts, with_remappings, FoundryConfig};
use crate::name_map::NameMap;
use crate::remapper::Remapper;
use crate::text::{chars_of, opt_text, string_of};

verus! {

/// Stores external configuration options, such as remappings and evm version.
#[derive(Debug)]
pub struct HuffConfig {
    /// The base directory
    pub base_dir: String,
    /// The EVM version
    pub evm_version: EVMVersion,
    /// The remappings
    pub remappings: NameMap<String>,
}

/// The texts of a union of string maps are the union of their texts.
pub proof fn lemma_text_map_union(a: Map<Seq<char>, String>, b: Map<Seq<char>, String>)
    ensures
        text_map(a.union_prefer_right(b)) == text_map(a).union_prefer_right(text_map(b)),
{
    assert(text_map(a.union_prefer_right(b)) =~= text_map(a).union_prefer_right(text_map(b)));
}

impl HuffConfig {
    /// The configuration of a project at `root`: the remappings of its `remappings.txt`
    /// (none where there is no file), then, replacing them where a name repeats, those of
    /// the text of its `foundry.toml` (none where there is no text or it is no TOML
    /// document), and the EVM version that document names (the default where it names none).
    pub fn new(root: &str, foundry_toml: Option<&str>, remappings_txt: Option<&str>) -> (r: Self)
        ensures
            r.base_dir@ == root@,
            r.remappings.wf(),
            text_map(r.remappings.view()) == with_remappings(
                Map::empty(),
                match remappings_txt {
                    Some(t) => split_on(t@, '\n'),
                    None => Seq::empty(),
                },
            ).union_prefer_right(
                match foundry_document(foundry_toml) {
                    Some(v) => with_remappings(Map::empty(), toml_texts(v, true, true)),
                    None => Map::empty(),
                },
            ),
            r.evm_version.spec_version() == version_named(
                match foundry_document(foundry_toml) {
                    Some(v) => first_text(toml_texts(v, true, false)),
                    None => None,
                },
            ),
    {
        let base_dir = string_of(&chars_of(root));
        let foundry_config = FoundryConfig::new(foundry_toml);
        let file_remappings = remappings_from_file(remappings_txt);
        let mut remappings: NameMap<String> = NameMap::new();
        let ghost fv = file_remappings.view();
        let ghost cv = foundry_config.remappings.view();
        remappings.extend(file_remappings);
        remappings.extend(foundry_config.remappings);
        proof {
            assert(Map::<Seq<char>, String>::empty().union_prefer_right(fv) =~= fv);
            lemma_text_map_union(fv, cv);
        }
        let evm_version = EVMVersion::from_name(&foundry_config.evm_version);
        HuffConfig { base_dir, evm_version, remappings }
    }

    /// A configuration with the given EVM version, an empty base directory and no
    /// remappings.
    pub fn from_evm_version(evm_version: EVMVersion) -> (r: Self)
        ensures
            r.base_dir@ == Seq::<char>::empty(),
            r.evm_version == evm_version,
            r.remappings.wf(),
            r.remappings.view() == Map::<Seq<char>, String>::empty(),
    {
        HuffConfig { base_dir: String::new(), evm_version, remappings: NameMap::new() }
    }
}

impl Remapper for HuffConfig {
    /// Tries to replace path segments in a string with our remappings
    fn remap(&self, path: &str) -> (r: Option<String>)
        ensures
            opt_text(r) == remap_with(self.remappings.entry_seq(), self.base_dir@, path@),
    {
        remap_path(&self.remappings, self.base_dir.as_str(), path)
    }
}

/// The remappings of a `remappings.txt` (none where there is no file): its lines that break
/// apart at `=`, later lines replacing earlier ones where a name repeats.
fn remappings_from_file(content: Option<&str>) -> (r: NameMap<String>)
    ensures
        r.wf(),
        text_map(r.view()) == with_remappings(
            Map::empty(),
            match content {
                Some(t) => split_on(t@, '\n'),
                None => Seq::empty(),
            },
        ),
{
    let mut remappings: NameMap<String> = NameMap::new();
    proof {
        assert(text_map(remappings.view()) =~= Map::<Seq<char>, Seq<char>>::empty());
    }
    match content {
        Some(t) => RemapperFiles::from_file(t, &mut remappings),
        None => {},
    }
    remappings
}

} // verus!

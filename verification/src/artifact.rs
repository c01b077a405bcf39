//! The artifacts generated from codegen.

use vstd::prelude::*;

use crate::abi::Abi;
use crate::files::FileSource;

verus! {

/// A Codegen Artifact
#[derive(Default, Debug, PartialEq, Eq, Clone)]
pub struct Artifact {
    /// The file source
    pub file: FileSource,
    /// The deployed bytecode
    pub bytecode: String,
    /// The runtime bytecode
    pub runtime: String,
    /// The abi
    pub abi: Option<Abi>,
}

} // verus!

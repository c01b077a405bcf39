//! Path remapping.

use vstd::prelude::*;

verus! {

/// Something that can rewrite import paths with its remappings.
pub trait Remapper {
    /// Tries to replace path segments in a string with the remappings; `None` where none
    /// applies.
    fn remap(&self, path: &str) -> Option<String>;
}

} // verus!

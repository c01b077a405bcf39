//! EVM versions: which features are available when compiling.

use vstd::prelude::*;

verus! {

/// The EVM versions the compiler can target.
#[allow(non_camel_case_types)]
#[derive(Debug, PartialEq, Eq, PartialOrd, Clone, Copy)]
pub enum SupportedEVMVersions {
    /// Paris
    paris,
    /// Shanghai
    shanghai,
}

/// Evm Version
///
/// Determines which features will be available when compiling.
#[derive(Debug, PartialEq, Eq, Clone, Copy)]
pub struct EVMVersion {
    version: SupportedEVMVersions,
}

impl EVMVersion {
    /// The version this value targets.
    pub closed spec fn spec_version(self) -> SupportedEVMVersions {
        self.version
    }

    /// A value targeting `version`.
    pub fn new(version: SupportedEVMVersions) -> (r: Self)
        ensures
            r.spec_version() == version,
    {
        Self { version }
    }
}

impl Default for EVMVersion {
    /// Shanghai.
    fn default() -> (r: Self)
        ensures
            r.spec_version() == SupportedEVMVersions::shanghai,
    {
        Self::new(SupportedEVMVersions::shanghai)
    }
}

/// `paris`
pub open spec fn paris_name() -> Seq<char> {
    seq!['p', 'a', 'r', 'i', 's']
}

/// `shanghai`
pub open spec fn shanghai_name() -> Seq<char> {
    seq!['s', 'h', 'a', 'n', 'g', 'h', 'a', 'i']
}

/// The version a configured name selects: `paris` or `shanghai`, and the default
/// (Shanghai) for any other name or none.
pub open spec fn version_named(name: Option<Seq<char>>) -> SupportedEVMVersions {
    match name {
        Some(n) => if n == paris_name() {
            SupportedEVMVersions::paris
        } else {
            SupportedEVMVersions::shanghai
        },
        None => SupportedEVMVersions::shanghai,
    }
}

impl EVMVersion {
    /// The version a configured name selects: `paris` or `shanghai`, and the default
    /// (Shanghai) for any other name or none.
    pub fn from_name(name: &Option<String>) -> (r: Self)
        ensures
            r.spec_version() == version_named(crate::text::opt_text(*name)),
    {
        match name {
            Some(n) => {
                let c = crate::text::chars_of(n.as_str());
                let is_paris = crate::text::chars_eq(&c, &['p', 'a', 'r', 'i', 's']);
                proof {
                    let lit = ['p', 'a', 'r', 'i', 's'];
                    assert(lit@ =~= paris_name());
                }
                if is_paris {
                    Self::new(SupportedEVMVersions::paris)
                } else {
                    Self::new(SupportedEVMVersions::shanghai)
                }
            },
            None => Self::default(),
        }
    }
}

} // verus!

//! The archive extension.

use vstd::prelude::*;

verus! {

/// The extension that provides the module `tar`.
#[derive(Clone, Copy, Debug)]
pub struct TarExt;

impl TarExt {
    /// The name that the extension is known by.
    pub fn name(&self) -> (s: &'static str)
        ensures
            s@ == "dolang-tar"@,
    {
        "dolang-tar"
    }

    /// What the extension is, in words.
    pub fn description(&self) -> (s: &'static str)
        ensures
            s@ == "Do Streaming TAR Archive Extension"@,
    {
        "Do Streaming TAR Archive Extension"
    }

    /// The modules that the extension provides.
    pub fn modules(&self) -> (v: Vec<&'static str>)
        ensures
            v@ =~= seq!["tar"],
    {
        vec!["tar"]
    }
}

} // verus!

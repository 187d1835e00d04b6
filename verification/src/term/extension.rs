//! The terminal extension.

use vstd::prelude::*;

verus! {

/// The extension that provides the module `term`.
#[derive(Clone, Copy, Debug)]
pub struct TermExt;

impl TermExt {
    /// The name that the extension is known by.
    pub fn name(&self) -> (s: &'static str)
        ensures
            s@ == "term"@,
    {
        "term"
    }

    /// What the extension is, in words.
    pub fn description(&self) -> (s: &'static str)
        ensures
            s@ == "Do Terminal Extension"@,
    {
        "Do Terminal Extension"
    }
}

} // verus!

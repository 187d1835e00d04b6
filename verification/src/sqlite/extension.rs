//! The database extension.

use vstd::prelude::*;

verus! {

/// The extension that provides the module `sqlite`.
#[derive(Clone, Copy, Debug)]
pub struct SqliteExt;

impl SqliteExt {
    /// The name that the extension is known by.
    pub fn name(&self) -> (s: &'static str)
        ensures
            s@ == "dolang-sqlite"@,
    {
        "dolang-sqlite"
    }

    /// What the extension is, in words.
    pub fn description(&self) -> (s: &'static str)
        ensures
            s@ == "Do SQLite Extension"@,
    {
        "Do SQLite Extension"
    }

    /// The modules that the extension provides.
    pub fn modules(&self) -> (v: Vec<&'static str>)
        ensures
            v@ =~= seq!["sqlite"],
    {
        vec!["sqlite"]
    }
}

} // verus!

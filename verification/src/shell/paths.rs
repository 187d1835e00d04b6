//! Paths that programs pass in.

use vstd::prelude::*;
use crate::shell::process::text_option;

verus! {

broadcast use vstd::string::group_string_axioms;

/// A path given as an argument: as a string, or as a path written out.
#[derive(Debug)]
pub enum PathArg {
    Str(String),
    Path(String),
    Other,
}

/// The path that an argument gives, if it gives one.
pub open spec fn path_text(path: PathArg) -> Option<Seq<char>> {
    match path {
        PathArg::Str(s) => Some(s@),
        PathArg::Path(s) => Some(s@),
        PathArg::Other => None,
    }
}

/// The path that an argument gives, if it gives one.
pub fn as_path(path: &PathArg) -> (r: Option<String>)
    ensures
        text_option(r) == path_text(*path),
{
    match path {
        PathArg::Str(s) => Some(s.clone()),
        PathArg::Path(s) => Some(s.clone()),
        PathArg::Other => None,
    }
}

} // verus!

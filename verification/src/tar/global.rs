//! The state that the archive module shares.

use vstd::prelude::*;

verus! {

/// The key under which the archive module's shared state is kept.
#[derive(Clone, Copy, Debug)]
pub struct Tag;

} // verus!

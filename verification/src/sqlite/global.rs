//! The state that the database module shares.

use vstd::prelude::*;

verus! {

/// The key under which the database module's shared state is kept.
#[derive(Clone, Copy, Debug)]
pub struct Tag;

} // verus!

//! The state that the terminal module shares.

use vstd::prelude::*;

verus! {

/// The key under which the terminal module's shared state is kept.
#[derive(Clone, Copy, Debug)]
pub struct Tag;

} // verus!

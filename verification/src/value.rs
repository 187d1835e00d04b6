//! The values that programs pass in.

use vstd::prelude::*;

verus! {

/// A value, as far as this library looks into it. A floating-point number is
/// carried by its bits.
#[derive(Debug)]
pub enum Value {
    Nil,
    Bool(bool),
    Int(i128),
    Float(u64),
    Str(String),
    Sym(String),
    Bin(Vec<u8>),
    Array(Vec<Value>),
    Tuple(Vec<Value>),
    Dict(Vec<(Value, Value)>),
    Other,
}

} // verus!

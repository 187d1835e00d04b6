//! Reading numbers, truth values and flags out of specifications.

use vstd::prelude::*;
use crate::error::{outcome, Error, ErrorView};
use crate::security::flags::find;
use crate::security::macos_flags::{
    macos_ace_flags_names, macos_ace_mask_names, MacosAceFlags, MacosAceMask,
};
use crate::security::model::{FlagClass, SpecValue};
use crate::security::nfs4_flags::{
    nfs4_ace_flags_names, nfs4_ace_mask_names, Nfs4AceFlags, Nfs4AceMask,
};
use crate::security::path::SpecPath;
use crate::security::posix_flags::{permission_names, Permission};
use crate::security::windows_flags::{
    access_mask_names, ace_flags_names, AccessMask, AceFlags,
};

verus! {

broadcast use vstd::string::group_string_axioms;

/// An integer of at most `max`, or the messages to fail with: one for what is
/// no integer, one for what is out of range.
pub open spec fn id_result(value: SpecValue, prefix: Seq<char>, max: int) -> Result<int, ErrorView> {
    match value {
        SpecValue::Int(n) if i64::MIN <= n <= i64::MAX => if 0 <= n <= max {
            Ok(n as int)
        } else {
            Err(ErrorView::Value(prefix + ": out of range"@))
        },
        _ => Err(ErrorView::Type(prefix + ": expected Int"@)),
    }
}

/// An integer result of 32 bits.
pub open spec fn wide(r: Result<u32, Error>) -> Result<int, ErrorView> {
    match r {
        Ok(n) => Ok(n as int),
        Err(e) => Err(e@),
    }
}

/// An integer result of 8 bits.
pub open spec fn narrow(r: Result<u8, Error>) -> Result<int, ErrorView> {
    match r {
        Ok(n) => Ok(n as int),
        Err(e) => Err(e@),
    }
}

/// A user or group number, given as the argument `name`.
pub fn posix_id(value: &SpecValue, name: &str) -> (r: Result<u32, Error>)
    ensures
        wide(r) == id_result(*value, name@, u32::MAX as int),
{
    spec_id(value, &SpecPath::root(name))
}

/// A user or group number at a position.
pub fn spec_id(value: &SpecValue, path: &SpecPath) -> (r: Result<u32, Error>)
    ensures
        wide(r) == id_result(*value, path@, u32::MAX as int),
{
    match value {
        SpecValue::Int(n) if i64::MIN as i128 <= *n && *n <= i64::MAX as i128 => {
            let n: i128 = *n;
            if 0 <= n && n <= u32::MAX as i128 {
                Ok(n as u32)
            } else {
                Err(path.value_error(": out of range"))
            }
        },
        _ => Err(path.type_error(": expected Int")),
    }
}

/// A number of 32 bits at a position.
pub fn ace_u32(value: &SpecValue, path: &SpecPath) -> (r: Result<u32, Error>)
    ensures
        wide(r) == id_result(*value, path@, u32::MAX as int),
{
    spec_id(value, path)
}

/// A number of 8 bits at a position.
pub fn ace_u8(value: &SpecValue, path: &SpecPath) -> (r: Result<u8, Error>)
    ensures
        narrow(r) == id_result(*value, path@, u8::MAX as int),
{
    match ace_u32(value, path) {
        Err(e) => Err(e),
        Ok(n) => {
            if n <= u8::MAX as u32 {
                Ok(n as u8)
            } else {
                Err(path.value_error(": out of range"))
            }
        },
    }
}

/// A truth value at a position.
pub open spec fn bool_result(value: SpecValue, path: Seq<char>) -> Result<bool, ErrorView> {
    match value {
        SpecValue::Bool(b) => Ok(b),
        _ => Err(ErrorView::Type(path + ": expected Bool"@)),
    }
}

/// A truth value at a position.
pub fn ace_bool(value: &SpecValue, path: &SpecPath) -> (r: Result<bool, Error>)
    ensures
        outcome(r) == bool_result(*value, path@),
{
    match value {
        SpecValue::Bool(b) => Ok(*b),
        _ => Err(path.type_error(": expected Bool")),
    }
}

/// The names of the bits of a set of flags.
pub open spec fn class_names(class: FlagClass) -> Seq<(Seq<char>, u32)> {
    match class {
        FlagClass::Permission => permission_names(),
        FlagClass::MacosMask => macos_ace_mask_names(),
        FlagClass::MacosFlags => macos_ace_flags_names(),
        FlagClass::Nfs4Mask => nfs4_ace_mask_names(),
        FlagClass::Nfs4Flags => nfs4_ace_flags_names(),
        FlagClass::AccessMask => access_mask_names(),
        FlagClass::AceFlags => ace_flags_names(),
    }
}

/// The bits that go by a name in a set of flags.
fn class_bit(class: FlagClass, name: &str) -> (r: Option<u32>)
    ensures
        r == find(class_names(class), name@),
{
    match class {
        FlagClass::Permission => match Permission::named(name) {
            Some(f) => Some(f.0),
            None => None,
        },
        FlagClass::MacosMask => match MacosAceMask::named(name) {
            Some(f) => Some(f.0),
            None => None,
        },
        FlagClass::MacosFlags => match MacosAceFlags::named(name) {
            Some(f) => Some(f.0),
            None => None,
        },
        FlagClass::Nfs4Mask => match Nfs4AceMask::named(name) {
            Some(f) => Some(f.0),
            None => None,
        },
        FlagClass::Nfs4Flags => match Nfs4AceFlags::named(name) {
            Some(f) => Some(f.0),
            None => None,
        },
        FlagClass::AccessMask => match AccessMask::named(name) {
            Some(f) => Some(f.0),
            None => None,
        },
        FlagClass::AceFlags => match AceFlags::named(name) {
            Some(f) => Some(f.0),
            None => None,
        },
    }
}

/// The flags that the first `n` symbols name together.
pub open spec fn named_together(class: FlagClass, items: Seq<SpecValue>, n: nat) -> Option<u32>
    decreases n,
{
    if n == 0 {
        Some(0)
    } else {
        match (named_together(class, items, (n - 1) as nat), items[n - 1]) {
            (Some(bits), SpecValue::Sym(name)) => match find(class_names(class), name@) {
                Some(more) => Some(bits | more),
                None => None,
            },
            _ => None,
        }
    }
}

/// Flags, as themselves or by name: a symbol, or something made of symbols.
pub open spec fn coerced(class: FlagClass, value: SpecValue) -> Option<u32> {
    match value {
        SpecValue::Flags(c, bits) => if c == class {
            Some(bits)
        } else {
            None
        },
        SpecValue::Sym(name) => find(class_names(class), name@),
        SpecValue::Items(items) => named_together(class, items@, items@.len()),
        _ => None,
    }
}

proof fn lemma_unnamed(class: FlagClass, items: Seq<SpecValue>, n: nat, m: nat)
    requires
        n <= m,
        named_together(class, items, n) is None,
    ensures
        named_together(class, items, m) is None,
    decreases m,
{
    if n < m {
        lemma_unnamed(class, items, n, (m - 1) as nat);
    }
}

/// Flags, as themselves or by name.
pub fn coerce(class: FlagClass, value: &SpecValue) -> (r: Option<u32>)
    ensures
        r == coerced(class, *value),
{
    match value {
        SpecValue::Flags(c, bits) => {
            if *c == class {
                Some(*bits)
            } else {
                None
            }
        },
        SpecValue::Sym(name) => class_bit(class, name.as_str()),
        SpecValue::Items(items) => {
            let mut bits: u32 = 0;
            let mut i: usize = 0;
            while i < items.len()
                invariant
                    i <= items@.len(),
                    coerced(class, *value) == named_together(class, items@, items@.len()),
                    named_together(class, items@, i as nat) == Some(bits),
                decreases items@.len() - i,
            {
                let more: u32 = match &items[i] {
                    SpecValue::Sym(name) => match class_bit(class, name.as_str()) {
                        Some(more) => more,
                        None => {
                            proof {
                                lemma_unnamed(class, items@, (i + 1) as nat, items@.len());
                            }
                            return None;
                        },
                    },
                    _ => {
                        proof {
                            lemma_unnamed(class, items@, (i + 1) as nat, items@.len());
                        }
                        return None;
                    },
                };
                bits = bits | more;
                i = i + 1;
            }
            Some(bits)
        },
        _ => None,
    }
}

/// Flags as themselves.
pub open spec fn as_flags(class: FlagClass, value: SpecValue) -> Option<u32> {
    match value {
        SpecValue::Flags(c, bits) if c == class => Some(bits),
        _ => None,
    }
}

/// Flags as themselves.
pub fn cast_flags(class: FlagClass, value: &SpecValue) -> (r: Option<u32>)
    ensures
        r == as_flags(class, *value),
{
    match value {
        SpecValue::Flags(c, bits) if *c == class => Some(*bits),
        _ => None,
    }
}

/// Flags, as themselves or by name, at a position.
pub open spec fn coerced_at(
    class: FlagClass,
    value: SpecValue,
    path: Seq<char>,
    what: Seq<char>,
) -> Result<u32, ErrorView> {
    match coerced(class, value) {
        Some(bits) => Ok(bits),
        None => Err(ErrorView::Type(path + what)),
    }
}

/// Flags, as themselves or by name, at a position.
pub fn coerce_at(class: FlagClass, value: &SpecValue, path: &SpecPath, what: &str) -> (r: Result<
    u32,
    Error,
>)
    ensures
        outcome(r) == coerced_at(class, *value, path@, what@),
{
    match coerce(class, value) {
        Some(bits) => Ok(bits),
        None => Err(path.type_error(what)),
    }
}

/// Flags as themselves, or the message to fail with; nothing may stand for a
/// default.
pub open spec fn cast_result(
    class: FlagClass,
    value: Option<SpecValue>,
    default: Option<u32>,
    what: Seq<char>,
) -> Result<u32, ErrorView> {
    match value {
        Some(v) => match as_flags(class, v) {
            Some(bits) => Ok(bits),
            None => Err(ErrorView::Type(what)),
        },
        None => match default {
            Some(bits) => Ok(bits),
            None => Err(ErrorView::Type(what)),
        },
    }
}

/// Flags as themselves, or the message to fail with.
pub fn cast_or(class: FlagClass, value: &Option<SpecValue>, default: Option<u32>, what: &str) -> (r:
    Result<u32, Error>)
    ensures
        outcome(r) == cast_result(class, *value, default, what@),
{
    let found = match value {
        Some(v) => cast_flags(class, v),
        None => default,
    };
    match found {
        Some(bits) => Ok(bits),
        None => Err(Error::Type(what.to_owned())),
    }
}

} // verus!

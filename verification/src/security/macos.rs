//! Extended access control lists of macOS.

use vstd::prelude::*;
use crate::error::{outcome, viewed, Error, ErrorView};
use crate::security::coerce::{cast_or, cast_result, coerce_at, coerced_at};
use crate::security::model::{copy_list, FlagClass, MacosAce, MacosAceType, SpecValue};
use crate::security::path::{at_index, duplicate_key, symbol_keys, under_key, unknown_key, SpecPath};
use crate::shell::sys::OperatingSystem;
use crate::text::str_eq;

verus! {

broadcast use vstd::string::group_string_axioms;

/// A list as a program sees it: none is nil.
pub fn create_macos_acl(acl: Option<Vec<MacosAce>>) -> (value: SpecValue)
    ensures
        value == match acl {
            Some(acl) => SpecValue::MacosAcl(acl),
            None => SpecValue::Nil,
        },
{
    match acl {
        Some(acl) => SpecValue::MacosAcl(acl),
        None => SpecValue::Nil,
    }
}

/// The symbol that says what an entry does.
pub open spec fn type_symbol(ace_type: MacosAceType) -> Seq<char> {
    match ace_type {
        MacosAceType::Allow => "ALLOW"@,
        MacosAceType::Deny => "DENY"@,
    }
}

impl MacosAce {
    /// The symbol that says what the entry does.
    pub fn type_sym(&self) -> (s: &'static str)
        ensures
            s@ == type_symbol(self.ace_type),
    {
        match self.ace_type {
            MacosAceType::Allow => "ALLOW",
            MacosAceType::Deny => "DENY",
        }
    }
}

/// An entry as its constructors make it.
pub open spec fn constructed(
    ace_type: MacosAceType,
    principal: SpecValue,
    mask: Option<SpecValue>,
    flags: Option<SpecValue>,
) -> Result<MacosAce, ErrorView> {
    match principal {
        SpecValue::Uuid(principal) => match cast_result(
            FlagClass::MacosMask,
            mask,
            None,
            "mask: expected security.macos.Mask"@,
        ) {
            Err(e) => Err(e),
            Ok(mask) => match cast_result(
                FlagClass::MacosFlags,
                flags,
                Some(0),
                "flags: expected security.macos.Flags"@,
            ) {
                Err(e) => Err(e),
                Ok(flags) => Ok(MacosAce { ace_type, principal, mask, flags }),
            },
        },
        _ => Err(ErrorView::Type("principal: expected uuid.Uuid"@)),
    }
}

/// An entry as its constructors make it.
pub fn new_macos_ace(
    ace_type: MacosAceType,
    principal: &SpecValue,
    mask: &Option<SpecValue>,
    flags: &Option<SpecValue>,
) -> (r: Result<MacosAce, Error>)
    ensures
        outcome(r) == constructed(ace_type, *principal, *mask, *flags),
{
    let principal: u128 = match principal {
        SpecValue::Uuid(principal) => *principal,
        _ => return Err(Error::Type("principal: expected uuid.Uuid".to_owned())),
    };
    let mask: u32 = match cast_or(
        FlagClass::MacosMask,
        mask,
        None,
        "mask: expected security.macos.Mask",
    ) {
        Ok(bits) => bits,
        Err(e) => return Err(e),
    };
    let flags: u32 = match cast_or(
        FlagClass::MacosFlags,
        flags,
        Some(0),
        "flags: expected security.macos.Flags",
    ) {
        Ok(bits) => bits,
        Err(e) => return Err(e),
    };
    Ok(MacosAce { ace_type, principal, mask, flags })
}

/// The UUID that a value reads as.
pub open spec fn uuid_result(value: SpecValue) -> Result<u128, ErrorView> {
    match value {
        SpecValue::Uuid(n) => Ok(n),
        SpecValue::Str(_, readings) => match readings.uuid {
            Ok(n) => Ok(n),
            Err(e) => Err(ErrorView::Value(e@)),
        },
        SpecValue::Bin(_, readings) => match readings.uuid {
            Ok(n) => Ok(n),
            Err(e) => Err(ErrorView::Value(e@)),
        },
        _ => Err(ErrorView::Type("expected uuid.Uuid, Str, or Bin"@)),
    }
}

/// The UUID that a value reads as, or why it does not read as one.
pub fn value_to_uuid(value: &SpecValue) -> (r: Result<u128, Error>)
    ensures
        outcome(r) == uuid_result(*value),
{
    match value {
        SpecValue::Uuid(n) => Ok(*n),
        SpecValue::Str(_, readings) => match &readings.uuid {
            Ok(n) => Ok(*n),
            Err(e) => Err(Error::Value(e.clone())),
        },
        SpecValue::Bin(_, readings) => match &readings.uuid {
            Ok(n) => Ok(*n),
            Err(e) => Err(Error::Value(e.clone())),
        },
        _ => Err(Error::Type("expected uuid.Uuid, Str, or Bin".to_owned())),
    }
}

/// What was read of an entry's specification.
#[derive(Clone, Copy, Debug)]
pub struct MacosParts {
    pub ace_type: Option<(MacosAceType, u128)>,
    pub mask: Option<u32>,
    pub flags: Option<u32>,
}

/// A mask at a position.
pub open spec fn mask_at(value: SpecValue, path: Seq<char>) -> Result<u32, ErrorView> {
    coerced_at(FlagClass::MacosMask, value, path, ": expected security.macos.Mask"@)
}

/// Flags at a position.
pub open spec fn flags_at(value: SpecValue, path: Seq<char>) -> Result<u32, ErrorView> {
    coerced_at(FlagClass::MacosFlags, value, path, ": expected security.macos.Flags"@)
}

/// A mask at a position.
pub fn coerce_mask(value: &SpecValue, path: &SpecPath) -> (r: Result<u32, Error>)
    ensures
        outcome(r) == mask_at(*value, path@),
{
    coerce_at(FlagClass::MacosMask, value, path, ": expected security.macos.Mask")
}

/// Flags at a position.
pub fn coerce_flags(value: &SpecValue, path: &SpecPath) -> (r: Result<u32, Error>)
    ensures
        outcome(r) == flags_at(*value, path@),
{
    coerce_at(FlagClass::MacosFlags, value, path, ": expected security.macos.Flags")
}

/// What one key of a specification adds.
pub open spec fn key_step(parts: MacosParts, name: Seq<char>, entry: SpecValue, path: Seq<char>) -> Result<
    MacosParts,
    ErrorView,
> {
    let at = under_key(path, name);
    if name == "allow"@ || name == "deny"@ {
        if parts.ace_type is Some {
            Err(ErrorView::Value(path + ": multiple keys name conflicting ACE types"@))
        } else {
            match uuid_result(entry) {
                Err(_) => Err(ErrorView::Type(at + ": expected uuid.Uuid, Str, or Bin"@)),
                Ok(principal) => Ok(
                    MacosParts {
                        ace_type: Some(
                            (
                                if name == "allow"@ {
                                    MacosAceType::Allow
                                } else {
                                    MacosAceType::Deny
                                },
                                principal,
                            ),
                        ),
                        ..parts
                    },
                ),
            }
        }
    } else if name == "mask"@ {
        if parts.mask is Some {
            Err(duplicate_key(path, name))
        } else {
            match mask_at(entry, at) {
                Err(e) => Err(e),
                Ok(bits) => Ok(MacosParts { mask: Some(bits), ..parts }),
            }
        }
    } else if name == "flags"@ {
        if parts.flags is Some {
            Err(duplicate_key(path, name))
        } else {
            match flags_at(entry, at) {
                Err(e) => Err(e),
                Ok(bits) => Ok(MacosParts { flags: Some(bits), ..parts }),
            }
        }
    } else {
        Err(unknown_key(path, name))
    }
}

/// What the first `n` keys of a specification say.
pub open spec fn parts_of(pairs: Seq<(SpecValue, SpecValue)>, n: nat, path: Seq<char>) -> Result<
    MacosParts,
    ErrorView,
>
    decreases n,
{
    if n == 0 {
        Ok(MacosParts { ace_type: None, mask: None, flags: None })
    } else {
        match parts_of(pairs, (n - 1) as nat, path) {
            Err(e) => Err(e),
            Ok(parts) => match pairs[n - 1].0 {
                SpecValue::Sym(name) => key_step(parts, name@, pairs[n - 1].1, path),
                _ => Err(symbol_keys(path)),
            },
        }
    }
}

proof fn lemma_parts_error(pairs: Seq<(SpecValue, SpecValue)>, n: nat, m: nat, path: Seq<char>)
    requires
        n <= m,
        parts_of(pairs, n, path) is Err,
    ensures
        parts_of(pairs, m, path) == parts_of(pairs, n, path),
    decreases m,
{
    if n < m {
        lemma_parts_error(pairs, n, (m - 1) as nat, path);
    }
}

/// The entry that the parts make.
pub open spec fn parts_ace(parts: MacosParts, path: Seq<char>) -> Result<MacosAce, ErrorView> {
    match (parts.ace_type, parts.mask) {
        (None, _) => Err(ErrorView::Value(path + ": expected allow or deny"@)),
        (_, None) => Err(ErrorView::Value(under_key(path, "mask"@) + ": required"@)),
        (Some((ace_type, principal)), Some(mask)) => Ok(
            MacosAce {
                ace_type,
                principal,
                mask,
                flags: match parts.flags {
                    Some(bits) => bits,
                    None => 0,
                },
            },
        ),
    }
}

/// The entry that a value stands for.
pub open spec fn ace_result(value: SpecValue, path: Seq<char>) -> Result<MacosAce, ErrorView> {
    match value {
        SpecValue::MacosAce(ace) => Ok(ace),
        SpecValue::Dict(pairs) => match parts_of(pairs@, pairs@.len(), path) {
            Err(e) => Err(e),
            Ok(parts) => parts_ace(parts, path),
        },
        _ => Err(ErrorView::Type(path + ": expected security.macos.Ace or Dict"@)),
    }
}

fn take_key(parts: MacosParts, name: &str, entry: &SpecValue, path: &SpecPath) -> (r: Result<
    MacosParts,
    Error,
>)
    ensures
        outcome(r) == key_step(parts, name@, *entry, path@),
{
    let at = path.key(name);
    let allow = str_eq(name, "allow");
    if allow || str_eq(name, "deny") {
        if parts.ace_type.is_some() {
            return Err(path.value_error(": multiple keys name conflicting ACE types"));
        }
        return match value_to_uuid(entry) {
            Err(_) => Err(at.type_error(": expected uuid.Uuid, Str, or Bin")),
            Ok(principal) => {
                let ace_type = if allow {
                    MacosAceType::Allow
                } else {
                    MacosAceType::Deny
                };
                Ok(MacosParts { ace_type: Some((ace_type, principal)), ..parts })
            },
        };
    }
    if str_eq(name, "mask") {
        if parts.mask.is_some() {
            return Err(path.duplicate_key(name));
        }
        return match coerce_mask(entry, &at) {
            Err(e) => Err(e),
            Ok(bits) => Ok(MacosParts { mask: Some(bits), ..parts }),
        };
    }
    if str_eq(name, "flags") {
        if parts.flags.is_some() {
            return Err(path.duplicate_key(name));
        }
        return match coerce_flags(entry, &at) {
            Err(e) => Err(e),
            Ok(bits) => Ok(MacosParts { flags: Some(bits), ..parts }),
        };
    }
    Err(path.unknown_key(name))
}

/// The entry that a value stands for: an entry, or its specification.
pub fn coerce_ace(value: &SpecValue, path: &SpecPath) -> (r: Result<MacosAce, Error>)
    ensures
        outcome(r) == ace_result(*value, path@),
{
    let pairs = match value {
        SpecValue::MacosAce(ace) => return Ok(*ace),
        SpecValue::Dict(pairs) => pairs,
        _ => return Err(path.type_error(": expected security.macos.Ace or Dict")),
    };
    let mut parts = MacosParts { ace_type: None, mask: None, flags: None };
    let mut i: usize = 0;
    while i < pairs.len()
        invariant
            i <= pairs@.len(),
            parts_of(pairs@, i as nat, path@) == Ok::<MacosParts, ErrorView>(parts),
            *value == SpecValue::Dict(*pairs),
        decreases pairs@.len() - i,
    {
        let step = match &pairs[i].0 {
            SpecValue::Sym(name) => take_key(parts, name.as_str(), &pairs[i].1, path),
            _ => Err(path.value_error(": keys must be symbols")),
        };
        assert(outcome(step) == parts_of(pairs@, (i + 1) as nat, path@));
        match step {
            Ok(next) => {
                parts = next;
            },
            Err(e) => {
                proof {
                    lemma_parts_error(pairs@, (i + 1) as nat, pairs@.len(), path@);
                }
                return Err(e);
            },
        }
        i = i + 1;
    }
    let (ace_type, principal) = match parts.ace_type {
        Some(found) => found,
        None => return Err(path.value_error(": expected allow or deny")),
    };
    let mask: u32 = match parts.mask {
        Some(bits) => bits,
        None => return Err(path.key("mask").value_error(": required")),
    };
    let flags: u32 = match parts.flags {
        Some(bits) => bits,
        None => 0,
    };
    Ok(MacosAce { ace_type, principal, mask, flags })
}

/// The first `n` entries that values stand for.
pub open spec fn aces_of(items: Seq<SpecValue>, n: nat, path: Seq<char>) -> Result<
    Seq<MacosAce>,
    ErrorView,
>
    decreases n,
{
    if n == 0 {
        Ok(Seq::empty())
    } else {
        match aces_of(items, (n - 1) as nat, path) {
            Err(e) => Err(e),
            Ok(aces) => match ace_result(items[n - 1], at_index(path, (n - 1) as nat)) {
                Err(e) => Err(e),
                Ok(ace) => Ok(aces.push(ace)),
            },
        }
    }
}

proof fn lemma_aces_error(items: Seq<SpecValue>, n: nat, m: nat, path: Seq<char>)
    requires
        n <= m,
        aces_of(items, n, path) is Err,
    ensures
        aces_of(items, m, path) == aces_of(items, n, path),
    decreases m,
{
    if n < m {
        lemma_aces_error(items, n, (m - 1) as nat, path);
    }
}

/// The entries that values stand for.
pub fn coerce_aces(items: &Vec<SpecValue>, path: &SpecPath) -> (r: Result<Vec<MacosAce>, Error>)
    ensures
        viewed(r) == aces_of(items@, items@.len(), path@),
{
    let mut aces: Vec<MacosAce> = Vec::new();
    let mut i: usize = 0;
    while i < items.len()
        invariant
            i <= items@.len(),
            aces_of(items@, i as nat, path@) == Ok::<Seq<MacosAce>, ErrorView>(aces@),
        decreases items@.len() - i,
    {
        match coerce_ace(&items[i], &path.index(i)) {
            Ok(ace) => aces.push(ace),
            Err(e) => {
                proof {
                    lemma_aces_error(items@, (i + 1) as nat, items@.len(), path@);
                }
                return Err(e);
            },
        }
        i = i + 1;
    }
    Ok(aces)
}

/// The list that a value stands for.
pub open spec fn acl_result(value: SpecValue, path: Seq<char>) -> Result<Seq<MacosAce>, ErrorView> {
    match value {
        SpecValue::MacosAcl(acl) => Ok(acl@),
        SpecValue::Items(items) => aces_of(items@, items@.len(), path),
        _ => Err(ErrorView::NotSupported),
    }
}

/// The list that a value stands for: a list, or something made of entries and
/// their specifications.
pub fn coerce_acl(value: &SpecValue, path: &SpecPath) -> (r: Result<Vec<MacosAce>, Error>)
    ensures
        viewed(r) == acl_result(*value, path@),
{
    match value {
        SpecValue::MacosAcl(acl) => Ok(copy_list(acl)),
        SpecValue::Items(items) => coerce_aces(items, path),
        _ => Err(Error::NotSupported),
    }
}

/// The entries that a list is made of, each of which has to be an entry.
pub open spec fn entries_of(items: Seq<SpecValue>, n: nat) -> Result<Seq<MacosAce>, ErrorView>
    decreases n,
{
    if n == 0 {
        Ok(Seq::empty())
    } else {
        match (entries_of(items, (n - 1) as nat), items[n - 1]) {
            (Ok(aces), SpecValue::MacosAce(ace)) => Ok(aces.push(ace)),
            _ => Err(ErrorView::Type("Acl: iterable must contain security.macos.Ace"@)),
        }
    }
}

proof fn lemma_entries_error(items: Seq<SpecValue>, n: nat, m: nat)
    requires
        n <= m,
        entries_of(items, n) is Err,
    ensures
        entries_of(items, m) == entries_of(items, n),
    decreases m,
{
    if n < m {
        lemma_entries_error(items, n, (m - 1) as nat);
        reveal_with_fuel(entries_of, 2);
    } else if n > 0 {
        reveal_with_fuel(entries_of, 2);
    }
}

/// The list made of entries.
pub fn new_macos_acl(items: &Vec<SpecValue>) -> (r: Result<Vec<MacosAce>, Error>)
    ensures
        viewed(r) == entries_of(items@, items@.len()),
{
    let mut aces: Vec<MacosAce> = Vec::new();
    let mut i: usize = 0;
    while i < items.len()
        invariant
            i <= items@.len(),
            entries_of(items@, i as nat) == Ok::<Seq<MacosAce>, ErrorView>(aces@),
        decreases items@.len() - i,
    {
        match &items[i] {
            SpecValue::MacosAce(ace) => aces.push(*ace),
            _ => {
                proof {
                    lemma_entries_error(items@, (i + 1) as nat, items@.len());
                }
                return Err(
                    Error::Type("Acl: iterable must contain security.macos.Ace".to_owned()),
                );
            },
        }
        i = i + 1;
    }
    Ok(aces)
}

/// The named arguments of an entry.
pub struct MacosAceArgs {
    pub mask: SpecValue,
    pub allow: Option<SpecValue>,
    pub deny: Option<SpecValue>,
    pub flags: Option<SpecValue>,
}

impl MacosAceArgs {
    /// The only argument that says what the entry does.
    pub open spec fn only(self) -> Result<(MacosAceType, SpecValue), ErrorView> {
        match (self.allow, self.deny) {
            (Some(v), None) => Ok((MacosAceType::Allow, v)),
            (None, Some(v)) => Ok((MacosAceType::Deny, v)),
            (None, None) => Err(ErrorView::Value("ace: expected allow or deny"@)),
            _ => Err(ErrorView::Value("ace: multiple keys name conflicting ACE types"@)),
        }
    }

    /// The entry that the arguments say.
    pub open spec fn result(self) -> Result<MacosAce, ErrorView> {
        match self.only() {
            Err(e) => Err(e),
            Ok((ace_type, value)) => match uuid_result(value) {
                Err(e) => Err(e),
                Ok(principal) => match mask_at(self.mask, "ace.mask"@) {
                    Err(e) => Err(e),
                    Ok(mask) => match self.flags {
                        None => Ok(MacosAce { ace_type, principal, mask, flags: 0 }),
                        Some(value) => match flags_at(value, "ace.flags"@) {
                            Err(e) => Err(e),
                            Ok(flags) => Ok(MacosAce { ace_type, principal, mask, flags }),
                        },
                    },
                },
            },
        }
    }
}

/// The entry that named arguments say.
pub fn ace_from_args(args: &MacosAceArgs) -> (r: Result<MacosAce, Error>)
    ensures
        outcome(r) == args.result(),
{
    let (ace_type, value) = match (&args.allow, &args.deny) {
        (Some(v), None) => (MacosAceType::Allow, v),
        (None, Some(v)) => (MacosAceType::Deny, v),
        (None, None) => return Err(Error::Value("ace: expected allow or deny".to_owned())),
        _ => return Err(
            Error::Value("ace: multiple keys name conflicting ACE types".to_owned()),
        ),
    };
    let principal: u128 = match value_to_uuid(value) {
        Ok(n) => n,
        Err(e) => return Err(e),
    };
    let mask: u32 = match coerce_mask(&args.mask, &SpecPath::root("ace.mask")) {
        Ok(bits) => bits,
        Err(e) => return Err(e),
    };
    let flags: u32 = match &args.flags {
        None => 0,
        Some(value) => match coerce_flags(value, &SpecPath::root("ace.flags")) {
            Ok(bits) => bits,
            Err(e) => return Err(e),
        },
    };
    Ok(MacosAce { ace_type, principal, mask, flags })
}

/// A user or a group, or whichever of them a UUID stands for. There may be
/// others that no number stands for.
#[derive(Clone, Copy, Debug, PartialEq, Eq, Structural)]
pub enum PrincipalId {
    Uid(u32),
    Gid(u32),
    Uuid(u128),
    Other,
}

/// By what a user or a group is to be told.
#[derive(Clone, Copy, Debug, PartialEq, Eq, Structural)]
pub enum PrincipalIdKind {
    Uid,
    Gid,
    Uuid,
}

/// The question by what else a user or a group is known.
#[derive(Clone, Copy, Debug, PartialEq, Eq, Structural)]
pub struct PrincipalQuery {
    pub id: PrincipalId,
    pub want: PrincipalIdKind,
}

/// What is to be asked about a user or a group.
#[derive(Clone, Copy, Debug, PartialEq, Eq, Structural)]
pub enum IdQuery {
    /// The number is given.
    Number(u32),
    /// The number has to be found out from the UUID.
    Resolve(PrincipalQuery),
}

/// The number that a value is.
pub open spec fn number_result(value: SpecValue) -> Result<u32, ErrorView> {
    match value {
        SpecValue::Int(n) => if 0 <= n <= u32::MAX {
            Ok(n as u32)
        } else {
            Err(ErrorView::Overflow)
        },
        _ => Err(ErrorView::Type("expected int"@)),
    }
}

/// The number that a value is.
pub fn value_to_number(value: &SpecValue) -> (r: Result<u32, Error>)
    ensures
        outcome(r) == number_result(*value),
{
    match value {
        SpecValue::Int(n) => {
            if 0 <= *n && *n <= u32::MAX as i128 {
                Ok(*n as u32)
            } else {
                Err(Error::Overflow)
            }
        },
        _ => Err(Error::Type("expected int".to_owned())),
    }
}

/// How the number of a user or a group is found: it is given, or on macOS a
/// UUID.
pub open spec fn id_query(value: SpecValue, os: OperatingSystem, want: PrincipalIdKind) -> Result<
    IdQuery,
    ErrorView,
> {
    match value {
        SpecValue::Uuid(n) => if os is Macos {
            Ok(IdQuery::Resolve(PrincipalQuery { id: PrincipalId::Uuid(n), want }))
        } else {
            Err(ErrorView::NotSupported)
        },
        _ => match number_result(value) {
            Ok(n) => Ok(IdQuery::Number(n)),
            Err(e) => Err(e),
        },
    }
}

/// The number of a user or a group: as it is, or on macOS by a UUID.
pub fn resolve_uid_or_gid_arg(
    value: &SpecValue,
    os: OperatingSystem,
    want: PrincipalIdKind,
) -> (r: Result<IdQuery, Error>)
    ensures
        outcome(r) == id_query(*value, os, want),
{
    match value {
        SpecValue::Uuid(n) => {
            if os == OperatingSystem::Macos {
                Ok(IdQuery::Resolve(PrincipalQuery { id: PrincipalId::Uuid(*n), want }))
            } else {
                Err(Error::NotSupported)
            }
        },
        _ => match value_to_number(value) {
            Ok(n) => Ok(IdQuery::Number(n)),
            Err(e) => Err(e),
        },
    }
}

/// The number that a question by a UUID was answered with.
pub fn resolved_number(reply: PrincipalId) -> (r: Result<u32, Error>)
    requires
        !(reply is Uuid),
    ensures
        outcome(r) == match reply {
            PrincipalId::Uid(n) => Ok(n),
            PrincipalId::Gid(n) => Ok(n),
            _ => Err(ErrorView::NotSupported),
        },
{
    match reply {
        PrincipalId::Uid(n) => Ok(n),
        PrincipalId::Gid(n) => Ok(n),
        _ => Err(Error::NotSupported),
    }
}

/// The question for the UUID of a user or a group, on macOS.
pub open spec fn uuid_query(value: SpecValue, os: OperatingSystem, group: bool) -> Result<
    PrincipalQuery,
    ErrorView,
> {
    if !(os is Macos) {
        Err(ErrorView::NotSupported)
    } else {
        match number_result(value) {
            Err(e) => Err(e),
            Ok(n) => Ok(
                PrincipalQuery {
                    id: if group {
                        PrincipalId::Gid(n)
                    } else {
                        PrincipalId::Uid(n)
                    },
                    want: PrincipalIdKind::Uuid,
                },
            ),
        }
    }
}

/// The question for the UUID of a user.
pub fn uuid_for_uid(value: &SpecValue, os: OperatingSystem) -> (r: Result<PrincipalQuery, Error>)
    ensures
        outcome(r) == uuid_query(*value, os, false),
{
    if os != OperatingSystem::Macos {
        return Err(Error::NotSupported);
    }
    match value_to_number(value) {
        Ok(n) => Ok(PrincipalQuery { id: PrincipalId::Uid(n), want: PrincipalIdKind::Uuid }),
        Err(e) => Err(e),
    }
}

/// The question for the UUID of a group.
pub fn uuid_for_gid(value: &SpecValue, os: OperatingSystem) -> (r: Result<PrincipalQuery, Error>)
    ensures
        outcome(r) == uuid_query(*value, os, true),
{
    if os != OperatingSystem::Macos {
        return Err(Error::NotSupported);
    }
    match value_to_number(value) {
        Ok(n) => Ok(PrincipalQuery { id: PrincipalId::Gid(n), want: PrincipalIdKind::Uuid }),
        Err(e) => Err(e),
    }
}

/// The question for the number that a UUID stands for.
pub fn id_for_uuid(value: &SpecValue, os: OperatingSystem) -> (r: Result<PrincipalQuery, Error>)
    ensures
        outcome(r) == if !(os is Macos) {
            Err(ErrorView::NotSupported)
        } else {
            match uuid_result(*value) {
                Err(e) => Err(e),
                Ok(n) => Ok(
                    PrincipalQuery { id: PrincipalId::Uuid(n), want: PrincipalIdKind::Uid },
                ),
            }
        },
{
    if os != OperatingSystem::Macos {
        return Err(Error::NotSupported);
    }
    match value_to_uuid(value) {
        Ok(n) => Ok(PrincipalQuery { id: PrincipalId::Uuid(n), want: PrincipalIdKind::Uid }),
        Err(e) => Err(e),
    }
}

/// What a UUID stands for: the number of a user or of a group, and the symbol
/// that says which.
pub open spec fn tagged(reply: PrincipalId) -> Result<(Seq<char>, u32), ErrorView> {
    match reply {
        PrincipalId::Uid(n) => Ok(("UID"@, n)),
        PrincipalId::Gid(n) => Ok(("GID"@, n)),
        _ => Err(ErrorView::NotSupported),
    }
}

/// What a UUID stands for, from the reply to [`id_for_uuid`].
pub fn tagged_id(reply: PrincipalId) -> (r: Result<(&'static str, u32), Error>)
    requires
        !(reply is Uuid),
    ensures
        match tagged(reply) {
            Ok((tag, n)) => r matches Ok((t, m)) && t@ == tag && m == n,
            Err(e) => r is Err && r->Err_0@ == e,
        },
{
    match reply {
        PrincipalId::Uid(n) => Ok(("UID", n)),
        PrincipalId::Gid(n) => Ok(("GID", n)),
        _ => Err(Error::NotSupported),
    }
}

/// Entries stand for themselves, one by one and as a list.
pub proof fn entries_stand_for_themselves(
    aces: Seq<MacosAce>,
    items: Seq<SpecValue>,
    n: nat,
    path: Seq<char>,
)
    requires
        items.len() == aces.len(),
        forall|i: int| 0 <= i < aces.len() ==> #[trigger] items[i] == SpecValue::MacosAce(aces[i]),
        n <= aces.len(),
    ensures
        aces_of(items, n, path) == Ok::<Seq<MacosAce>, ErrorView>(aces.take(n as int)),
        entries_of(items, n) == Ok::<Seq<MacosAce>, ErrorView>(aces.take(n as int)),
    decreases n,
{
    if n == 0 {
        assert(aces.take(0) =~= Seq::empty());
    } else {
        entries_stand_for_themselves(aces, items, (n - 1) as nat, path);
        assert(items[n - 1] == SpecValue::MacosAce(aces[n - 1]));
        assert(aces.take(n as int) =~= aces.take(n - 1).push(aces[n - 1]));
    }
}

} // verus!

//! Access control lists as NFS has them.

use vstd::prelude::*;
use crate::error::{outcome, viewed, Error, ErrorView};
use crate::security::coerce::{
    cast_or, cast_result, coerce_at, coerced_at, id_result, posix_id, spec_id,
};
use crate::security::model::{
    copy_list, FlagClass, Nfs4Ace, Nfs4AceType, Nfs4Qualifier, SpecValue,
};
use crate::security::path::{at_index, duplicate_key, symbol_keys, under_key, unknown_key, SpecPath};
use crate::text::str_eq;

verus! {

broadcast use vstd::string::group_string_axioms;

/// A list as a program sees it: none is nil.
pub fn create_nfs4_acl(acl: Option<Vec<Nfs4Ace>>) -> (value: SpecValue)
    ensures
        value == match acl {
            Some(acl) => SpecValue::Nfs4Acl(acl),
            None => SpecValue::Nil,
        },
{
    match acl {
        Some(acl) => SpecValue::Nfs4Acl(acl),
        None => SpecValue::Nil,
    }
}

/// What an entry does, by its symbol.
pub open spec fn type_result(value: Option<SpecValue>) -> Result<Nfs4AceType, ErrorView> {
    match value {
        Some(SpecValue::Sym(name)) => if name@ == "ALLOW"@ {
            Ok(Nfs4AceType::Allow)
        } else if name@ == "DENY"@ {
            Ok(Nfs4AceType::Deny)
        } else if name@ == "AUDIT"@ {
            Ok(Nfs4AceType::Audit)
        } else if name@ == "ALARM"@ {
            Ok(Nfs4AceType::Alarm)
        } else {
            Err(ErrorView::Value("type: expected :ALLOW:, :DENY:, :AUDIT:, or :ALARM:"@))
        },
        _ => Err(ErrorView::Type("type: expected :ALLOW:, :DENY:, :AUDIT:, or :ALARM:"@)),
    }
}

/// What an entry does, by its symbol.
pub fn nfs4_ace_type(value: &Option<SpecValue>) -> (r: Result<Nfs4AceType, Error>)
    ensures
        outcome(r) == type_result(*value),
{
    match value {
        Some(SpecValue::Sym(name)) => {
            let name = name.as_str();
            if str_eq(name, "ALLOW") {
                Ok(Nfs4AceType::Allow)
            } else if str_eq(name, "DENY") {
                Ok(Nfs4AceType::Deny)
            } else if str_eq(name, "AUDIT") {
                Ok(Nfs4AceType::Audit)
            } else if str_eq(name, "ALARM") {
                Ok(Nfs4AceType::Alarm)
            } else {
                Err(
                    Error::Value(
                        "type: expected :ALLOW:, :DENY:, :AUDIT:, or :ALARM:".to_owned(),
                    ),
                )
            }
        },
        _ => Err(
            Error::Type("type: expected :ALLOW:, :DENY:, :AUDIT:, or :ALARM:".to_owned()),
        ),
    }
}

/// The symbol that says what an entry does.
pub open spec fn type_symbol(ace_type: Nfs4AceType) -> Seq<char> {
    match ace_type {
        Nfs4AceType::Allow => "ALLOW"@,
        Nfs4AceType::Deny => "DENY"@,
        Nfs4AceType::Audit => "AUDIT"@,
        Nfs4AceType::Alarm => "ALARM"@,
    }
}

/// The symbol that says whom an entry is about.
pub open spec fn principal_symbol(qualifier: Nfs4Qualifier) -> Seq<char> {
    match qualifier {
        Nfs4Qualifier::Owner => "OWNER"@,
        Nfs4Qualifier::OwningGroup => "OWNING_GROUP"@,
        Nfs4Qualifier::Everyone => "EVERYONE"@,
        Nfs4Qualifier::User(_) => "USER"@,
        Nfs4Qualifier::Group(_) => "GROUP"@,
    }
}

impl Nfs4Ace {
    /// The symbol that says what the entry does.
    pub fn type_sym(&self) -> (s: &'static str)
        ensures
            s@ == type_symbol(self.ace_type),
    {
        match self.ace_type {
            Nfs4AceType::Allow => "ALLOW",
            Nfs4AceType::Deny => "DENY",
            Nfs4AceType::Audit => "AUDIT",
            Nfs4AceType::Alarm => "ALARM",
        }
    }

    /// The symbol that says whom the entry is about.
    pub fn principal_sym(&self) -> (s: &'static str)
        ensures
            s@ == principal_symbol(self.qualifier),
    {
        match self.qualifier {
            Nfs4Qualifier::Owner => "OWNER",
            Nfs4Qualifier::OwningGroup => "OWNING_GROUP",
            Nfs4Qualifier::Everyone => "EVERYONE",
            Nfs4Qualifier::User(_) => "USER",
            Nfs4Qualifier::Group(_) => "GROUP",
        }
    }

    /// The number of the user or the group, if the entry is about one.
    pub fn id(&self) -> (r: Result<u32, Error>)
        ensures
            outcome(r) == match self.qualifier {
                Nfs4Qualifier::User(id) => Ok(id),
                Nfs4Qualifier::Group(id) => Ok(id),
                _ => Err(ErrorView::Field("id"@)),
            },
    {
        match self.qualifier {
            Nfs4Qualifier::User(id) | Nfs4Qualifier::Group(id) => Ok(id),
            _ => Err(Error::Field("id".to_owned())),
        }
    }
}

/// The symbol of what an entry does says it.
pub proof fn type_symbols_round_trip(ace_type: Nfs4AceType, name: String)
    requires
        name@ == type_symbol(ace_type),
    ensures
        type_result(Some(SpecValue::Sym(name))) == Ok::<Nfs4AceType, ErrorView>(ace_type),
{
    reveal_strlit("ALLOW");
    reveal_strlit("DENY");
    reveal_strlit("AUDIT");
    reveal_strlit("ALARM");
    assert("ALLOW"@.len() == 5 && "DENY"@.len() == 4 && "AUDIT"@.len() == 5 && "ALARM"@.len() == 5);
    assert("ALLOW"@[1] == 'L' && "AUDIT"@[1] == 'U' && "ALARM"@[1] == 'L');
    assert("ALLOW"@[2] == 'L' && "ALARM"@[2] == 'A');
}

/// What an entry does, and its bits, as its constructors take them.
pub open spec fn constructed(
    qualifier: Result<Nfs4Qualifier, ErrorView>,
    ace_type: Option<SpecValue>,
    mask: Option<SpecValue>,
    flags: Option<SpecValue>,
) -> Result<Nfs4Ace, ErrorView> {
    match type_result(ace_type) {
        Err(e) => Err(e),
        Ok(ace_type) => match cast_result(
            FlagClass::Nfs4Mask,
            mask,
            None,
            "mask: expected security.nfs4.Mask"@,
        ) {
            Err(e) => Err(e),
            Ok(mask) => match cast_result(
                FlagClass::Nfs4Flags,
                flags,
                Some(0),
                "flags: expected security.nfs4.Flags"@,
            ) {
                Err(e) => Err(e),
                Ok(flags) => match qualifier {
                    Err(e) => Err(e),
                    Ok(qualifier) => Ok(Nfs4Ace { ace_type, qualifier, mask, flags }),
                },
            },
        },
    }
}

/// A user or a group with a number.
pub open spec fn numbered(group: bool, id: SpecValue, prefix: Seq<char>) -> Result<
    Nfs4Qualifier,
    ErrorView,
> {
    match id_result(id, prefix, u32::MAX as int) {
        Err(e) => Err(e),
        Ok(n) => Ok(
            if group {
                Nfs4Qualifier::Group(n as u32)
            } else {
                Nfs4Qualifier::User(n as u32)
            },
        ),
    }
}

/// An entry about someone who needs no number.
pub fn new_nfs4_ace(
    qualifier: Nfs4Qualifier,
    ace_type: &Option<SpecValue>,
    mask: &Option<SpecValue>,
    flags: &Option<SpecValue>,
) -> (r: Result<Nfs4Ace, Error>)
    ensures
        outcome(r) == constructed(Ok(qualifier), *ace_type, *mask, *flags),
{
    let ace_type = match nfs4_ace_type(ace_type) {
        Ok(t) => t,
        Err(e) => return Err(e),
    };
    let mask: u32 = match cast_or(
        FlagClass::Nfs4Mask,
        mask,
        None,
        "mask: expected security.nfs4.Mask",
    ) {
        Ok(bits) => bits,
        Err(e) => return Err(e),
    };
    let flags: u32 = match cast_or(
        FlagClass::Nfs4Flags,
        flags,
        Some(0),
        "flags: expected security.nfs4.Flags",
    ) {
        Ok(bits) => bits,
        Err(e) => return Err(e),
    };
    Ok(Nfs4Ace { ace_type, qualifier, mask, flags })
}

/// An entry about a user or a group with a number.
pub fn new_numbered_ace(
    group: bool,
    id: &SpecValue,
    ace_type: &Option<SpecValue>,
    mask: &Option<SpecValue>,
    flags: &Option<SpecValue>,
) -> (r: Result<Nfs4Ace, Error>)
    ensures
        outcome(r) == constructed(
            numbered(
                group,
                *id,
                if group {
                    "gid"@
                } else {
                    "uid"@
                },
            ),
            *ace_type,
            *mask,
            *flags,
        ),
{
    let ace = match new_nfs4_ace(Nfs4Qualifier::Owner, ace_type, mask, flags) {
        Ok(ace) => ace,
        Err(e) => return Err(e),
    };
    let qualifier = if group {
        match posix_id(id, "gid") {
            Ok(n) => Nfs4Qualifier::Group(n),
            Err(e) => return Err(e),
        }
    } else {
        match posix_id(id, "uid") {
            Ok(n) => Nfs4Qualifier::User(n),
            Err(e) => return Err(e),
        }
    };
    Ok(Nfs4Ace { qualifier, ..ace })
}

/// What one key of a principal's specification says.
pub open spec fn principal_step(
    before: Option<Nfs4Qualifier>,
    key: SpecValue,
    entry: SpecValue,
    path: Seq<char>,
) -> Result<Option<Nfs4Qualifier>, ErrorView> {
    match key {
        SpecValue::Sym(name) => if before is Some {
            Err(ErrorView::Value(path + ": multiple principal keys"@))
        } else if name@ == "user"@ || name@ == "group"@ {
            match numbered(name@ == "group"@, entry, under_key(path, name@)) {
                Err(e) => Err(e),
                Ok(q) => Ok(Some(q)),
            }
        } else {
            Err(unknown_key(path, name@))
        },
        _ => Err(ErrorView::Value(path + ": principal keys must be symbols"@)),
    }
}

/// What the first `n` keys of a principal's specification say.
pub open spec fn principal_of(pairs: Seq<(SpecValue, SpecValue)>, n: nat, path: Seq<char>) -> Result<
    Option<Nfs4Qualifier>,
    ErrorView,
>
    decreases n,
{
    if n == 0 {
        Ok(None)
    } else {
        match principal_of(pairs, (n - 1) as nat, path) {
            Err(e) => Err(e),
            Ok(before) => principal_step(before, pairs[n - 1].0, pairs[n - 1].1, path),
        }
    }
}

proof fn lemma_principal_error(pairs: Seq<(SpecValue, SpecValue)>, n: nat, m: nat, path: Seq<char>)
    requires
        n <= m,
        principal_of(pairs, n, path) is Err,
    ensures
        principal_of(pairs, m, path) == principal_of(pairs, n, path),
    decreases m,
{
    if n < m {
        lemma_principal_error(pairs, n, (m - 1) as nat, path);
    }
}

/// Whom a value stands for.
pub open spec fn principal_result(value: SpecValue, path: Seq<char>) -> Result<
    Nfs4Qualifier,
    ErrorView,
> {
    match value {
        SpecValue::Sym(name) => if name@ == "OWNER"@ {
            Ok(Nfs4Qualifier::Owner)
        } else if name@ == "OWNING_GROUP"@ {
            Ok(Nfs4Qualifier::OwningGroup)
        } else if name@ == "EVERYONE"@ {
            Ok(Nfs4Qualifier::Everyone)
        } else {
            Err(
                ErrorView::Value(
                    path + ": expected OWNER, OWNING_GROUP, EVERYONE, user, or group"@,
                ),
            )
        },
        SpecValue::Dict(pairs) => match principal_of(pairs@, pairs@.len(), path) {
            Err(e) => Err(e),
            Ok(Some(q)) => Ok(q),
            Ok(None) => Err(ErrorView::Value(path + ": expected user or group"@)),
        },
        _ => Err(ErrorView::Type(path + ": expected principal"@)),
    }
}

/// Whom a value stands for.
pub fn coerce_principal(value: &SpecValue, path: &SpecPath) -> (r: Result<Nfs4Qualifier, Error>)
    ensures
        outcome(r) == principal_result(*value, path@),
{
    let pairs = match value {
        SpecValue::Sym(name) => {
            let name = name.as_str();
            return if str_eq(name, "OWNER") {
                Ok(Nfs4Qualifier::Owner)
            } else if str_eq(name, "OWNING_GROUP") {
                Ok(Nfs4Qualifier::OwningGroup)
            } else if str_eq(name, "EVERYONE") {
                Ok(Nfs4Qualifier::Everyone)
            } else {
                Err(path.value_error(": expected OWNER, OWNING_GROUP, EVERYONE, user, or group"))
            };
        },
        SpecValue::Dict(pairs) => pairs,
        _ => return Err(path.type_error(": expected principal")),
    };
    let mut principal: Option<Nfs4Qualifier> = None;
    let mut i: usize = 0;
    while i < pairs.len()
        invariant
            i <= pairs@.len(),
            principal_of(pairs@, i as nat, path@) == Ok::<Option<Nfs4Qualifier>, ErrorView>(
                principal,
            ),
            *value == SpecValue::Dict(*pairs),
        decreases pairs@.len() - i,
    {
        let step: Result<Nfs4Qualifier, Error> = match &pairs[i].0 {
            SpecValue::Sym(name) => {
                let name = name.as_str();
                if principal.is_some() {
                    Err(path.value_error(": multiple principal keys"))
                } else if str_eq(name, "user") {
                    match spec_id(&pairs[i].1, &path.key(name)) {
                        Ok(n) => Ok(Nfs4Qualifier::User(n)),
                        Err(e) => Err(e),
                    }
                } else if str_eq(name, "group") {
                    match spec_id(&pairs[i].1, &path.key(name)) {
                        Ok(n) => Ok(Nfs4Qualifier::Group(n)),
                        Err(e) => Err(e),
                    }
                } else {
                    Err(path.unknown_key(name))
                }
            },
            _ => Err(path.value_error(": principal keys must be symbols")),
        };
        proof {
            reveal_strlit("user");
            reveal_strlit("group");
            assert("user"@.len() == 4 && "group"@.len() == 5);
        }
        match step {
            Ok(q) => {
                principal = Some(q);
            },
            Err(e) => {
                proof {
                    lemma_principal_error(pairs@, (i + 1) as nat, pairs@.len(), path@);
                }
                return Err(e);
            },
        }
        i = i + 1;
    }
    match principal {
        Some(q) => Ok(q),
        None => Err(path.value_error(": expected user or group")),
    }
}

/// What was read of an entry's specification.
#[derive(Clone, Copy, Debug)]
pub struct Nfs4Parts {
    pub ace_type: Option<(Nfs4AceType, Nfs4Qualifier)>,
    pub mask: Option<u32>,
    pub flags: Option<u32>,
}

/// What an entry does, by the key that its principal stands under.
pub open spec fn type_key(name: Seq<char>) -> Option<Nfs4AceType> {
    if name == "allow"@ {
        Some(Nfs4AceType::Allow)
    } else if name == "deny"@ {
        Some(Nfs4AceType::Deny)
    } else if name == "audit"@ {
        Some(Nfs4AceType::Audit)
    } else if name == "alarm"@ {
        Some(Nfs4AceType::Alarm)
    } else {
        None
    }
}

fn find_type_key(name: &str) -> (r: Option<Nfs4AceType>)
    ensures
        r == type_key(name@),
{
    if str_eq(name, "allow") {
        Some(Nfs4AceType::Allow)
    } else if str_eq(name, "deny") {
        Some(Nfs4AceType::Deny)
    } else if str_eq(name, "audit") {
        Some(Nfs4AceType::Audit)
    } else if str_eq(name, "alarm") {
        Some(Nfs4AceType::Alarm)
    } else {
        None
    }
}

/// A mask at a position.
pub open spec fn mask_at(value: SpecValue, path: Seq<char>) -> Result<u32, ErrorView> {
    coerced_at(FlagClass::Nfs4Mask, value, path, ": expected security.nfs4.Mask"@)
}

/// Flags at a position.
pub open spec fn flags_at(value: SpecValue, path: Seq<char>) -> Result<u32, ErrorView> {
    coerced_at(FlagClass::Nfs4Flags, value, path, ": expected security.nfs4.Flags"@)
}

/// A mask at a position.
pub fn coerce_mask(value: &SpecValue, path: &SpecPath) -> (r: Result<u32, Error>)
    ensures
        outcome(r) == mask_at(*value, path@),
{
    coerce_at(FlagClass::Nfs4Mask, value, path, ": expected security.nfs4.Mask")
}

/// Flags at a position.
pub fn coerce_flags(value: &SpecValue, path: &SpecPath) -> (r: Result<u32, Error>)
    ensures
        outcome(r) == flags_at(*value, path@),
{
    coerce_at(FlagClass::Nfs4Flags, value, path, ": expected security.nfs4.Flags")
}

/// What one key of a specification adds.
pub open spec fn key_step(parts: Nfs4Parts, name: Seq<char>, entry: SpecValue, path: Seq<char>) -> Result<
    Nfs4Parts,
    ErrorView,
> {
    let at = under_key(path, name);
    match type_key(name) {
        Some(ace_type) => if parts.ace_type is Some {
            Err(ErrorView::Value(path + ": multiple keys name conflicting ACE types"@))
        } else {
            match principal_result(entry, at) {
                Err(e) => Err(e),
                Ok(q) => Ok(Nfs4Parts { ace_type: Some((ace_type, q)), ..parts }),
            }
        },
        None => if name == "mask"@ {
            if parts.mask is Some {
                Err(duplicate_key(path, name))
            } else {
                match mask_at(entry, at) {
                    Err(e) => Err(e),
                    Ok(bits) => Ok(Nfs4Parts { mask: Some(bits), ..parts }),
                }
            }
        } else if name == "flags"@ {
            if parts.flags is Some {
                Err(duplicate_key(path, name))
            } else {
                match flags_at(entry, at) {
                    Err(e) => Err(e),
                    Ok(bits) => Ok(Nfs4Parts { flags: Some(bits), ..parts }),
                }
            }
        } else {
            Err(unknown_key(path, name))
        },
    }
}

/// What the first `n` keys of a specification say.
pub open spec fn parts_of(pairs: Seq<(SpecValue, SpecValue)>, n: nat, path: Seq<char>) -> Result<
    Nfs4Parts,
    ErrorView,
>
    decreases n,
{
    if n == 0 {
        Ok(Nfs4Parts { ace_type: None, mask: None, flags: None })
    } else {
        match parts_of(pairs, (n - 1) as nat, path) {
            Err(e) => Err(e),
            Ok(parts) => match pairs[n - 1].0 {
                SpecValue::Sym(name) => key_step(parts, name@, pairs[n - 1].1, path),
                _ => Err(symbol_keys(path)),
            },
        }
    }
}

proof fn lemma_parts_error(pairs: Seq<(SpecValue, SpecValue)>, n: nat, m: nat, path: Seq<char>)
    requires
        n <= m,
        parts_of(pairs, n, path) is Err,
    ensures
        parts_of(pairs, m, path) == parts_of(pairs, n, path),
    decreases m,
{
    if n < m {
        lemma_parts_error(pairs, n, (m - 1) as nat, path);
    }
}

/// The entry that the parts make.
pub open spec fn parts_ace(parts: Nfs4Parts, path: Seq<char>) -> Result<Nfs4Ace, ErrorView> {
    match (parts.ace_type, parts.mask) {
        (None, _) => Err(
            ErrorView::Value(path + ": expected one of allow, deny, audit, or alarm"@),
        ),
        (_, None) => Err(ErrorView::Value(under_key(path, "mask"@) + ": required"@)),
        (Some((ace_type, qualifier)), Some(mask)) => Ok(
            Nfs4Ace {
                ace_type,
                qualifier,
                mask,
                flags: match parts.flags {
                    Some(bits) => bits,
                    None => 0,
                },
            },
        ),
    }
}

/// The entry that a value stands for.
pub open spec fn ace_result(value: SpecValue, path: Seq<char>) -> Result<Nfs4Ace, ErrorView> {
    match value {
        SpecValue::Nfs4Ace(ace) => Ok(ace),
        SpecValue::Dict(pairs) => match parts_of(pairs@, pairs@.len(), path) {
            Err(e) => Err(e),
            Ok(parts) => parts_ace(parts, path),
        },
        _ => Err(ErrorView::Type(path + ": expected security.nfs4.Ace or Dict"@)),
    }
}

fn take_key(parts: Nfs4Parts, name: &str, entry: &SpecValue, path: &SpecPath) -> (r: Result<
    Nfs4Parts,
    Error,
>)
    ensures
        outcome(r) == key_step(parts, name@, *entry, path@),
{
    let at = path.key(name);
    if let Some(ace_type) = find_type_key(name) {
        if parts.ace_type.is_some() {
            return Err(path.value_error(": multiple keys name conflicting ACE types"));
        }
        return match coerce_principal(entry, &at) {
            Err(e) => Err(e),
            Ok(q) => Ok(Nfs4Parts { ace_type: Some((ace_type, q)), ..parts }),
        };
    }
    if str_eq(name, "mask") {
        if parts.mask.is_some() {
            return Err(path.duplicate_key(name));
        }
        return match coerce_mask(entry, &at) {
            Err(e) => Err(e),
            Ok(bits) => Ok(Nfs4Parts { mask: Some(bits), ..parts }),
        };
    }
    if str_eq(name, "flags") {
        if parts.flags.is_some() {
            return Err(path.duplicate_key(name));
        }
        return match coerce_flags(entry, &at) {
            Err(e) => Err(e),
            Ok(bits) => Ok(Nfs4Parts { flags: Some(bits), ..parts }),
        };
    }
    Err(path.unknown_key(name))
}

/// The entry that a value stands for: an entry, or its specification.
pub fn coerce_ace(value: &SpecValue, path: &SpecPath) -> (r: Result<Nfs4Ace, Error>)
    ensures
        outcome(r) == ace_result(*value, path@),
{
    let pairs = match value {
        SpecValue::Nfs4Ace(ace) => return Ok(*ace),
        SpecValue::Dict(pairs) => pairs,
        _ => return Err(path.type_error(": expected security.nfs4.Ace or Dict")),
    };
    let mut parts = Nfs4Parts { ace_type: None, mask: None, flags: None };
    let mut i: usize = 0;
    while i < pairs.len()
        invariant
            i <= pairs@.len(),
            parts_of(pairs@, i as nat, path@) == Ok::<Nfs4Parts, ErrorView>(parts),
            *value == SpecValue::Dict(*pairs),
        decreases pairs@.len() - i,
    {
        let step = match &pairs[i].0 {
            SpecValue::Sym(name) => take_key(parts, name.as_str(), &pairs[i].1, path),
            _ => Err(path.value_error(": keys must be symbols")),
        };
        assert(outcome(step) == parts_of(pairs@, (i + 1) as nat, path@));
        match step {
            Ok(next) => {
                parts = next;
            },
            Err(e) => {
                proof {
                    lemma_parts_error(pairs@, (i + 1) as nat, pairs@.len(), path@);
                }
                return Err(e);
            },
        }
        i = i + 1;
    }
    let (ace_type, qualifier) = match parts.ace_type {
        Some(found) => found,
        None => return Err(
            path.value_error(": expected one of allow, deny, audit, or alarm"),
        ),
    };
    let mask: u32 = match parts.mask {
        Some(bits) => bits,
        None => return Err(path.key("mask").value_error(": required")),
    };
    let flags: u32 = match parts.flags {
        Some(bits) => bits,
        None => 0,
    };
    Ok(Nfs4Ace { ace_type, qualifier, mask, flags })
}

/// The first `n` entries that values stand for.
pub open spec fn aces_of(items: Seq<SpecValue>, n: nat, path: Seq<char>) -> Result<
    Seq<Nfs4Ace>,
    ErrorView,
>
    decreases n,
{
    if n == 0 {
        Ok(Seq::empty())
    } else {
        match aces_of(items, (n - 1) as nat, path) {
            Err(e) => Err(e),
            Ok(aces) => match ace_result(items[n - 1], at_index(path, (n - 1) as nat)) {
                Err(e) => Err(e),
                Ok(ace) => Ok(aces.push(ace)),
            },
        }
    }
}

proof fn lemma_aces_error(items: Seq<SpecValue>, n: nat, m: nat, path: Seq<char>)
    requires
        n <= m,
        aces_of(items, n, path) is Err,
    ensures
        aces_of(items, m, path) == aces_of(items, n, path),
    decreases m,
{
    if n < m {
        lemma_aces_error(items, n, (m - 1) as nat, path);
    }
}

/// The entries that values stand for.
pub fn coerce_aces(items: &Vec<SpecValue>, path: &SpecPath) -> (r: Result<Vec<Nfs4Ace>, Error>)
    ensures
        viewed(r) == aces_of(items@, items@.len(), path@),
{
    let mut aces: Vec<Nfs4Ace> = Vec::new();
    let mut i: usize = 0;
    while i < items.len()
        invariant
            i <= items@.len(),
            aces_of(items@, i as nat, path@) == Ok::<Seq<Nfs4Ace>, ErrorView>(aces@),
        decreases items@.len() - i,
    {
        match coerce_ace(&items[i], &path.index(i)) {
            Ok(ace) => aces.push(ace),
            Err(e) => {
                proof {
                    lemma_aces_error(items@, (i + 1) as nat, items@.len(), path@);
                }
                return Err(e);
            },
        }
        i = i + 1;
    }
    Ok(aces)
}

/// The list that a value stands for.
pub open spec fn acl_result(value: SpecValue, path: Seq<char>) -> Result<Seq<Nfs4Ace>, ErrorView> {
    match value {
        SpecValue::Nfs4Acl(acl) => Ok(acl@),
        SpecValue::Items(items) => aces_of(items@, items@.len(), path),
        _ => Err(ErrorView::NotSupported),
    }
}

/// The list that a value stands for: a list, or something made of entries and
/// their specifications.
pub fn coerce_acl(value: &SpecValue, path: &SpecPath) -> (r: Result<Vec<Nfs4Ace>, Error>)
    ensures
        viewed(r) == acl_result(*value, path@),
{
    match value {
        SpecValue::Nfs4Acl(acl) => Ok(copy_list(acl)),
        SpecValue::Items(items) => coerce_aces(items, path),
        _ => Err(Error::NotSupported),
    }
}

/// The entries that a list is made of, each of which has to be an entry.
pub open spec fn entries_of(items: Seq<SpecValue>, n: nat) -> Result<Seq<Nfs4Ace>, ErrorView>
    decreases n,
{
    if n == 0 {
        Ok(Seq::empty())
    } else {
        match (entries_of(items, (n - 1) as nat), items[n - 1]) {
            (Ok(aces), SpecValue::Nfs4Ace(ace)) => Ok(aces.push(ace)),
            _ => Err(ErrorView::Type("Acl: iterable must contain security.nfs4.Ace"@)),
        }
    }
}

proof fn lemma_entries_error(items: Seq<SpecValue>, n: nat, m: nat)
    requires
        n <= m,
        entries_of(items, n) is Err,
    ensures
        entries_of(items, m) == entries_of(items, n),
    decreases m,
{
    if n < m {
        lemma_entries_error(items, n, (m - 1) as nat);
        reveal_with_fuel(entries_of, 2);
    } else if n > 0 {
        reveal_with_fuel(entries_of, 2);
    }
}

/// The list made of entries.
pub fn new_nfs4_acl(items: &Vec<SpecValue>) -> (r: Result<Vec<Nfs4Ace>, Error>)
    ensures
        viewed(r) == entries_of(items@, items@.len()),
{
    let mut aces: Vec<Nfs4Ace> = Vec::new();
    let mut i: usize = 0;
    while i < items.len()
        invariant
            i <= items@.len(),
            entries_of(items@, i as nat) == Ok::<Seq<Nfs4Ace>, ErrorView>(aces@),
        decreases items@.len() - i,
    {
        match &items[i] {
            SpecValue::Nfs4Ace(ace) => aces.push(*ace),
            _ => {
                proof {
                    lemma_entries_error(items@, (i + 1) as nat, items@.len());
                }
                return Err(
                    Error::Type("Acl: iterable must contain security.nfs4.Ace".to_owned()),
                );
            },
        }
        i = i + 1;
    }
    Ok(aces)
}

/// The named arguments of an entry.
pub struct Nfs4AceArgs {
    pub mask: SpecValue,
    pub allow: Option<SpecValue>,
    pub deny: Option<SpecValue>,
    pub audit: Option<SpecValue>,
    pub alarm: Option<SpecValue>,
    pub flags: Option<SpecValue>,
}

/// What an entry does, and the value that says to whom.
pub type Named = (Nfs4AceType, SpecValue);

impl Nfs4AceArgs {
    /// The only argument that says what the entry does.
    pub open spec fn only(self) -> Result<Named, ErrorView> {
        match (self.allow, self.deny, self.audit, self.alarm) {
            (None, None, None, None) => Err(
                ErrorView::Value("ace: expected one of allow, deny, audit, or alarm"@),
            ),
            (Some(v), None, None, None) => Ok((Nfs4AceType::Allow, v)),
            (None, Some(v), None, None) => Ok((Nfs4AceType::Deny, v)),
            (None, None, Some(v), None) => Ok((Nfs4AceType::Audit, v)),
            (None, None, None, Some(v)) => Ok((Nfs4AceType::Alarm, v)),
            _ => Err(ErrorView::Value("ace: multiple keys name conflicting ACE types"@)),
        }
    }

    /// The entry that the arguments say.
    pub open spec fn result(self) -> Result<Nfs4Ace, ErrorView> {
        match self.only() {
            Err(e) => Err(e),
            Ok((ace_type, principal)) => match principal_result(principal, "ace.principal"@) {
                Err(e) => Err(e),
                Ok(qualifier) => match mask_at(self.mask, "ace.mask"@) {
                    Err(e) => Err(e),
                    Ok(mask) => match self.flags {
                        None => Ok(Nfs4Ace { ace_type, qualifier, mask, flags: 0 }),
                        Some(value) => match flags_at(value, "ace.flags"@) {
                            Err(e) => Err(e),
                            Ok(flags) => Ok(Nfs4Ace { ace_type, qualifier, mask, flags }),
                        },
                    },
                },
            },
        }
    }
}

/// The entry that named arguments say.
pub fn ace_from_args(args: &Nfs4AceArgs) -> (r: Result<Nfs4Ace, Error>)
    ensures
        outcome(r) == args.result(),
{
    let (ace_type, principal) = match (&args.allow, &args.deny, &args.audit, &args.alarm) {
        (None, None, None, None) => return Err(
            Error::Value("ace: expected one of allow, deny, audit, or alarm".to_owned()),
        ),
        (Some(v), None, None, None) => (Nfs4AceType::Allow, v),
        (None, Some(v), None, None) => (Nfs4AceType::Deny, v),
        (None, None, Some(v), None) => (Nfs4AceType::Audit, v),
        (None, None, None, Some(v)) => (Nfs4AceType::Alarm, v),
        _ => return Err(
            Error::Value("ace: multiple keys name conflicting ACE types".to_owned()),
        ),
    };
    let qualifier = match coerce_principal(principal, &SpecPath::root("ace.principal")) {
        Ok(q) => q,
        Err(e) => return Err(e),
    };
    let mask: u32 = match coerce_mask(&args.mask, &SpecPath::root("ace.mask")) {
        Ok(bits) => bits,
        Err(e) => return Err(e),
    };
    let flags: u32 = match &args.flags {
        None => 0,
        Some(value) => match coerce_flags(value, &SpecPath::root("ace.flags")) {
            Ok(bits) => bits,
            Err(e) => return Err(e),
        },
    };
    Ok(Nfs4Ace { ace_type, qualifier, mask, flags })
}

/// Entries stand for themselves, one by one and as a list.
pub proof fn entries_stand_for_themselves(
    aces: Seq<Nfs4Ace>,
    items: Seq<SpecValue>,
    n: nat,
    path: Seq<char>,
)
    requires
        items.len() == aces.len(),
        forall|i: int| 0 <= i < aces.len() ==> #[trigger] items[i] == SpecValue::Nfs4Ace(aces[i]),
        n <= aces.len(),
    ensures
        aces_of(items, n, path) == Ok::<Seq<Nfs4Ace>, ErrorView>(aces.take(n as int)),
        entries_of(items, n) == Ok::<Seq<Nfs4Ace>, ErrorView>(aces.take(n as int)),
    decreases n,
{
    if n == 0 {
        assert(aces.take(0) =~= Seq::empty());
    } else {
        entries_stand_for_themselves(aces, items, (n - 1) as nat, path);
        assert(items[n - 1] == SpecValue::Nfs4Ace(aces[n - 1]));
        assert(aces.take(n as int) =~= aces.take(n - 1).push(aces[n - 1]));
    }
}

} // verus!

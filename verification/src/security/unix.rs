//! Access control lists of Unix files.

use vstd::prelude::*;
use crate::error::{outcome, viewed, Error, ErrorView};
use crate::security::coerce::{
    cast_or, cast_result, coerce_at, coerced_at, id_result, posix_id, spec_id,
};
use crate::security::model::{copy_list, FlagClass, PosixAce, PosixQualifier, SpecValue};
use crate::security::path::{
    at_index, duplicate_key, reported, symbol_keys, under_key, unknown_key, SpecPath,
};
use crate::text::str_eq;

verus! {

broadcast use vstd::string::group_string_axioms;

/// The credentials of a Unix process.
#[derive(Debug)]
pub struct UnixSecurityInfo {
    pub uid: u32,
    pub gid: u32,
    pub effective_uid: u32,
    pub effective_gid: u32,
    pub groups: Vec<u32>,
}

/// The credentials of a Unix process, as a program sees them.
#[derive(Debug)]
pub struct Identity {
    pub uid: u32,
    pub gid: u32,
    pub euid: u32,
    pub egid: u32,
    pub groups: Vec<u32>,
}

/// The credentials of a Unix process, as a program sees them.
pub fn create_identity(info: &UnixSecurityInfo) -> (identity: Identity)
    ensures
        identity.uid == info.uid,
        identity.gid == info.gid,
        identity.euid == info.effective_uid,
        identity.egid == info.effective_gid,
        identity.groups@ == info.groups@,
{
    Identity {
        uid: info.uid,
        gid: info.gid,
        euid: info.effective_uid,
        egid: info.effective_gid,
        groups: copy_list(&info.groups),
    }
}

/// A list as a program sees it: none is nil.
pub fn create_posix_acl(acl: Option<Vec<PosixAce>>) -> (value: SpecValue)
    ensures
        value == match acl {
            Some(acl) => SpecValue::PosixAcl(acl),
            None => SpecValue::Nil,
        },
{
    match acl {
        Some(acl) => SpecValue::PosixAcl(acl),
        None => SpecValue::Nil,
    }
}

/// An entry about someone who needs no number, with the permissions given.
pub fn new_posix_ace(qualifier: PosixQualifier, permissions: &Option<SpecValue>) -> (r: Result<
    PosixAce,
    Error,
>)
    ensures
        outcome(r) == match cast_result(
            FlagClass::Permission,
            *permissions,
            Some(0),
            "expected security.unix.Permission"@,
        ) {
            Ok(bits) => Ok(PosixAce { qualifier, permissions: bits }),
            Err(e) => Err(e),
        },
{
    match cast_or(
        FlagClass::Permission,
        permissions,
        Some(0),
        "expected security.unix.Permission",
    ) {
        Ok(bits) => Ok(PosixAce { qualifier, permissions: bits }),
        Err(e) => Err(e),
    }
}

/// An entry about a user or a group with a number.
pub open spec fn numbered_ace(group: bool, id: SpecValue, permissions: Option<SpecValue>) -> Result<
    PosixAce,
    ErrorView,
> {
    match cast_result(
        FlagClass::Permission,
        permissions,
        Some(0),
        "expected security.unix.Permission"@,
    ) {
        Err(e) => Err(e),
        Ok(bits) => match id_result(
            id,
            if group {
                "gid"@
            } else {
                "uid"@
            },
            u32::MAX as int,
        ) {
            Err(e) => Err(e),
            Ok(n) => Ok(
                PosixAce {
                    qualifier: if group {
                        PosixQualifier::Group(n as u32)
                    } else {
                        PosixQualifier::User(n as u32)
                    },
                    permissions: bits,
                },
            ),
        },
    }
}

/// An entry about a user or a group with a number.
pub fn new_numbered_ace(group: bool, id: &SpecValue, permissions: &Option<SpecValue>) -> (r: Result<
    PosixAce,
    Error,
>)
    ensures
        outcome(r) == numbered_ace(group, *id, *permissions),
{
    let bits: u32 = match cast_or(
        FlagClass::Permission,
        permissions,
        Some(0),
        "expected security.unix.Permission",
    ) {
        Ok(bits) => bits,
        Err(e) => return Err(e),
    };
    if group {
        match posix_id(id, "gid") {
            Ok(n) => Ok(PosixAce { qualifier: PosixQualifier::Group(n), permissions: bits }),
            Err(e) => Err(e),
        }
    } else {
        match posix_id(id, "uid") {
            Ok(n) => Ok(PosixAce { qualifier: PosixQualifier::User(n), permissions: bits }),
            Err(e) => Err(e),
        }
    }
}

/// The symbol that says whom an entry is about.
pub open spec fn qualifier_symbol(qualifier: PosixQualifier) -> Seq<char> {
    match qualifier {
        PosixQualifier::UserObj => "USER_OBJ"@,
        PosixQualifier::User(_) => "USER"@,
        PosixQualifier::GroupObj => "GROUP_OBJ"@,
        PosixQualifier::Group(_) => "GROUP"@,
        PosixQualifier::Mask => "MASK"@,
        PosixQualifier::Other => "OTHER"@,
    }
}

impl PosixAce {
    /// The symbol that says whom the entry is about.
    pub fn type_sym(&self) -> (s: &'static str)
        ensures
            s@ == qualifier_symbol(self.qualifier),
    {
        match self.qualifier {
            PosixQualifier::UserObj => "USER_OBJ",
            PosixQualifier::User(_) => "USER",
            PosixQualifier::GroupObj => "GROUP_OBJ",
            PosixQualifier::Group(_) => "GROUP",
            PosixQualifier::Mask => "MASK",
            PosixQualifier::Other => "OTHER",
        }
    }

    /// The number of the user or the group, if the entry is about one.
    pub fn id(&self) -> (r: Result<u32, Error>)
        ensures
            outcome(r) == match self.qualifier {
                PosixQualifier::User(id) => Ok(id),
                PosixQualifier::Group(id) => Ok(id),
                _ => Err(ErrorView::Field("id"@)),
            },
    {
        match self.qualifier {
            PosixQualifier::User(id) | PosixQualifier::Group(id) => Ok(id),
            _ => Err(Error::Field("id".to_owned())),
        }
    }
}

/// What was read of an entry's specification.
#[derive(Clone, Copy, Debug, PartialEq, Eq, Structural)]
pub struct PosixParts {
    pub qualifier: Option<PosixQualifier>,
    pub permissions: Option<u32>,
    /// Whether the permissions stand under a key of their own.
    pub separate: bool,
}

/// Nothing.
pub open spec fn no_parts() -> PosixParts {
    PosixParts { qualifier: None, permissions: None, separate: false }
}

/// The qualifiers that are named with their permissions.
pub open spec fn plain_qualifier(name: Seq<char>) -> Option<PosixQualifier> {
    if name == "user_obj"@ {
        Some(PosixQualifier::UserObj)
    } else if name == "group_obj"@ {
        Some(PosixQualifier::GroupObj)
    } else if name == "mask"@ {
        Some(PosixQualifier::Mask)
    } else if name == "other"@ {
        Some(PosixQualifier::Other)
    } else {
        None
    }
}

fn find_plain_qualifier(name: &str) -> (r: Option<PosixQualifier>)
    ensures
        r == plain_qualifier(name@),
{
    if str_eq(name, "user_obj") {
        Some(PosixQualifier::UserObj)
    } else if str_eq(name, "group_obj") {
        Some(PosixQualifier::GroupObj)
    } else if str_eq(name, "mask") {
        Some(PosixQualifier::Mask)
    } else if str_eq(name, "other") {
        Some(PosixQualifier::Other)
    } else {
        None
    }
}

/// The error of two qualifiers.
pub open spec fn two_qualifiers(path: Seq<char>) -> ErrorView {
    ErrorView::Value(path + ": multiple keys name conflicting qualifiers"@)
}

/// Permissions at a position.
pub open spec fn permissions_at(value: SpecValue, path: Seq<char>) -> Result<u32, ErrorView> {
    coerced_at(FlagClass::Permission, value, path, ": expected security.unix.Permission"@)
}

/// Permissions at a position.
pub fn coerce_permissions(value: &SpecValue, path: &SpecPath) -> (r: Result<u32, Error>)
    ensures
        outcome(r) == permissions_at(*value, path@),
{
    coerce_at(FlagClass::Permission, value, path, ": expected security.unix.Permission")
}

/// What one key of a specification adds.
pub open spec fn key_step(parts: PosixParts, name: Seq<char>, entry: SpecValue, path: Seq<char>) -> Result<
    PosixParts,
    ErrorView,
> {
    let at = under_key(path, name);
    if plain_qualifier(name) is Some {
        if parts.qualifier is Some {
            Err(two_qualifiers(path))
        } else if parts.separate {
            Err(ErrorView::Value(path + ": permissions conflicts with qualifier value"@))
        } else {
            match permissions_at(entry, at) {
                Err(e) => Err(e),
                Ok(bits) => Ok(
                    PosixParts {
                        qualifier: plain_qualifier(name),
                        permissions: Some(bits),
                        ..parts
                    },
                ),
            }
        }
    } else if name == "user"@ || name == "group"@ {
        if parts.qualifier is Some {
            Err(two_qualifiers(path))
        } else {
            match id_result(entry, at, u32::MAX as int) {
                Err(e) => Err(e),
                Ok(n) => Ok(
                    PosixParts {
                        qualifier: Some(
                            if name == "user"@ {
                                PosixQualifier::User(n as u32)
                            } else {
                                PosixQualifier::Group(n as u32)
                            },
                        ),
                        ..parts
                    },
                ),
            }
        }
    } else if name == "permissions"@ {
        if parts.permissions is Some {
            Err(duplicate_key(path, name))
        } else {
            match permissions_at(entry, at) {
                Err(e) => Err(e),
                Ok(bits) => Ok(
                    PosixParts { permissions: Some(bits), separate: true, ..parts },
                ),
            }
        }
    } else {
        Err(unknown_key(path, name))
    }
}

/// What the first `n` keys of a specification say.
pub open spec fn parts_of(pairs: Seq<(SpecValue, SpecValue)>, n: nat, path: Seq<char>) -> Result<
    PosixParts,
    ErrorView,
>
    decreases n,
{
    if n == 0 {
        Ok(no_parts())
    } else {
        match parts_of(pairs, (n - 1) as nat, path) {
            Err(e) => Err(e),
            Ok(parts) => match pairs[n - 1].0 {
                SpecValue::Sym(name) => key_step(parts, name@, pairs[n - 1].1, path),
                _ => Err(symbol_keys(path)),
            },
        }
    }
}

proof fn lemma_parts_error(pairs: Seq<(SpecValue, SpecValue)>, n: nat, m: nat, path: Seq<char>)
    requires
        n <= m,
        parts_of(pairs, n, path) is Err,
    ensures
        parts_of(pairs, m, path) == parts_of(pairs, n, path),
    decreases m,
{
    if n < m {
        lemma_parts_error(pairs, n, (m - 1) as nat, path);
    }
}

/// The entry that the parts make: those that are about no number need their
/// permissions.
pub open spec fn parts_ace(parts: PosixParts, path: Seq<char>) -> Result<PosixAce, ErrorView> {
    match parts.qualifier {
        None => Err(ErrorView::Value(path + ": expected one qualifier"@)),
        Some(qualifier) => if !(qualifier is User) && !(qualifier is Group)
            && parts.permissions is None {
            Err(ErrorView::Value(path + ": qualifier requires permissions"@))
        } else {
            Ok(
                PosixAce {
                    qualifier,
                    permissions: match parts.permissions {
                        Some(bits) => bits,
                        None => 0,
                    },
                },
            )
        },
    }
}

/// The entry that a value stands for.
pub open spec fn ace_result(value: SpecValue, path: Seq<char>) -> Result<PosixAce, ErrorView> {
    match value {
        SpecValue::PosixAce(ace) => Ok(ace),
        SpecValue::Dict(pairs) => match parts_of(pairs@, pairs@.len(), path) {
            Err(e) => Err(e),
            Ok(parts) => parts_ace(parts, path),
        },
        _ => Err(ErrorView::Type(path + ": expected security.unix.Ace or Dict"@)),
    }
}

fn take_key(parts: PosixParts, name: &str, entry: &SpecValue, path: &SpecPath) -> (r: Result<
    PosixParts,
    Error,
>)
    ensures
        outcome(r) == key_step(parts, name@, *entry, path@),
{
    let at = path.key(name);
    if let Some(qualifier) = find_plain_qualifier(name) {
        if parts.qualifier.is_some() {
            return Err(path.value_error(": multiple keys name conflicting qualifiers"));
        }
        if parts.separate {
            return Err(path.value_error(": permissions conflicts with qualifier value"));
        }
        return match coerce_permissions(entry, &at) {
            Err(e) => Err(e),
            Ok(bits) => Ok(
                PosixParts { qualifier: Some(qualifier), permissions: Some(bits), ..parts },
            ),
        };
    }
    let user = str_eq(name, "user");
    if user || str_eq(name, "group") {
        if parts.qualifier.is_some() {
            return Err(path.value_error(": multiple keys name conflicting qualifiers"));
        }
        return match spec_id(entry, &at) {
            Err(e) => Err(e),
            Ok(n) => {
                let qualifier = if user {
                    PosixQualifier::User(n)
                } else {
                    PosixQualifier::Group(n)
                };
                Ok(PosixParts { qualifier: Some(qualifier), ..parts })
            },
        };
    }
    if str_eq(name, "permissions") {
        if parts.permissions.is_some() {
            return Err(path.duplicate_key(name));
        }
        return match coerce_permissions(entry, &at) {
            Err(e) => Err(e),
            Ok(bits) => Ok(PosixParts { permissions: Some(bits), separate: true, ..parts }),
        };
    }
    Err(path.unknown_key(name))
}

/// The entry that a value stands for: an entry, or its specification.
pub fn coerce_ace(value: &SpecValue, path: &SpecPath) -> (r: Result<PosixAce, Error>)
    ensures
        outcome(r) == ace_result(*value, path@),
{
    let pairs = match value {
        SpecValue::PosixAce(ace) => return Ok(*ace),
        SpecValue::Dict(pairs) => pairs,
        _ => return Err(path.type_error(": expected security.unix.Ace or Dict")),
    };
    let mut parts = PosixParts { qualifier: None, permissions: None, separate: false };
    let mut i: usize = 0;
    while i < pairs.len()
        invariant
            i <= pairs@.len(),
            parts_of(pairs@, i as nat, path@) == Ok::<PosixParts, ErrorView>(parts),
            ace_result(*value, path@) == match parts_of(pairs@, pairs@.len(), path@) {
                Err(e) => Err(e),
                Ok(parts) => parts_ace(parts, path@),
            },
        decreases pairs@.len() - i,
    {
        let step = match &pairs[i].0 {
            SpecValue::Sym(name) => take_key(parts, name.as_str(), &pairs[i].1, path),
            _ => Err(path.value_error(": keys must be symbols")),
        };
        assert(outcome(step) == parts_of(pairs@, (i + 1) as nat, path@));
        match step {
            Ok(next) => {
                parts = next;
            },
            Err(e) => {
                proof {
                    lemma_parts_error(pairs@, (i + 1) as nat, pairs@.len(), path@);
                }
                return Err(e);
            },
        }
        i = i + 1;
    }
    match parts.qualifier {
        None => Err(path.value_error(": expected one qualifier")),
        Some(qualifier) => {
            let numbered = match qualifier {
                PosixQualifier::User(_) | PosixQualifier::Group(_) => true,
                _ => false,
            };
            match parts.permissions {
                Some(bits) => Ok(PosixAce { qualifier, permissions: bits }),
                None => {
                    if numbered {
                        Ok(PosixAce { qualifier, permissions: 0 })
                    } else {
                        Err(path.value_error(": qualifier requires permissions"))
                    }
                },
            }
        },
    }
}

/// The first `n` entries that values stand for.
pub open spec fn aces_of(items: Seq<SpecValue>, n: nat, path: Seq<char>) -> Result<
    Seq<PosixAce>,
    ErrorView,
>
    decreases n,
{
    if n == 0 {
        Ok(Seq::empty())
    } else {
        match aces_of(items, (n - 1) as nat, path) {
            Err(e) => Err(e),
            Ok(aces) => match ace_result(items[n - 1], at_index(path, (n - 1) as nat)) {
                Err(e) => Err(e),
                Ok(ace) => Ok(aces.push(ace)),
            },
        }
    }
}

proof fn lemma_aces_error(items: Seq<SpecValue>, n: nat, m: nat, path: Seq<char>)
    requires
        n <= m,
        aces_of(items, n, path) is Err,
    ensures
        aces_of(items, m, path) == aces_of(items, n, path),
    decreases m,
{
    if n < m {
        lemma_aces_error(items, n, (m - 1) as nat, path);
    }
}

/// The entries that values stand for.
pub fn coerce_aces(items: &Vec<SpecValue>, path: &SpecPath) -> (r: Result<Vec<PosixAce>, Error>)
    ensures
        viewed(r) == aces_of(items@, items@.len(), path@),
{
    let mut aces: Vec<PosixAce> = Vec::new();
    let mut i: usize = 0;
    while i < items.len()
        invariant
            i <= items@.len(),
            aces_of(items@, i as nat, path@) == Ok::<Seq<PosixAce>, ErrorView>(aces@),
        decreases items@.len() - i,
    {
        match coerce_ace(&items[i], &path.index(i)) {
            Ok(ace) => aces.push(ace),
            Err(e) => {
                proof {
                    lemma_aces_error(items@, (i + 1) as nat, items@.len(), path@);
                }
                return Err(e);
            },
        }
        i = i + 1;
    }
    Ok(aces)
}

/// The entries of the list that a value stands for.
pub open spec fn acl_result(value: SpecValue, path: Seq<char>) -> Result<Seq<PosixAce>, ErrorView> {
    match value {
        SpecValue::PosixAcl(acl) => Ok(acl@),
        SpecValue::Items(items) => aces_of(items@, items@.len(), path),
        _ => Err(ErrorView::NotSupported),
    }
}

/// The entries of the list that a value stands for: a list, or something made
/// of entries and their specifications.
pub fn coerce_acl(value: &SpecValue, path: &SpecPath) -> (r: Result<Vec<PosixAce>, Error>)
    ensures
        viewed(r) == acl_result(*value, path@),
{
    match value {
        SpecValue::PosixAcl(acl) => Ok(copy_list(acl)),
        SpecValue::Items(items) => coerce_aces(items, path),
        _ => Err(Error::NotSupported),
    }
}

/// The entries that a list is made of, each of which has to be an entry.
pub open spec fn entries_of(items: Seq<SpecValue>, n: nat) -> Result<Seq<PosixAce>, ErrorView>
    decreases n,
{
    if n == 0 {
        Ok(Seq::empty())
    } else {
        match (entries_of(items, (n - 1) as nat), items[n - 1]) {
            (Ok(aces), SpecValue::PosixAce(ace)) => Ok(aces.push(ace)),
            _ => Err(ErrorView::Type("Acl: iterable must contain security.unix.Ace"@)),
        }
    }
}

proof fn lemma_entries_error(items: Seq<SpecValue>, n: nat, m: nat)
    requires
        n <= m,
        entries_of(items, n) is Err,
    ensures
        entries_of(items, m) == entries_of(items, n),
    decreases m,
{
    if n < m {
        lemma_entries_error(items, n, (m - 1) as nat);
        reveal_with_fuel(entries_of, 2);
    } else if n > 0 {
        reveal_with_fuel(entries_of, 2);
    }
}

/// The entries that a list is made of.
pub fn new_posix_acl(items: &Vec<SpecValue>) -> (r: Result<Vec<PosixAce>, Error>)
    ensures
        viewed(r) == entries_of(items@, items@.len()),
{
    let mut aces: Vec<PosixAce> = Vec::new();
    let mut i: usize = 0;
    while i < items.len()
        invariant
            i <= items@.len(),
            entries_of(items@, i as nat) == Ok::<Seq<PosixAce>, ErrorView>(aces@),
        decreases items@.len() - i,
    {
        match &items[i] {
            SpecValue::PosixAce(ace) => aces.push(*ace),
            _ => {
                proof {
                    lemma_entries_error(items@, (i + 1) as nat, items@.len());
                }
                return Err(
                    Error::Type("Acl: iterable must contain security.unix.Ace".to_owned()),
                );
            },
        }
        i = i + 1;
    }
    Ok(aces)
}

/// A list as its constructor makes it, once it is known whether its entries
/// make one. The constructor reports the problem as it is.
pub fn posix_acl_outcome(entries: Vec<PosixAce>, problem: Option<String>) -> (r: Result<
    Vec<PosixAce>,
    Error,
>)
    ensures
        outcome(r) == match problem {
            Some(e) => Err(ErrorView::Value(e@)),
            None => Ok(entries),
        },
{
    match problem {
        Some(e) => Err(Error::Value(e)),
        None => Ok(entries),
    }
}

/// A list that is specified, once it is known whether its entries make one.
pub fn validated(entries: Vec<PosixAce>, problem: &Option<String>, path: &SpecPath) -> (r: Result<
    Vec<PosixAce>,
    Error,
>)
    ensures
        outcome(r) == match *problem {
            Some(e) => Err(reported(path@, e@)),
            None => Ok(entries),
        },
{
    match problem {
        Some(e) => Err(path.reported(e.as_str())),
        None => Ok(entries),
    }
}

/// An argument of a list: an entry, or something under a key.
#[derive(Debug)]
pub enum AclArg {
    Pos(SpecValue),
    Key(String),
}

/// The entries that the first `n` arguments of a list stand for; a list takes
/// nothing under a key.
pub open spec fn args_aces(args: Seq<AclArg>, n: nat) -> Result<Seq<PosixAce>, ErrorView>
    decreases n,
{
    if n == 0 {
        Ok(Seq::empty())
    } else {
        match args_aces(args, (n - 1) as nat) {
            Err(e) => Err(e),
            Ok(aces) => match args[n - 1] {
                AclArg::Key(name) => Err(ErrorView::UnexpectedKey(name@)),
                AclArg::Pos(value) => match ace_result(value, at_index("acl"@, (n - 1) as nat)) {
                    Err(e) => Err(e),
                    Ok(ace) => Ok(aces.push(ace)),
                },
            },
        }
    }
}

proof fn lemma_args_error(args: Seq<AclArg>, n: nat, m: nat)
    requires
        n <= m,
        args_aces(args, n) is Err,
    ensures
        args_aces(args, m) == args_aces(args, n),
    decreases m,
{
    if n < m {
        lemma_args_error(args, n, (m - 1) as nat);
    }
}

/// The entries that the arguments of a list stand for.
pub fn acl_from_args(args: &Vec<AclArg>) -> (r: Result<Vec<PosixAce>, Error>)
    ensures
        viewed(r) == args_aces(args@, args@.len()),
{
    let path = SpecPath::root("acl");
    let mut aces: Vec<PosixAce> = Vec::new();
    let mut i: usize = 0;
    while i < args.len()
        invariant
            i <= args@.len(),
            path@ == "acl"@,
            args_aces(args@, i as nat) == Ok::<Seq<PosixAce>, ErrorView>(aces@),
        decreases args@.len() - i,
    {
        let one = match &args[i] {
            AclArg::Key(name) => Err(Error::UnexpectedKey(name.clone())),
            AclArg::Pos(value) => coerce_ace(value, &path.index(i)),
        };
        match one {
            Ok(ace) => aces.push(ace),
            Err(e) => {
                proof {
                    lemma_args_error(args@, (i + 1) as nat, args@.len());
                }
                return Err(e);
            },
        }
        i = i + 1;
    }
    Ok(aces)
}

/// The named arguments of an entry.
pub struct PosixAceArgs {
    pub user_obj: Option<SpecValue>,
    pub group_obj: Option<SpecValue>,
    pub mask: Option<SpecValue>,
    pub other: Option<SpecValue>,
    pub user: Option<SpecValue>,
    pub group: Option<SpecValue>,
    pub permissions: Option<SpecValue>,
}

/// A qualifier that was found, and the permissions given with it.
pub type Found = (PosixQualifier, Option<u32>);

/// What a qualifier that comes with permissions adds to those found.
pub open spec fn found_plain(
    found: Result<Seq<Found>, ErrorView>,
    qualifier: PosixQualifier,
    value: Option<SpecValue>,
) -> Result<Seq<Found>, ErrorView> {
    match (found, value) {
        (Ok(v), Some(value)) => match permissions_at(value, "ace"@) {
            Ok(bits) => Ok(v.push((qualifier, Some(bits)))),
            Err(e) => Err(e),
        },
        _ => found,
    }
}

/// What a qualifier with a number adds to those found.
pub open spec fn found_numbered(
    found: Result<Seq<Found>, ErrorView>,
    group: bool,
    value: Option<SpecValue>,
) -> Result<Seq<Found>, ErrorView> {
    match (found, value) {
        (Ok(v), Some(value)) => match id_result(
            value,
            if group {
                "ace.group"@
            } else {
                "ace.user"@
            },
            u32::MAX as int,
        ) {
            Ok(n) => Ok(
                v.push(
                    (
                        if group {
                            PosixQualifier::Group(n as u32)
                        } else {
                            PosixQualifier::User(n as u32)
                        },
                        None,
                    ),
                ),
            ),
            Err(e) => Err(e),
        },
        _ => found,
    }
}

impl PosixAceArgs {
    /// The qualifiers that the arguments name, in order.
    pub open spec fn found(self) -> Result<Seq<Found>, ErrorView> {
        let f = Ok(Seq::empty());
        let f = found_plain(f, PosixQualifier::UserObj, self.user_obj);
        let f = found_plain(f, PosixQualifier::GroupObj, self.group_obj);
        let f = found_plain(f, PosixQualifier::Mask, self.mask);
        let f = found_plain(f, PosixQualifier::Other, self.other);
        let f = found_numbered(f, false, self.user);
        found_numbered(f, true, self.group)
    }

    /// The entry that the arguments say.
    pub open spec fn result(self) -> Result<PosixAce, ErrorView> {
        match self.found() {
            Err(e) => Err(e),
            Ok(found) => if found.len() == 0 {
                Err(ErrorView::Value("ace: expected one qualifier"@))
            } else if found.len() > 1 {
                Err(ErrorView::Value("ace: multiple keys name conflicting qualifiers"@))
            } else {
                let (qualifier, inline) = found[0];
                match (inline, self.permissions) {
                    (Some(_), Some(_)) => Err(
                        ErrorView::Value("ace: permissions conflicts with qualifier value"@),
                    ),
                    (Some(bits), None) => Ok(PosixAce { qualifier, permissions: bits }),
                    (None, Some(value)) => match permissions_at(value, "ace.permissions"@) {
                        Ok(bits) => Ok(PosixAce { qualifier, permissions: bits }),
                        Err(e) => Err(e),
                    },
                    (None, None) => Ok(PosixAce { qualifier, permissions: 0 }),
                }
            },
        }
    }
}

fn find_plain(
    found: Result<Vec<Found>, Error>,
    qualifier: PosixQualifier,
    value: &Option<SpecValue>,
) -> (r: Result<Vec<Found>, Error>)
    ensures
        viewed(r) == found_plain(viewed(found), qualifier, *value),
{
    match found {
        Ok(v) => match value {
            Some(value) => match coerce_permissions(value, &SpecPath::root("ace")) {
                Ok(bits) => {
                    let mut v = v;
                    v.push((qualifier, Some(bits)));
                    Ok(v)
                },
                Err(e) => Err(e),
            },
            None => Ok(v),
        },
        Err(e) => Err(e),
    }
}

fn find_numbered(found: Result<Vec<Found>, Error>, group: bool, value: &Option<SpecValue>) -> (r:
    Result<Vec<Found>, Error>)
    ensures
        viewed(r) == found_numbered(viewed(found), group, *value),
{
    match found {
        Ok(v) => match value {
            Some(value) => {
                let path = if group {
                    SpecPath::root("ace.group")
                } else {
                    SpecPath::root("ace.user")
                };
                match spec_id(value, &path) {
                    Ok(n) => {
                        let mut v = v;
                        let qualifier = if group {
                            PosixQualifier::Group(n)
                        } else {
                            PosixQualifier::User(n)
                        };
                        v.push((qualifier, None));
                        Ok(v)
                    },
                    Err(e) => Err(e),
                }
            },
            None => Ok(v),
        },
        Err(e) => Err(e),
    }
}

/// The entry that named arguments say.
pub fn ace_from_args(args: &PosixAceArgs) -> (r: Result<PosixAce, Error>)
    ensures
        outcome(r) == args.result(),
{
    let none: Vec<Found> = Vec::new();
    let f: Result<Vec<Found>, Error> = Ok(none);
    assert(none@ =~= Seq::empty());
    let f = find_plain(f, PosixQualifier::UserObj, &args.user_obj);
    let f = find_plain(f, PosixQualifier::GroupObj, &args.group_obj);
    let f = find_plain(f, PosixQualifier::Mask, &args.mask);
    let f = find_plain(f, PosixQualifier::Other, &args.other);
    let f = find_numbered(f, false, &args.user);
    let found = match find_numbered(f, true, &args.group) {
        Ok(found) => found,
        Err(e) => return Err(e),
    };
    if found.len() == 0 {
        return Err(Error::Value("ace: expected one qualifier".to_owned()));
    }
    if found.len() > 1 {
        return Err(Error::Value("ace: multiple keys name conflicting qualifiers".to_owned()));
    }
    let (qualifier, inline) = found[0];
    match inline {
        Some(bits) => {
            if args.permissions.is_some() {
                return Err(
                    Error::Value("ace: permissions conflicts with qualifier value".to_owned()),
                );
            }
            Ok(PosixAce { qualifier, permissions: bits })
        },
        None => match &args.permissions {
            Some(value) => match coerce_permissions(value, &SpecPath::root("ace.permissions")) {
                Ok(bits) => Ok(PosixAce { qualifier, permissions: bits }),
                Err(e) => Err(e),
            },
            None => Ok(PosixAce { qualifier, permissions: 0 }),
        },
    }
}

/// A specification of an entry says what its constructor makes: about someone
/// who needs no number, with permissions of the right kind.
pub proof fn specifications_match_constructors(
    key: String,
    permissions: u32,
    pairs: Vec<(SpecValue, SpecValue)>,
    path: Seq<char>,
)
    requires
        plain_qualifier(key@) is Some,
        pairs@ == seq![
            (SpecValue::Sym(key), SpecValue::Flags(FlagClass::Permission, permissions)),
        ],
    ensures
        ace_result(SpecValue::Dict(pairs), path) == Ok::<PosixAce, ErrorView>(
            PosixAce { qualifier: plain_qualifier(key@)->0, permissions },
        ),
{
    reveal_with_fuel(parts_of, 2);
    assert(pairs@[0].0 == SpecValue::Sym(key));
}

/// A list of entries stands for those entries.
pub proof fn entries_stand_for_themselves(
    aces: Seq<PosixAce>,
    items: Seq<SpecValue>,
    n: nat,
    path: Seq<char>,
)
    requires
        items.len() == aces.len(),
        forall|i: int| 0 <= i < aces.len() ==> #[trigger] items[i] == SpecValue::PosixAce(aces[i]),
        n <= aces.len(),
    ensures
        aces_of(items, n, path) == Ok::<Seq<PosixAce>, ErrorView>(aces.take(n as int)),
        entries_of(items, n) == Ok::<Seq<PosixAce>, ErrorView>(aces.take(n as int)),
    decreases n,
{
    if n == 0 {
        assert(aces.take(0) =~= Seq::empty());
    } else {
        entries_stand_for_themselves(aces, items, (n - 1) as nat, path);
        assert(items[n - 1] == SpecValue::PosixAce(aces[n - 1]));
        assert(aces.take(n as int) =~= aces.take(n - 1).push(aces[n - 1]));
    }
}

} // verus!

//! What entries and lists of Unix, NFS and macOS files say, in terms of the
//! arguments that they were made from, and what is asked about their users.

use vstd::prelude::*;
use crate::error::ErrorView;
use crate::security::acl_input::{input_result, kind_result, AclKind, AnyAclView};
use crate::security::lookup::{unix_id_query, unix_name};
use crate::security::macos;
use crate::security::macos::{
    id_query, tagged, uuid_query, IdQuery, MacosAceArgs, PrincipalId, PrincipalIdKind,
    PrincipalQuery,
};
use crate::security::meaning::{
    flags_mean_their_bits, means_bits, means_number, means_uuid, values_mean_themselves,
};
use crate::security::model::{
    FlagClass, MacosAce, MacosAceType, Nfs4Ace, Nfs4AceType, Nfs4Qualifier, PosixAce,
    PosixQualifier, SpecValue,
};
use crate::security::nfs4;
use crate::security::nfs4::Nfs4AceArgs;
use crate::security::path::at_index;
use crate::security::portable_laws::{means_principal, principals_mean_themselves};
use crate::security::unix;
use crate::security::unix::{args_aces, numbered_ace, AclArg, PosixAceArgs};
use crate::shell::sys::{OperatingSystem, Target};

verus! {

broadcast use vstd::string::group_string_axioms;

/// Whether optional flags are these; without any there are none.
pub open spec fn flags_given(class: FlagClass, value: Option<SpecValue>, bits: u32) -> bool {
    match value {
        Some(value) => means_bits(class, value, bits),
        None => bits == 0,
    }
}

/// Whether a constructor was given these flags; nothing stands for none.
pub open spec fn flags_handed(class: FlagClass, value: Option<SpecValue>, bits: u32) -> bool {
    value == Some(SpecValue::Flags(class, bits)) || value is None && bits == 0
}

/// Whether the arguments say this entry of a macOS list: exactly one of them
/// says what it does.
pub open spec fn macos_given(args: MacosAceArgs, ace: MacosAce) -> bool {
    &&& match ace.ace_type {
        MacosAceType::Allow => args.deny is None && (args.allow matches Some(v) && means_uuid(
            v,
            ace.principal,
        )),
        MacosAceType::Deny => args.allow is None && (args.deny matches Some(v) && means_uuid(
            v,
            ace.principal,
        )),
    }
    &&& means_bits(FlagClass::MacosMask, args.mask, ace.mask)
    &&& flags_given(FlagClass::MacosFlags, args.flags, ace.flags)
}

/// The arguments of an entry of a macOS list make the entry that they say,
/// whenever they say one.
pub proof fn macos_entries_say_what_is_given(args: MacosAceArgs, ace: MacosAce)
    ensures
        args.result() matches Ok(r) ==> macos_given(args, r),
        macos_given(args, ace) ==> args.result() is Ok,
{
    flags_mean_their_bits(FlagClass::MacosMask, args.mask);
    if let Some(v) = args.flags {
        flags_mean_their_bits(FlagClass::MacosFlags, v);
    }
    if let Some(v) = args.allow {
        values_mean_themselves(v, Seq::empty(), 0);
        if let Ok(n) = macos::uuid_result(v) {
            assert(means_uuid(v, n));
        }
    }
    if let Some(v) = args.deny {
        values_mean_themselves(v, Seq::empty(), 0);
        if let Ok(n) = macos::uuid_result(v) {
            assert(means_uuid(v, n));
        }
    }
}

/// Whether the arguments say this entry of an NFS list: exactly one of them
/// says what it does.
pub open spec fn nfs4_given(args: Nfs4AceArgs, ace: Nfs4Ace) -> bool {
    &&& match ace.ace_type {
        Nfs4AceType::Allow => args.deny is None && args.audit is None && args.alarm is None && (
        args.allow matches Some(v) && means_principal(v, ace.qualifier)),
        Nfs4AceType::Deny => args.allow is None && args.audit is None && args.alarm is None && (
        args.deny matches Some(v) && means_principal(v, ace.qualifier)),
        Nfs4AceType::Audit => args.allow is None && args.deny is None && args.alarm is None && (
        args.audit matches Some(v) && means_principal(v, ace.qualifier)),
        Nfs4AceType::Alarm => args.allow is None && args.deny is None && args.audit is None && (
        args.alarm matches Some(v) && means_principal(v, ace.qualifier)),
    }
    &&& means_bits(FlagClass::Nfs4Mask, args.mask, ace.mask)
    &&& flags_given(FlagClass::Nfs4Flags, args.flags, ace.flags)
}

/// The arguments of an entry of an NFS list make the entry that they say,
/// whenever they say one.
pub proof fn nfs4_entries_say_what_is_given(args: Nfs4AceArgs, ace: Nfs4Ace)
    ensures
        args.result() matches Ok(r) ==> nfs4_given(args, r),
        nfs4_given(args, ace) ==> args.result() is Ok,
{
    flags_mean_their_bits(FlagClass::Nfs4Mask, args.mask);
    if let Some(v) = args.flags {
        flags_mean_their_bits(FlagClass::Nfs4Flags, v);
    }
    if let Ok((_, v)) = args.only() {
        principals_mean_themselves(v, "ace.principal"@, ace.qualifier);
        if let Ok(q) = nfs4::principal_result(v, "ace.principal"@) {
            principals_mean_themselves(v, "ace.principal"@, q);
        }
    }
}

/// Whether one argument of an entry of a Unix list names whom it is about, and
/// no other does.
pub open spec fn names_one(args: PosixAceArgs, qualifier: PosixQualifier) -> bool {
    &&& args.user_obj is Some <==> qualifier is UserObj
    &&& args.group_obj is Some <==> qualifier is GroupObj
    &&& args.mask is Some <==> qualifier is Mask
    &&& args.other is Some <==> qualifier is Other
    &&& args.user is Some <==> qualifier is User
    &&& args.group is Some <==> qualifier is Group
}

/// Whether the arguments say this entry of a Unix list. The permissions come
/// with the name of whom it is about, except for a user or a group with a
/// number.
pub open spec fn unix_given(args: PosixAceArgs, ace: PosixAce) -> bool {
    &&& names_one(args, ace.qualifier)
    &&& match ace.qualifier {
        PosixQualifier::UserObj => args.permissions is None && means_bits(
            FlagClass::Permission,
            args.user_obj->0,
            ace.permissions,
        ),
        PosixQualifier::GroupObj => args.permissions is None && means_bits(
            FlagClass::Permission,
            args.group_obj->0,
            ace.permissions,
        ),
        PosixQualifier::Mask => args.permissions is None && means_bits(
            FlagClass::Permission,
            args.mask->0,
            ace.permissions,
        ),
        PosixQualifier::Other => args.permissions is None && means_bits(
            FlagClass::Permission,
            args.other->0,
            ace.permissions,
        ),
        PosixQualifier::User(n) => means_number(args.user->0, n as int, u32::MAX as int)
            && flags_given(FlagClass::Permission, args.permissions, ace.permissions),
        PosixQualifier::Group(n) => means_number(args.group->0, n as int, u32::MAX as int)
            && flags_given(FlagClass::Permission, args.permissions, ace.permissions),
    }
}

proof fn lemma_argument(value: Option<SpecValue>)
    ensures
        value matches Some(v) ==> {
            &&& crate::security::coerce::coerced(FlagClass::Permission, v) matches Some(bits)
                ==> means_bits(FlagClass::Permission, v, bits)
            &&& crate::security::coerce::coerced(FlagClass::Permission, v) is None ==> forall|
                bits: u32,
            | !means_bits(FlagClass::Permission, v, bits)
        },
{
    if let Some(v) = value {
        flags_mean_their_bits(FlagClass::Permission, v);
    }
}

/// The arguments of an entry of a Unix list make the entry that they say,
/// whenever they say one.
#[verifier::rlimit(60)]
pub proof fn unix_entries_say_what_is_given(args: PosixAceArgs, ace: PosixAce)
    ensures
        args.result() matches Ok(r) ==> unix_given(args, r),
        unix_given(args, ace) ==> args.result() is Ok,
{
    lemma_argument(args.user_obj);
    lemma_argument(args.group_obj);
    lemma_argument(args.mask);
    lemma_argument(args.other);
    lemma_argument(args.permissions);
    if let Some(v) = args.user {
        values_mean_themselves(v, "ace.user"@, u32::MAX as int);
        if let Ok(n) = crate::security::coerce::id_result(v, "ace.user"@, u32::MAX as int) {
            assert(means_number(v, n, u32::MAX as int));
        }
    }
    if let Some(v) = args.group {
        values_mean_themselves(v, "ace.group"@, u32::MAX as int);
        if let Ok(n) = crate::security::coerce::id_result(v, "ace.group"@, u32::MAX as int) {
            assert(means_number(v, n, u32::MAX as int));
        }
    }
}

/// The constructors make entries of what they are handed, and of nothing else:
/// flags have to be flags there, and a UUID a UUID.
pub proof fn constructors_make_what_they_are_handed(
    macos_type: MacosAceType,
    principal: SpecValue,
    mask: Option<SpecValue>,
    flags: Option<SpecValue>,
    macos_ace: MacosAce,
    qualifier: Nfs4Qualifier,
    nfs4_type: SpecValue,
    nfs4_ace: Nfs4Ace,
    group: bool,
    id: SpecValue,
    posix_ace: PosixAce,
)
    ensures
        macos::constructed(macos_type, principal, mask, flags) == Ok::<MacosAce, ErrorView>(
            macos_ace,
        ) <==> {
            &&& macos_ace.ace_type == macos_type
            &&& principal == SpecValue::Uuid(macos_ace.principal)
            &&& mask == Some(SpecValue::Flags(FlagClass::MacosMask, macos_ace.mask))
            &&& flags_handed(FlagClass::MacosFlags, flags, macos_ace.flags)
        },
        nfs4::constructed(Ok(qualifier), Some(nfs4_type), mask, flags) == Ok::<Nfs4Ace, ErrorView>(
            nfs4_ace,
        ) <==> {
            &&& nfs4::type_result(Some(nfs4_type)) == Ok::<Nfs4AceType, ErrorView>(
                nfs4_ace.ace_type,
            )
            &&& nfs4_ace.qualifier == qualifier
            &&& mask == Some(SpecValue::Flags(FlagClass::Nfs4Mask, nfs4_ace.mask))
            &&& flags_handed(FlagClass::Nfs4Flags, flags, nfs4_ace.flags)
        },
        numbered_ace(group, id, flags) == Ok::<PosixAce, ErrorView>(posix_ace) <==> {
            &&& flags_handed(FlagClass::Permission, flags, posix_ace.permissions)
            &&& match posix_ace.qualifier {
                PosixQualifier::User(n) => !group && means_number(id, n as int, u32::MAX as int),
                PosixQualifier::Group(n) => group && means_number(id, n as int, u32::MAX as int),
                _ => false,
            }
        },
{
    values_mean_themselves(
        id,
        if group {
            "gid"@
        } else {
            "uid"@
        },
        u32::MAX as int,
    );
    if let Ok(n) = crate::security::coerce::id_result(
        id,
        if group {
            "gid"@
        } else {
            "uid"@
        },
        u32::MAX as int,
    ) {
        assert(means_number(id, n, u32::MAX as int));
    }
    if let PosixQualifier::User(n) = posix_ace.qualifier {
        assert(means_number(id, n as int, u32::MAX as int) ==> id is Int);
    }
}

/// Whether an argument of a list stands for this entry.
pub open spec fn stands_for(arg: AclArg, at: int, ace: PosixAce) -> bool {
    arg matches AclArg::Pos(value) && unix::ace_result(value, at_index("acl"@, at as nat)) == Ok::<
        PosixAce,
        ErrorView,
    >(ace)
}

/// Whether an argument of a list stands for no entry.
pub open spec fn stands_for_none(arg: AclArg, at: int) -> bool {
    arg matches AclArg::Pos(value) ==> unix::ace_result(value, at_index("acl"@, at as nat)) is Err
}

/// A list made from arguments has an entry for each, in their order, unless one
/// of them stands for none.
pub proof fn argument_lists_keep_their_order(args: Seq<AclArg>, n: nat)
    requires
        n <= args.len(),
    ensures
        args_aces(args, n) matches Ok(aces) ==> aces.len() == n && forall|i: int|
            0 <= i < n ==> stands_for(args[i], i, #[trigger] aces[i]),
        args_aces(args, n) is Err ==> exists|i: int|
            0 <= i < n && #[trigger] stands_for_none(args[i], i),
    decreases n,
{
    if n > 0 {
        let m = (n - 1) as nat;
        argument_lists_keep_their_order(args, m);
        if args_aces(args, n) is Err {
            if args_aces(args, m) is Err {
                let i = choose|i: int| 0 <= i < m && #[trigger] stands_for_none(args[i], i);
                assert(0 <= i < n && stands_for_none(args[i], i));
            } else {
                assert(stands_for_none(args[m as int], m as int));
            }
        }
    }
}

/// The kind of a list is asked for by its name, and is Unix without one.
pub proof fn kinds_are_asked_for_by_name(kind: Option<SpecValue>, r: AclKind)
    ensures
        kind_result(kind) == Ok::<AclKind, ErrorView>(r) <==> match r {
            AclKind::Posix => kind is None || (kind matches Some(SpecValue::Sym(s)) && s@
                == "POSIX"@),
            AclKind::Nfs4 => kind matches Some(SpecValue::Sym(s)) && s@ == "NFS4"@,
            AclKind::Macos => kind matches Some(SpecValue::Sym(s)) && s@ == "MACOS"@,
        },
{
    reveal_strlit("POSIX");
    reveal_strlit("NFS4");
    reveal_strlit("MACOS");
    assert("POSIX"@.len() == 5 && "NFS4"@.len() == 4 && "MACOS"@.len() == 5);
    assert("POSIX"@[0] == 'P' && "MACOS"@[0] == 'M');
}

/// A list that is handed in is taken as it is, and only under its own kind.
pub proof fn lists_keep_their_kind(value: SpecValue, kind: Option<SpecValue>, path: Seq<char>)
    ensures
        input_result(value, kind, path) matches Ok(input) ==> {
            &&& kind is Some ==> kind_result(kind) == Ok::<AclKind, ErrorView>(input.kind)
            &&& value is Nil <==> input.acl is None
            &&& input.acl matches Some(acl) ==> match input.kind {
                AclKind::Posix => acl is Posix,
                AclKind::Nfs4 => acl is Nfs4,
                AclKind::Macos => acl is Macos,
            }
            &&& value matches SpecValue::PosixAcl(v) ==> input.acl == Some(AnyAclView::Posix(v@))
            &&& value matches SpecValue::Nfs4Acl(v) ==> input.acl == Some(AnyAclView::Nfs4(v@))
            &&& value matches SpecValue::MacosAcl(v) ==> input.acl == Some(AnyAclView::Macos(v@))
            &&& input.unchecked <==> input.acl is Some && input.kind is Posix
                && !(value is PosixAcl)
        },
        kind is None && (value is Nil || value is PosixAcl || value is Nfs4Acl || value is MacosAcl)
            ==> input_result(value, kind, path) is Ok,
{
}

/// The number of a user or a group is the one given; on macOS a UUID may be
/// given, and what it stands for is asked for.
pub proof fn numbers_are_given_or_asked_for(
    value: SpecValue,
    os: OperatingSystem,
    want: PrincipalIdKind,
    query: IdQuery,
    group: bool,
    other: PrincipalQuery,
)
    ensures
        id_query(value, os, want) == Ok::<IdQuery, ErrorView>(query) <==> match query {
            IdQuery::Number(n) => means_number(value, n as int, u32::MAX as int),
            IdQuery::Resolve(q) => os is Macos && q.want == want && (q.id matches PrincipalId::Uuid(
                n,
            ) && value == SpecValue::Uuid(n)),
        },
        uuid_query(value, os, group) == Ok::<PrincipalQuery, ErrorView>(other) <==> {
            &&& os is Macos
            &&& other.want is Uuid
            &&& match other.id {
                PrincipalId::Uid(n) => !group && means_number(value, n as int, u32::MAX as int),
                PrincipalId::Gid(n) => group && means_number(value, n as int, u32::MAX as int),
                _ => false,
            }
        },
{
    values_mean_themselves(value, Seq::empty(), 0);
    if let Ok(n) = macos::number_result(value) {
        assert(means_number(value, n as int, u32::MAX as int));
    }
    if let IdQuery::Number(n) = query {
        assert(means_number(value, n as int, u32::MAX as int) ==> value is Int);
    }
}

/// What a UUID stands for is told with the symbol for what it is.
pub proof fn replies_are_tagged(reply: PrincipalId, symbol: Seq<char>, n: u32)
    ensures
        tagged(reply) == Ok::<(Seq<char>, u32), ErrorView>((symbol, n)) <==> {
            ||| reply == PrincipalId::Uid(n) && symbol == "UID"@
            ||| reply == PrincipalId::Gid(n) && symbol == "GID"@
        },
{
}

/// Numbers and names of Unix users and groups are looked up on Unix only.
pub proof fn unix_users_are_looked_up_on_unix(
    value: SpecValue,
    target: Target,
    want: PrincipalIdKind,
    message: Seq<char>,
    name: Seq<char>,
)
    ensures
        target.family is Windows ==> unix_id_query(value, target, want) is Err && unix_name(
            value,
            target,
            message,
        ) is Err,
        target.family is Unix ==> unix_id_query(value, target, want) == id_query(
            value,
            target.os,
            want,
        ),
        unix_name(value, target, message) == Ok::<Seq<char>, ErrorView>(name) <==> target.family
            is Unix && (value matches SpecValue::Str(s, _) && s@ == name),
{
}

} // verus!

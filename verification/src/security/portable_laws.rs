//! What entries and lists of Unix, NFS and macOS files say, in terms of the keys
//! that they were described by.

use vstd::prelude::*;
use crate::error::ErrorView;
use crate::security::ace_laws::key_at;
use crate::security::coerce::id_result;
use crate::security::macos;
use crate::security::macos::MacosParts;
use crate::security::meaning::{
    flags_mean_their_bits, means_bits, means_number, means_uuid, values_mean_themselves,
};
use crate::security::model::{
    FlagClass, MacosAce, Nfs4Ace, Nfs4AceType, Nfs4Qualifier, PosixAce, PosixQualifier, SpecValue,
};
use crate::security::nfs4;
use crate::security::nfs4::Nfs4Parts;
use crate::security::path::{at_index, under_key};
use crate::security::unix;
use crate::security::unix::PosixParts;

verus! {

broadcast use vstd::string::group_string_axioms;

pub proof fn lemma_keys_differ()
    ensures
        "allow"@ != "deny"@,
        "allow"@ != "audit"@,
        "allow"@ != "alarm"@,
        "allow"@ != "mask"@,
        "allow"@ != "flags"@,
        "deny"@ != "audit"@,
        "deny"@ != "alarm"@,
        "deny"@ != "mask"@,
        "deny"@ != "flags"@,
        "audit"@ != "alarm"@,
        "audit"@ != "mask"@,
        "audit"@ != "flags"@,
        "alarm"@ != "mask"@,
        "alarm"@ != "flags"@,
        "mask"@ != "flags"@,
        "user_obj"@ != "group_obj"@,
        "user_obj"@ != "mask"@,
        "user_obj"@ != "other"@,
        "user_obj"@ != "user"@,
        "user_obj"@ != "group"@,
        "user_obj"@ != "permissions"@,
        "group_obj"@ != "mask"@,
        "group_obj"@ != "other"@,
        "group_obj"@ != "user"@,
        "group_obj"@ != "group"@,
        "group_obj"@ != "permissions"@,
        "mask"@ != "other"@,
        "mask"@ != "user"@,
        "mask"@ != "group"@,
        "mask"@ != "permissions"@,
        "other"@ != "user"@,
        "other"@ != "group"@,
        "other"@ != "permissions"@,
        "user"@ != "group"@,
        "user"@ != "permissions"@,
        "group"@ != "permissions"@,
        "OWNER"@ != "OWNING_GROUP"@,
        "OWNER"@ != "EVERYONE"@,
        "OWNING_GROUP"@ != "EVERYONE"@,
        "ALLOW"@ != "DENY"@,
        "ALLOW"@ != "AUDIT"@,
        "ALLOW"@ != "ALARM"@,
        "DENY"@ != "AUDIT"@,
        "DENY"@ != "ALARM"@,
        "AUDIT"@ != "ALARM"@,
{
    reveal_strlit("allow");
    reveal_strlit("deny");
    reveal_strlit("audit");
    reveal_strlit("alarm");
    reveal_strlit("mask");
    reveal_strlit("flags");
    reveal_strlit("user_obj");
    reveal_strlit("group_obj");
    reveal_strlit("other");
    reveal_strlit("user");
    reveal_strlit("group");
    reveal_strlit("permissions");
    reveal_strlit("OWNER");
    reveal_strlit("OWNING_GROUP");
    reveal_strlit("EVERYONE");
    reveal_strlit("ALLOW");
    reveal_strlit("DENY");
    reveal_strlit("AUDIT");
    reveal_strlit("ALARM");
    assert("allow"@.len() == 5 && "allow"@[0] == 'a' && "allow"@[2] == 'l');
    assert("deny"@.len() == 4 && "deny"@[0] == 'd' && "deny"@[2] == 'n');
    assert("audit"@.len() == 5 && "audit"@[0] == 'a' && "audit"@[2] == 'd');
    assert("alarm"@.len() == 5 && "alarm"@[0] == 'a' && "alarm"@[2] == 'a');
    assert("mask"@.len() == 4 && "mask"@[0] == 'm' && "mask"@[2] == 's');
    assert("flags"@.len() == 5 && "flags"@[0] == 'f' && "flags"@[2] == 'a');
    assert("user_obj"@.len() == 8 && "user_obj"@[0] == 'u' && "user_obj"@[2] == 'e');
    assert("group_obj"@.len() == 9 && "group_obj"@[0] == 'g' && "group_obj"@[2] == 'o');
    assert("other"@.len() == 5 && "other"@[0] == 'o' && "other"@[2] == 'h');
    assert("user"@.len() == 4 && "user"@[0] == 'u' && "user"@[2] == 'e');
    assert("group"@.len() == 5 && "group"@[0] == 'g' && "group"@[2] == 'o');
    assert("permissions"@.len() == 11 && "permissions"@[0] == 'p' && "permissions"@[2] == 'r');
    assert("OWNER"@.len() == 5 && "OWNER"@[0] == 'O' && "OWNER"@[2] == 'N');
    assert("OWNING_GROUP"@.len() == 12 && "OWNING_GROUP"@[0] == 'O' && "OWNING_GROUP"@[2] == 'N');
    assert("EVERYONE"@.len() == 8 && "EVERYONE"@[0] == 'E' && "EVERYONE"@[2] == 'E');
    assert("ALLOW"@.len() == 5 && "ALLOW"@[0] == 'A' && "ALLOW"@[2] == 'L');
    assert("DENY"@.len() == 4 && "DENY"@[0] == 'D' && "DENY"@[2] == 'N');
    assert("AUDIT"@.len() == 5 && "AUDIT"@[0] == 'A' && "AUDIT"@[2] == 'D');
    assert("ALARM"@.len() == 5 && "ALARM"@[0] == 'A' && "ALARM"@[2] == 'A');
}

/// Whether an entry says what is given under a key.
pub open spec fn macos_answers(ace: MacosAce, name: Seq<char>, value: SpecValue) -> bool {
    &&& name == "allow"@ ==> ace.ace_type is Allow && means_uuid(value, ace.principal)
    &&& name == "deny"@ ==> ace.ace_type is Deny && means_uuid(value, ace.principal)
    &&& name == "mask"@ ==> means_bits(FlagClass::MacosMask, value, ace.mask)
    &&& name == "flags"@ ==> means_bits(FlagClass::MacosFlags, value, ace.flags)
    &&& name == "allow"@ || name == "deny"@ || name == "mask"@ || name == "flags"@
}

spec fn macos_read(parts: MacosParts, name: Seq<char>, value: SpecValue) -> bool {
    &&& name == "allow"@ ==> (parts.ace_type matches Some((t, p)) && t is Allow
        && means_uuid(value, p))
    &&& name == "deny"@ ==> (parts.ace_type matches Some((t, p)) && t is Deny
        && means_uuid(value, p))
    &&& name == "mask"@ ==> (parts.mask matches Some(bits) && means_bits(
        FlagClass::MacosMask,
        value,
        bits,
    ))
    &&& name == "flags"@ ==> (parts.flags matches Some(bits) && means_bits(
        FlagClass::MacosFlags,
        value,
        bits,
    ))
    &&& name == "allow"@ || name == "deny"@ || name == "mask"@ || name == "flags"@
}

proof fn lemma_macos_step(
    parts: MacosParts,
    name: Seq<char>,
    entry: SpecValue,
    path: Seq<char>,
    key: Seq<char>,
    value: SpecValue,
)
    requires
        macos::key_step(parts, name, entry, path) is Ok,
    ensures
        ({
            let after = macos::key_step(parts, name, entry, path)->Ok_0;
            &&& macos_read(after, name, entry)
            &&& macos_read(parts, key, value) ==> macos_read(after, key, value)
        }),
{
    lemma_keys_differ();
    let at = under_key(path, name);
    values_mean_themselves(entry, at, u32::MAX as int);
    flags_mean_their_bits(FlagClass::MacosMask, entry);
    flags_mean_their_bits(FlagClass::MacosFlags, entry);
    if let Ok(n) = macos::uuid_result(entry) {
        assert(means_uuid(entry, n));
    }
}

proof fn lemma_macos_read(pairs: Seq<(SpecValue, SpecValue)>, n: nat, path: Seq<char>)
    requires
        n <= pairs.len(),
        macos::parts_of(pairs, n, path) is Ok,
    ensures
        forall|i: int, name: Seq<char>|
            0 <= i < n && #[trigger] key_at(pairs, i, name) ==> macos_read(
                macos::parts_of(pairs, n, path)->Ok_0,
                name,
                pairs[i].1,
            ),
    decreases n,
{
    if n > 0 {
        let m = (n - 1) as nat;
        lemma_macos_read(pairs, m, path);
        let before = macos::parts_of(pairs, m, path)->Ok_0;
        let after = macos::parts_of(pairs, n, path)->Ok_0;
        let last = pairs[m as int].0->Sym_0@;
        lemma_macos_step(before, last, pairs[m as int].1, path, last, SpecValue::Nil);
        assert forall|i: int, name: Seq<char>|
            0 <= i < n && #[trigger] key_at(pairs, i, name) implies macos_read(
            after,
            name,
            pairs[i].1,
        ) by {
            lemma_macos_step(before, last, pairs[m as int].1, path, name, pairs[i].1);
        }
    }
}

/// An entry of a macOS list that is specified allows or denies as its key
/// says, for who is given there, and has the mask and flags that are given.
pub proof fn macos_entries_say_what_is_specified(
    value: SpecValue,
    path: Seq<char>,
    ace: MacosAce,
    i: int,
    name: Seq<char>,
)
    requires
        macos::ace_result(value, path) == Ok::<MacosAce, ErrorView>(ace),
    ensures
        value matches SpecValue::Dict(pairs) ==> (key_at(pairs@, i, name) ==> macos_answers(
            ace,
            name,
            pairs@[i].1,
        )),
        value matches SpecValue::MacosAce(given) ==> ace == given,
        value is Dict || value is MacosAce,
{
    lemma_keys_differ();
    if let SpecValue::Dict(pairs) = value {
        lemma_macos_read(pairs@, pairs@.len(), path);
    }
}

/// A list keeps the entries that it is made of, in their order, and each
/// stands for itself.
pub proof fn macos_lists_keep_their_entries(items: Seq<SpecValue>, n: nat, path: Seq<char>)
    requires
        n <= items.len(),
    ensures
        macos::aces_of(items, n, path) matches Ok(aces) ==> aces.len() == n && forall|i: int|
            0 <= i < n ==> macos::ace_result(items[i], at_index(path, i as nat)) == Ok::<
                MacosAce,
                ErrorView,
            >(#[trigger] aces[i]),
        macos::aces_of(items, n, path) is Err ==> exists|i: int|
            0 <= i < n && #[trigger] macos::ace_result(items[i], at_index(path, i as nat)) is Err,
    decreases n,
{
    if n > 0 {
        macos_lists_keep_their_entries(items, (n - 1) as nat, path);
        if macos::aces_of(items, n, path) is Err {
            if macos::aces_of(items, (n - 1) as nat, path) is Err {
                let i = choose|i: int|
                    0 <= i < n - 1 && #[trigger] macos::ace_result(
                        items[i],
                        at_index(path, i as nat),
                    ) is Err;
                assert(0 <= i < n && macos::ace_result(items[i], at_index(path, i as nat)) is Err);
            } else {
                assert(macos::ace_result(items[n - 1], at_index(path, (n - 1) as nat)) is Err);
            }
        }
    }
}

/// Whether a value means someone: the owner, the owning group or everyone by
/// their symbols, and a user or a group by its number under that key.
pub open spec fn means_principal(value: SpecValue, q: Nfs4Qualifier) -> bool {
    match value {
        SpecValue::Sym(name) => match q {
            Nfs4Qualifier::Owner => name@ == "OWNER"@,
            Nfs4Qualifier::OwningGroup => name@ == "OWNING_GROUP"@,
            Nfs4Qualifier::Everyone => name@ == "EVERYONE"@,
            _ => false,
        },
        SpecValue::Dict(pairs) => pairs@.len() == 1 && match q {
            Nfs4Qualifier::User(n) => key_at(pairs@, 0, "user"@) && means_number(
                pairs@[0].1,
                n as int,
                u32::MAX as int,
            ),
            Nfs4Qualifier::Group(n) => key_at(pairs@, 0, "group"@) && means_number(
                pairs@[0].1,
                n as int,
                u32::MAX as int,
            ),
            _ => false,
        },
        _ => false,
    }
}

/// A value is taken for whom it means, and for nobody else.
pub proof fn principals_mean_themselves(value: SpecValue, path: Seq<char>, q: Nfs4Qualifier)
    ensures
        nfs4::principal_result(value, path) == Ok::<Nfs4Qualifier, ErrorView>(q)
            <==> means_principal(
            value,
            q,
        ),
{
    lemma_keys_differ();
    if let SpecValue::Dict(pairs) = value {
        if pairs@.len() >= 1 {
            lemma_principal(pairs@, pairs@.len(), path);
            values_mean_themselves(pairs@[0].1, under_key(path, "user"@), u32::MAX as int);
            values_mean_themselves(pairs@[0].1, under_key(path, "group"@), u32::MAX as int);
            if let Ok(n) = id_result(pairs@[0].1, under_key(path, "user"@), u32::MAX as int) {
                assert(means_number(pairs@[0].1, n, u32::MAX as int));
            }
            if let Ok(n) = id_result(pairs@[0].1, under_key(path, "group"@), u32::MAX as int) {
                assert(means_number(pairs@[0].1, n, u32::MAX as int));
            }
            reveal_with_fuel(nfs4::principal_of, 2);
        }
    }
}

/// Whoever was found stays found, and there is no second.
proof fn lemma_principal(pairs: Seq<(SpecValue, SpecValue)>, n: nat, path: Seq<char>)
    requires
        1 <= n <= pairs.len(),
    ensures
        nfs4::principal_of(pairs, n, path) matches Ok(q) ==> q is Some && n == 1,
    decreases n,
{
    reveal_with_fuel(nfs4::principal_of, 2);
    if n > 1 {
        lemma_principal(pairs, (n - 1) as nat, path);
    }
}

/// What an entry of an NFS list does is read from the symbol that says it.
pub proof fn nfs4_types_round_trip(ace_type: Nfs4AceType, name: String)
    ensures
        nfs4::type_result(Some(SpecValue::Sym(name))) == Ok::<Nfs4AceType,
            ErrorView>(ace_type) <==> match ace_type {
            Nfs4AceType::Allow => name@ == "ALLOW"@,
            Nfs4AceType::Deny => name@ == "DENY"@,
            Nfs4AceType::Audit => name@ == "AUDIT"@,
            Nfs4AceType::Alarm => name@ == "ALARM"@,
        },
        name@ == nfs4::type_symbol(ace_type) ==> nfs4::type_result(Some(SpecValue::Sym(name)))
            == Ok::<Nfs4AceType, ErrorView>(ace_type),
{
    lemma_keys_differ();
}

/// Whether an entry says what is given under a key.
pub open spec fn nfs4_answers(ace: Nfs4Ace, name: Seq<char>, value: SpecValue) -> bool {
    &&& name == "allow"@ ==> ace.ace_type is Allow && means_principal(value, ace.qualifier)
    &&& name == "deny"@ ==> ace.ace_type is Deny && means_principal(value, ace.qualifier)
    &&& name == "audit"@ ==> ace.ace_type is Audit && means_principal(value, ace.qualifier)
    &&& name == "alarm"@ ==> ace.ace_type is Alarm && means_principal(value, ace.qualifier)
    &&& name == "mask"@ ==> means_bits(FlagClass::Nfs4Mask, value, ace.mask)
    &&& name == "flags"@ ==> means_bits(FlagClass::Nfs4Flags, value, ace.flags)
}

spec fn nfs4_read(parts: Nfs4Parts, name: Seq<char>, value: SpecValue) -> bool {
    &&& name == "allow"@ ==> (parts.ace_type matches Some((t, q)) && t is Allow && means_principal(
        value,
        q,
    ))
    &&& name == "deny"@ ==> (parts.ace_type matches Some((t, q)) && t is Deny && means_principal(
        value,
        q,
    ))
    &&& name == "audit"@ ==> (parts.ace_type matches Some((t, q)) && t is Audit && means_principal(
        value,
        q,
    ))
    &&& name == "alarm"@ ==> (parts.ace_type matches Some((t, q)) && t is Alarm && means_principal(
        value,
        q,
    ))
    &&& name == "mask"@ ==> (parts.mask matches Some(bits) && means_bits(
        FlagClass::Nfs4Mask,
        value,
        bits,
    ))
    &&& name == "flags"@ ==> (parts.flags matches Some(bits) && means_bits(
        FlagClass::Nfs4Flags,
        value,
        bits,
    ))
}

proof fn lemma_nfs4_step(
    parts: Nfs4Parts,
    name: Seq<char>,
    entry: SpecValue,
    path: Seq<char>,
    key: Seq<char>,
    value: SpecValue,
)
    requires
        nfs4::key_step(parts, name, entry, path) is Ok,
    ensures
        ({
            let after = nfs4::key_step(parts, name, entry, path)->Ok_0;
            &&& nfs4_read(after, name, entry)
            &&& nfs4_read(parts, key, value) ==> nfs4_read(after, key, value)
        }),
{
    lemma_keys_differ();
    let at = under_key(path, name);
    values_mean_themselves(entry, at, u32::MAX as int);
    flags_mean_their_bits(FlagClass::Nfs4Mask, entry);
    flags_mean_their_bits(FlagClass::Nfs4Flags, entry);
    if let Ok(q) = nfs4::principal_result(entry, at) {
        principals_mean_themselves(entry, at, q);
    }
}

proof fn lemma_nfs4_read(pairs: Seq<(SpecValue, SpecValue)>, n: nat, path: Seq<char>)
    requires
        n <= pairs.len(),
        nfs4::parts_of(pairs, n, path) is Ok,
    ensures
        forall|i: int, name: Seq<char>|
            0 <= i < n && #[trigger] key_at(pairs, i, name) ==> nfs4_read(
                nfs4::parts_of(pairs, n, path)->Ok_0,
                name,
                pairs[i].1,
            ),
    decreases n,
{
    if n > 0 {
        let m = (n - 1) as nat;
        lemma_nfs4_read(pairs, m, path);
        let before = nfs4::parts_of(pairs, m, path)->Ok_0;
        let after = nfs4::parts_of(pairs, n, path)->Ok_0;
        let last = pairs[m as int].0->Sym_0@;
        lemma_nfs4_step(before, last, pairs[m as int].1, path, last, SpecValue::Nil);
        assert forall|i: int, name: Seq<char>|
            0 <= i < n && #[trigger] key_at(pairs, i, name) implies nfs4_read(
            after,
            name,
            pairs[i].1,
        ) by {
            lemma_nfs4_step(before, last, pairs[m as int].1, path, name, pairs[i].1);
        }
    }
}

/// An entry of an NFS list that is specified does what its key says, for who
/// is given there, and has the mask and flags that are given.
pub proof fn nfs4_entries_say_what_is_specified(
    value: SpecValue,
    path: Seq<char>,
    ace: Nfs4Ace,
    i: int,
    name: Seq<char>,
)
    requires
        nfs4::ace_result(value, path) == Ok::<Nfs4Ace, ErrorView>(ace),
    ensures
        value matches SpecValue::Dict(pairs) ==> (key_at(pairs@, i, name) ==> nfs4_answers(
            ace,
            name,
            pairs@[i].1,
        )),
        value matches SpecValue::Nfs4Ace(given) ==> ace == given,
        value is Dict || value is Nfs4Ace,
{
    lemma_keys_differ();
    if let SpecValue::Dict(pairs) = value {
        lemma_nfs4_read(pairs@, pairs@.len(), path);
    }
}

/// A list keeps the entries that it is made of, in their order, and each
/// stands for itself.
pub proof fn nfs4_lists_keep_their_entries(items: Seq<SpecValue>, n: nat, path: Seq<char>)
    requires
        n <= items.len(),
    ensures
        nfs4::aces_of(items, n, path) matches Ok(aces) ==> aces.len() == n && forall|i: int|
            0 <= i < n ==> nfs4::ace_result(items[i], at_index(path, i as nat)) == Ok::<
                Nfs4Ace,
                ErrorView,
            >(#[trigger] aces[i]),
        nfs4::aces_of(items, n, path) is Err ==> exists|i: int|
            0 <= i < n && #[trigger] nfs4::ace_result(items[i], at_index(path, i as nat)) is Err,
    decreases n,
{
    if n > 0 {
        nfs4_lists_keep_their_entries(items, (n - 1) as nat, path);
        if nfs4::aces_of(items, n, path) is Err {
            if nfs4::aces_of(items, (n - 1) as nat, path) is Err {
                let i = choose|i: int|
                    0 <= i < n - 1 && #[trigger] nfs4::ace_result(
                        items[i],
                        at_index(path, i as nat),
                    ) is Err;
                assert(0 <= i < n && nfs4::ace_result(items[i], at_index(path, i as nat)) is Err);
            } else {
                assert(nfs4::ace_result(items[n - 1], at_index(path, (n - 1) as nat)) is Err);
            }
        }
    }
}

/// Permissions that stand under no key of their own come with a qualifier.
pub open spec fn whole(parts: PosixParts) -> bool {
    parts.permissions is Some && !parts.separate ==> parts.qualifier is Some
}

/// Whether an entry says what is given under a key.
pub open spec fn unix_answers(ace: PosixAce, name: Seq<char>, value: SpecValue) -> bool {
    &&& name == "user_obj"@ ==> ace.qualifier is UserObj && means_bits(
        FlagClass::Permission,
        value,
        ace.permissions,
    )
    &&& name == "group_obj"@ ==> ace.qualifier is GroupObj && means_bits(
        FlagClass::Permission,
        value,
        ace.permissions,
    )
    &&& name == "mask"@ ==> ace.qualifier is Mask && means_bits(
        FlagClass::Permission,
        value,
        ace.permissions,
    )
    &&& name == "other"@ ==> ace.qualifier is Other && means_bits(
        FlagClass::Permission,
        value,
        ace.permissions,
    )
    &&& name == "user"@ ==> (ace.qualifier matches PosixQualifier::User(n) && means_number(
        value,
        n as int,
        u32::MAX as int,
    ))
    &&& name == "group"@ ==> (ace.qualifier matches PosixQualifier::Group(n) && means_number(
        value,
        n as int,
        u32::MAX as int,
    ))
    &&& name == "permissions"@ ==> means_bits(FlagClass::Permission, value, ace.permissions)
}

pub open spec fn unix_read(parts: PosixParts, name: Seq<char>, value: SpecValue) -> bool {
    &&& name == "user_obj"@ || name == "group_obj"@ || name == "mask"@ || name == "other"@ || name
        == "permissions"@ ==> (parts.permissions matches Some(bits) && means_bits(
        FlagClass::Permission,
        value,
        bits,
    ))
    &&& name == "user_obj"@ ==> parts.qualifier == Some(PosixQualifier::UserObj)
    &&& name == "group_obj"@ ==> parts.qualifier == Some(PosixQualifier::GroupObj)
    &&& name == "mask"@ ==> parts.qualifier == Some(PosixQualifier::Mask)
    &&& name == "other"@ ==> parts.qualifier == Some(PosixQualifier::Other)
    &&& name == "user"@ ==> (parts.qualifier matches Some(PosixQualifier::User(n)) && means_number(
        value,
        n as int,
        u32::MAX as int,
    ))
    &&& name == "group"@ ==> (parts.qualifier matches Some(PosixQualifier::Group(n))
        && means_number(
        value,
        n as int,
        u32::MAX as int,
    ))
}

proof fn lemma_unix_step(
    parts: PosixParts,
    name: Seq<char>,
    entry: SpecValue,
    path: Seq<char>,
    key: Seq<char>,
    value: SpecValue,
)
    requires
        unix::key_step(parts, name, entry, path) is Ok,
        whole(parts),
    ensures
        ({
            let after = unix::key_step(parts, name, entry, path)->Ok_0;
            &&& unix_read(after, name, entry)
            &&& unix_read(parts, key, value) ==> unix_read(after, key, value)
            &&& whole(after)
        }),
{
    lemma_keys_differ();
    let at = under_key(path, name);
    values_mean_themselves(entry, at, u32::MAX as int);
    flags_mean_their_bits(FlagClass::Permission, entry);
    if let Ok(n) = id_result(entry, at, u32::MAX as int) {
        assert(means_number(entry, n, u32::MAX as int));
    }
}

pub proof fn lemma_unix_read(pairs: Seq<(SpecValue, SpecValue)>, n: nat, path: Seq<char>)
    requires
        n <= pairs.len(),
        unix::parts_of(pairs, n, path) is Ok,
    ensures
        forall|i: int, name: Seq<char>|
            0 <= i < n && #[trigger] key_at(pairs, i, name) ==> unix_read(
                unix::parts_of(pairs, n, path)->Ok_0,
                name,
                pairs[i].1,
            ),
        whole(unix::parts_of(pairs, n, path)->Ok_0),
    decreases n,
{
    if n > 0 {
        let m = (n - 1) as nat;
        lemma_unix_read(pairs, m, path);
        let before = unix::parts_of(pairs, m, path)->Ok_0;
        let after = unix::parts_of(pairs, n, path)->Ok_0;
        let last = pairs[m as int].0->Sym_0@;
        lemma_unix_step(before, last, pairs[m as int].1, path, last, SpecValue::Nil);
        assert forall|i: int, name: Seq<char>|
            0 <= i < n && #[trigger] key_at(pairs, i, name) implies unix_read(
            after,
            name,
            pairs[i].1,
        ) by {
            lemma_unix_step(before, last, pairs[m as int].1, path, name, pairs[i].1);
        }
    }
}

/// An entry of a Unix list that is specified is about whom its key says, and
/// has the permissions that are given.
pub proof fn unix_entries_say_what_is_specified(
    value: SpecValue,
    path: Seq<char>,
    ace: PosixAce,
    i: int,
    name: Seq<char>,
)
    requires
        unix::ace_result(value, path) == Ok::<PosixAce, ErrorView>(ace),
    ensures
        value matches SpecValue::Dict(pairs) ==> (key_at(pairs@, i, name) ==> unix_answers(
            ace,
            name,
            pairs@[i].1,
        )),
        value matches SpecValue::PosixAce(given) ==> ace == given,
        value is Dict || value is PosixAce,
{
    lemma_keys_differ();
    if let SpecValue::Dict(pairs) = value {
        lemma_unix_read(pairs@, pairs@.len(), path);
    }
}

/// A list keeps the entries that it is made of, in their order, and each
/// stands for itself.
pub proof fn unix_lists_keep_their_entries(items: Seq<SpecValue>, n: nat, path: Seq<char>)
    requires
        n <= items.len(),
    ensures
        unix::aces_of(items, n, path) matches Ok(aces) ==> aces.len() == n && forall|i: int|
            0 <= i < n ==> unix::ace_result(items[i], at_index(path, i as nat)) == Ok::<
                PosixAce,
                ErrorView,
            >(#[trigger] aces[i]),
        unix::aces_of(items, n, path) is Err ==> exists|i: int|
            0 <= i < n && #[trigger] unix::ace_result(items[i], at_index(path, i as nat)) is Err,
    decreases n,
{
    if n > 0 {
        unix_lists_keep_their_entries(items, (n - 1) as nat, path);
        if unix::aces_of(items, n, path) is Err {
            if unix::aces_of(items, (n - 1) as nat, path) is Err {
                let i = choose|i: int|
                    0 <= i < n - 1 && #[trigger] unix::ace_result(
                        items[i],
                        at_index(path, i as nat),
                    ) is Err;
                assert(0 <= i < n && unix::ace_result(items[i], at_index(path, i as nat)) is Err);
            } else {
                assert(unix::ace_result(items[n - 1], at_index(path, (n - 1) as nat)) is Err);
            }
        }
    }
}

} // verus!

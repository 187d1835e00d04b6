//! Which specifications of entries of Unix, NFS and macOS files are accepted,
//! and what they leave unsaid.

use vstd::prelude::*;
use crate::security::ace_laws::{given, key_at};
use crate::security::macos;
use crate::security::meaning::{
    flags_mean_their_bits, means_number, means_uuid, values_mean_themselves,
};
use crate::security::model::{FlagClass, MacosAce, Nfs4Ace, PosixAce, PosixQualifier, SpecValue};
use crate::security::nfs4;
use crate::security::path::under_key;
use crate::security::portable_laws::{
    lemma_keys_differ, macos_answers, nfs4_answers, principals_mean_themselves, unix_answers,
};
use crate::security::unix;

verus! {

broadcast use vstd::string::group_string_axioms;

/// Whether all keys of a specification are symbols, and no two are the same.
pub open spec fn distinct_keys(pairs: Seq<(SpecValue, SpecValue)>) -> bool {
    &&& forall|i: int| 0 <= i < pairs.len() ==> (#[trigger] pairs[i]).0 is Sym
    &&& forall|i: int, j: int, name: Seq<char>|
        0 <= i < j && #[trigger] key_at(pairs, i, name) ==> !#[trigger] key_at(pairs, j, name)
}

proof fn lemma_given(pairs: Seq<(SpecValue, SpecValue)>, n: int, name: Seq<char>)
    requires
        0 < n <= pairs.len(),
    ensures
        given(pairs, n, name) <==> given(pairs, n - 1, name) || key_at(pairs, n - 1, name),
{
    if given(pairs, n - 1, name) {
        let i = choose|i: int| 0 <= i < n - 1 && #[trigger] key_at(pairs, i, name);
        assert(0 <= i < n && key_at(pairs, i, name));
    }
    if given(pairs, n, name) {
        let i = choose|i: int| 0 <= i < n && #[trigger] key_at(pairs, i, name);
        assert(i < n - 1 || key_at(pairs, n - 1, name));
    }
}

proof fn lemma_fresh(pairs: Seq<(SpecValue, SpecValue)>, n: int, name: Seq<char>)
    requires
        0 < n <= pairs.len(),
        distinct_keys(pairs),
        key_at(pairs, n - 1, name),
    ensures
        !given(pairs, n - 1, name),
{
    if given(pairs, n - 1, name) {
        let i = choose|i: int| 0 <= i < n - 1 && #[trigger] key_at(pairs, i, name);
        assert(!key_at(pairs, n - 1, name));
    }
}

/// Whether an entry answers all keys of a specification.
pub open spec fn macos_answers_all(pairs: Seq<(SpecValue, SpecValue)>, n: int,
    ace: MacosAce) -> bool {
    forall|i: int, name: Seq<char>|
        0 <= i < n && #[trigger] key_at(pairs, i, name) ==> macos_answers(ace, name, pairs[i].1)
            && (
        name == "allow"@ || name == "deny"@ || name == "mask"@ || name == "flags"@)
}

proof fn lemma_macos_silent(pairs: Seq<(SpecValue, SpecValue)>, n: nat, path: Seq<char>)
    requires
        n <= pairs.len(),
        macos::parts_of(pairs, n, path) is Ok,
    ensures
        ({
            let parts = macos::parts_of(pairs, n, path)->Ok_0;
            &&& parts.mask is Some <==> given(pairs, n as int, "mask"@)
            &&& parts.flags is Some <==> given(pairs, n as int, "flags"@)
            &&& parts.ace_type is Some <==> given(pairs, n as int, "allow"@)
                || given(pairs, n as int, "deny"@)
        }),
    decreases n,
{
    lemma_keys_differ();
    if n > 0 {
        lemma_macos_silent(pairs, (n - 1) as nat, path);
        lemma_given(pairs, n as int, "allow"@);
        lemma_given(pairs, n as int, "deny"@);
        lemma_given(pairs, n as int, "mask"@);
        lemma_given(pairs, n as int, "flags"@);
        let name = pairs[n - 1].0->Sym_0@;
        assert(key_at(pairs, n - 1, name));
    }
}

/// An entry of a macOS list that is specified says what it does and has a mask;
/// without flags it has none.
pub proof fn macos_entries_need_a_type_and_a_mask(
    pairs: Vec<(SpecValue, SpecValue)>,
    path: Seq<char>,
    ace: MacosAce,
)
    requires
        macos::ace_result(SpecValue::Dict(pairs), path) == Ok::<MacosAce,
            crate::error::ErrorView>(ace),
    ensures
        given(pairs@, pairs@.len() as int, "mask"@),
        given(pairs@, pairs@.len() as int, "allow"@) || given(pairs@, pairs@.len() as int, "deny"@),
        !given(pairs@, pairs@.len() as int, "flags"@) ==> ace.flags == 0,
{
    lemma_macos_silent(pairs@, pairs@.len(), path);
}

proof fn lemma_macos_progress(
    pairs: Seq<(SpecValue, SpecValue)>,
    n: nat,
    path: Seq<char>,
    ace: MacosAce,
)
    requires
        n <= pairs.len(),
        distinct_keys(pairs),
        macos_answers_all(pairs, n as int, ace),
    ensures
        macos::parts_of(pairs, n, path) is Ok,
    decreases n,
{
    lemma_keys_differ();
    if n > 0 {
        let m = (n - 1) as nat;
        lemma_macos_progress(pairs, m, path, ace);
        lemma_macos_silent(pairs, m, path);
        let name = pairs[n - 1].0->Sym_0@;
        let entry = pairs[n - 1].1;
        let at = under_key(path, name);
        assert(key_at(pairs, n - 1, name));
        lemma_fresh(pairs, n as int, name);
        assert(macos_answers(ace, name, entry));
        flags_mean_their_bits(FlagClass::MacosMask, entry);
        flags_mean_their_bits(FlagClass::MacosFlags, entry);
        values_mean_themselves(entry, at, 0);
        if name == "allow"@ || name == "deny"@ {
            assert(means_uuid(entry, ace.principal));
        }
        if name == "allow"@ || name == "deny"@ {
            if given(pairs, n - 1, "allow"@) {
                let i = choose|i: int| 0 <= i < n - 1 && #[trigger] key_at(pairs, i, "allow"@);
                assert(macos_answers(ace, "allow"@, pairs[i].1));
            }
            if given(pairs, n - 1, "deny"@) {
                let i = choose|i: int| 0 <= i < n - 1 && #[trigger] key_at(pairs, i, "deny"@);
                assert(macos_answers(ace, "deny"@, pairs[i].1));
            }
        }
    }
}

/// A specification whose keys differ and can be read, and which says what the
/// entry does and what its mask is, is accepted.
pub proof fn macos_specifications_are_accepted(
    pairs: Vec<(SpecValue, SpecValue)>,
    path: Seq<char>,
    ace: MacosAce,
)
    requires
        distinct_keys(pairs@),
        macos_answers_all(pairs@, pairs@.len() as int, ace),
        given(pairs@, pairs@.len() as int, "mask"@),
        given(pairs@, pairs@.len() as int, "allow"@) || given(pairs@, pairs@.len() as int, "deny"@),
    ensures
        macos::ace_result(SpecValue::Dict(pairs), path) is Ok,
{
    lemma_macos_progress(pairs@, pairs@.len(), path, ace);
    lemma_macos_silent(pairs@, pairs@.len(), path);
}

/// Whether an entry answers all keys of a specification.
pub open spec fn nfs4_answers_all(pairs: Seq<(SpecValue, SpecValue)>, n: int,
    ace: Nfs4Ace) -> bool {
    forall|i: int, name: Seq<char>|
        0 <= i < n && #[trigger] key_at(pairs, i, name) ==> nfs4_answers(ace, name, pairs[i].1) && (
        name == "allow"@ || name == "deny"@ || name == "audit"@ || name == "alarm"@
            || name == "mask"@ || name == "flags"@)
}

proof fn lemma_nfs4_silent(pairs: Seq<(SpecValue, SpecValue)>, n: nat, path: Seq<char>)
    requires
        n <= pairs.len(),
        nfs4::parts_of(pairs, n, path) is Ok,
    ensures
        ({
            let parts = nfs4::parts_of(pairs, n, path)->Ok_0;
            &&& parts.mask is Some <==> given(pairs, n as int, "mask"@)
            &&& parts.flags is Some <==> given(pairs, n as int, "flags"@)
            &&& parts.ace_type is Some <==> given(pairs, n as int, "allow"@)
                || given(pairs, n as int, "deny"@) || given(pairs, n as int, "audit"@)
                || given(pairs, n as int, "alarm"@)
        }),
    decreases n,
{
    lemma_keys_differ();
    if n > 0 {
        lemma_nfs4_silent(pairs, (n - 1) as nat, path);
        lemma_given(pairs, n as int, "allow"@);
        lemma_given(pairs, n as int, "deny"@);
        lemma_given(pairs, n as int, "audit"@);
        lemma_given(pairs, n as int, "alarm"@);
        lemma_given(pairs, n as int, "mask"@);
        lemma_given(pairs, n as int, "flags"@);
        let name = pairs[n - 1].0->Sym_0@;
        assert(key_at(pairs, n - 1, name));
    }
}

/// An entry of an NFS list that is specified says what it does and has a mask;
/// without flags it has none.
pub proof fn nfs4_entries_need_a_type_and_a_mask(
    pairs: Vec<(SpecValue, SpecValue)>,
    path: Seq<char>,
    ace: Nfs4Ace,
)
    requires
        nfs4::ace_result(SpecValue::Dict(pairs), path) == Ok::<Nfs4Ace,
            crate::error::ErrorView>(ace),
    ensures
        given(pairs@, pairs@.len() as int, "mask"@),
        given(pairs@, pairs@.len() as int, "allow"@)
            || given(pairs@, pairs@.len() as int, "deny"@)
            || given(pairs@, pairs@.len() as int, "audit"@)
            || given(pairs@, pairs@.len() as int, "alarm"@),
        !given(pairs@, pairs@.len() as int, "flags"@) ==> ace.flags == 0,
{
    lemma_nfs4_silent(pairs@, pairs@.len(), path);
}

proof fn lemma_nfs4_progress(
    pairs: Seq<(SpecValue, SpecValue)>,
    n: nat,
    path: Seq<char>,
    ace: Nfs4Ace,
)
    requires
        n <= pairs.len(),
        distinct_keys(pairs),
        nfs4_answers_all(pairs, n as int, ace),
    ensures
        nfs4::parts_of(pairs, n, path) is Ok,
    decreases n,
{
    lemma_keys_differ();
    if n > 0 {
        let m = (n - 1) as nat;
        lemma_nfs4_progress(pairs, m, path, ace);
        lemma_nfs4_silent(pairs, m, path);
        let name = pairs[n - 1].0->Sym_0@;
        let entry = pairs[n - 1].1;
        let at = under_key(path, name);
        assert(key_at(pairs, n - 1, name));
        lemma_fresh(pairs, n as int, name);
        assert(nfs4_answers(ace, name, entry));
        flags_mean_their_bits(FlagClass::Nfs4Mask, entry);
        flags_mean_their_bits(FlagClass::Nfs4Flags, entry);
        principals_mean_themselves(entry, at, ace.qualifier);
        if name == "allow"@ || name == "deny"@ || name == "audit"@ || name == "alarm"@ {
            if given(pairs, n - 1, "allow"@) {
                let i = choose|i: int| 0 <= i < n - 1 && #[trigger] key_at(pairs, i, "allow"@);
                assert(nfs4_answers(ace, "allow"@, pairs[i].1));
            }
            if given(pairs, n - 1, "deny"@) {
                let i = choose|i: int| 0 <= i < n - 1 && #[trigger] key_at(pairs, i, "deny"@);
                assert(nfs4_answers(ace, "deny"@, pairs[i].1));
            }
            if given(pairs, n - 1, "audit"@) {
                let i = choose|i: int| 0 <= i < n - 1 && #[trigger] key_at(pairs, i, "audit"@);
                assert(nfs4_answers(ace, "audit"@, pairs[i].1));
            }
            if given(pairs, n - 1, "alarm"@) {
                let i = choose|i: int| 0 <= i < n - 1 && #[trigger] key_at(pairs, i, "alarm"@);
                assert(nfs4_answers(ace, "alarm"@, pairs[i].1));
            }
        }
    }
}

/// A specification whose keys differ and can be read, and which says what the
/// entry does and what its mask is, is accepted.
pub proof fn nfs4_specifications_are_accepted(
    pairs: Vec<(SpecValue, SpecValue)>,
    path: Seq<char>,
    ace: Nfs4Ace,
)
    requires
        distinct_keys(pairs@),
        nfs4_answers_all(pairs@, pairs@.len() as int, ace),
        given(pairs@, pairs@.len() as int, "mask"@),
        given(pairs@, pairs@.len() as int, "allow"@)
            || given(pairs@, pairs@.len() as int, "deny"@)
            || given(pairs@, pairs@.len() as int, "audit"@)
            || given(pairs@, pairs@.len() as int, "alarm"@),
    ensures
        nfs4::ace_result(SpecValue::Dict(pairs), path) is Ok,
{
    lemma_nfs4_progress(pairs@, pairs@.len(), path, ace);
    lemma_nfs4_silent(pairs@, pairs@.len(), path);
}

/// Whether an entry answers all keys of a specification.
pub open spec fn unix_answers_all(pairs: Seq<(SpecValue, SpecValue)>, n: int,
    ace: PosixAce) -> bool {
    forall|i: int, name: Seq<char>|
        0 <= i < n && #[trigger] key_at(pairs, i, name) ==> unix_answers(ace, name, pairs[i].1) && (
        name == "user_obj"@ || name == "group_obj"@ || name == "mask"@ || name == "other"@
            || name == "user"@ || name == "group"@ || name == "permissions"@)
}

proof fn lemma_unix_silent(pairs: Seq<(SpecValue, SpecValue)>, n: nat, path: Seq<char>)
    requires
        n <= pairs.len(),
        unix::parts_of(pairs, n, path) is Ok,
    ensures
        ({
            let parts = unix::parts_of(pairs, n, path)->Ok_0;
            &&& parts.separate <==> given(pairs, n as int, "permissions"@)
            &&& parts.permissions is Some <==> given(pairs, n as int, "permissions"@)
                || given(pairs, n as int, "user_obj"@) || given(pairs, n as int, "group_obj"@)
                || given(pairs, n as int, "mask"@) || given(pairs, n as int, "other"@)
            &&& parts.qualifier is Some <==> given(pairs, n as int, "user_obj"@)
                || given(pairs, n as int, "group_obj"@) || given(pairs, n as int, "mask"@)
                || given(pairs, n as int, "other"@) || given(pairs, n as int, "user"@)
                || given(pairs, n as int, "group"@)
        }),
    decreases n,
{
    lemma_keys_differ();
    if n > 0 {
        lemma_unix_silent(pairs, (n - 1) as nat, path);
        lemma_given(pairs, n as int, "user_obj"@);
        lemma_given(pairs, n as int, "group_obj"@);
        lemma_given(pairs, n as int, "mask"@);
        lemma_given(pairs, n as int, "other"@);
        lemma_given(pairs, n as int, "user"@);
        lemma_given(pairs, n as int, "group"@);
        lemma_given(pairs, n as int, "permissions"@);
        let name = pairs[n - 1].0->Sym_0@;
        assert(key_at(pairs, n - 1, name));
    }
}

/// An entry of a Unix list that is specified is about someone; without
/// permissions it permits nothing.
pub proof fn unix_entries_need_a_qualifier(
    pairs: Vec<(SpecValue, SpecValue)>,
    path: Seq<char>,
    ace: PosixAce,
)
    requires
        unix::ace_result(SpecValue::Dict(pairs), path) == Ok::<PosixAce, crate::error::ErrorView>(
            ace,
        ),
    ensures
        given(pairs@, pairs@.len() as int, "user_obj"@)
            || given(pairs@, pairs@.len() as int, "group_obj"@)
            || given(pairs@, pairs@.len() as int, "mask"@)
            || given(pairs@, pairs@.len() as int, "other"@)
            || given(pairs@, pairs@.len() as int, "user"@)
            || given(pairs@, pairs@.len() as int, "group"@),
        !given(pairs@, pairs@.len() as int, "permissions"@) && (ace.qualifier is User
            || ace.qualifier is Group) ==> ace.permissions == 0,
{
    lemma_unix_silent(pairs@, pairs@.len(), path);
    lemma_keys_differ();
    if ace.qualifier is User || ace.qualifier is Group {
        if given(pairs@, pairs@.len() as int, "user_obj"@) {
            let i = choose|i: int|
                0 <= i < pairs@.len() && #[trigger] key_at(pairs@, i, "user_obj"@);
            crate::security::portable_laws::unix_entries_say_what_is_specified(
                SpecValue::Dict(pairs),
                path,
                ace,
                i,
                "user_obj"@,
            );
        }
        if given(pairs@, pairs@.len() as int, "group_obj"@) {
            let i = choose|i: int|
                0 <= i < pairs@.len() && #[trigger] key_at(pairs@, i, "group_obj"@);
            crate::security::portable_laws::unix_entries_say_what_is_specified(
                SpecValue::Dict(pairs),
                path,
                ace,
                i,
                "group_obj"@,
            );
        }
        if given(pairs@, pairs@.len() as int, "mask"@) {
            let i = choose|i: int|
                0 <= i < pairs@.len() && #[trigger] key_at(pairs@, i, "mask"@);
            crate::security::portable_laws::unix_entries_say_what_is_specified(
                SpecValue::Dict(pairs),
                path,
                ace,
                i,
                "mask"@,
            );
        }
        if given(pairs@, pairs@.len() as int, "other"@) {
            let i = choose|i: int|
                0 <= i < pairs@.len() && #[trigger] key_at(pairs@, i, "other"@);
            crate::security::portable_laws::unix_entries_say_what_is_specified(
                SpecValue::Dict(pairs),
                path,
                ace,
                i,
                "other"@,
            );
        }
    }
}

proof fn lemma_unix_progress(
    pairs: Seq<(SpecValue, SpecValue)>,
    n: nat,
    path: Seq<char>,
    ace: PosixAce,
)
    requires
        n <= pairs.len(),
        distinct_keys(pairs),
        unix_answers_all(pairs, n as int, ace),
        ace.qualifier is User || ace.qualifier is Group || !given(pairs, n as int, "permissions"@),
    ensures
        unix::parts_of(pairs, n, path) is Ok,
    decreases n,
{
    lemma_keys_differ();
    if n > 0 {
        let m = (n - 1) as nat;
        lemma_given(pairs, n as int, "permissions"@);
        lemma_unix_progress(pairs, m, path, ace);
        lemma_unix_silent(pairs, m, path);
        let name = pairs[n - 1].0->Sym_0@;
        let entry = pairs[n - 1].1;
        let at = under_key(path, name);
        assert(key_at(pairs, n - 1, name));
        lemma_fresh(pairs, n as int, name);
        assert(unix_answers(ace, name, entry));
        flags_mean_their_bits(FlagClass::Permission, entry);
        values_mean_themselves(entry, at, u32::MAX as int);
        if let PosixQualifier::User(k) = ace.qualifier {
            assert(name == "user"@ ==> means_number(entry, k as int, u32::MAX as int));
        }
        if let PosixQualifier::Group(k) = ace.qualifier {
            assert(name == "group"@ ==> means_number(entry, k as int, u32::MAX as int));
        }
        if given(pairs, n - 1, "user_obj"@) {
            let i = choose|i: int| 0 <= i < n - 1 && #[trigger] key_at(pairs, i, "user_obj"@);
            assert(unix_answers(ace, "user_obj"@, pairs[i].1));
        }
        if given(pairs, n - 1, "group_obj"@) {
            let i = choose|i: int| 0 <= i < n - 1 && #[trigger] key_at(pairs, i, "group_obj"@);
            assert(unix_answers(ace, "group_obj"@, pairs[i].1));
        }
        if given(pairs, n - 1, "mask"@) {
            let i = choose|i: int| 0 <= i < n - 1 && #[trigger] key_at(pairs, i, "mask"@);
            assert(unix_answers(ace, "mask"@, pairs[i].1));
        }
        if given(pairs, n - 1, "other"@) {
            let i = choose|i: int| 0 <= i < n - 1 && #[trigger] key_at(pairs, i, "other"@);
            assert(unix_answers(ace, "other"@, pairs[i].1));
        }
        if given(pairs, n - 1, "user"@) {
            let i = choose|i: int| 0 <= i < n - 1 && #[trigger] key_at(pairs, i, "user"@);
            assert(unix_answers(ace, "user"@, pairs[i].1));
        }
        if given(pairs, n - 1, "group"@) {
            let i = choose|i: int| 0 <= i < n - 1 && #[trigger] key_at(pairs, i, "group"@);
            assert(unix_answers(ace, "group"@, pairs[i].1));
        }
    }
}

/// A specification whose keys differ and can be read, and which says once whom
/// the entry is about, is accepted; permissions of their own go only with a
/// number.
pub proof fn unix_specifications_are_accepted(
    pairs: Vec<(SpecValue, SpecValue)>,
    path: Seq<char>,
    ace: PosixAce,
)
    requires
        distinct_keys(pairs@),
        unix_answers_all(pairs@, pairs@.len() as int, ace),
        ace.qualifier is User || ace.qualifier is Group || !given(
            pairs@,
            pairs@.len() as int,
            "permissions"@,
        ),
        given(pairs@, pairs@.len() as int, "user_obj"@)
            || given(pairs@, pairs@.len() as int, "group_obj"@)
            || given(pairs@, pairs@.len() as int, "mask"@)
            || given(pairs@, pairs@.len() as int, "other"@)
            || given(pairs@, pairs@.len() as int, "user"@)
            || given(pairs@, pairs@.len() as int, "group"@),
    ensures
        unix::ace_result(SpecValue::Dict(pairs), path) is Ok,
{
    lemma_unix_progress(pairs@, pairs@.len(), path, ace);
    lemma_unix_silent(pairs@, pairs@.len(), path);
    lemma_keys_differ();
    let n = pairs@.len() as int;
    if given(pairs@, n, "user"@) {
        let i = choose|i: int| 0 <= i < n && #[trigger] key_at(pairs@, i, "user"@);
        crate::security::portable_laws::lemma_unix_read(pairs@, pairs@.len(), path);
        assert(crate::security::portable_laws::unix_read(
            unix::parts_of(pairs@, pairs@.len(), path)->Ok_0,
            "user"@,
            pairs@[i].1,
        ));
    }
    if given(pairs@, n, "group"@) {
        let i = choose|i: int| 0 <= i < n && #[trigger] key_at(pairs@, i, "group"@);
        crate::security::portable_laws::lemma_unix_read(pairs@, pairs@.len(), path);
        assert(crate::security::portable_laws::unix_read(
            unix::parts_of(pairs@, pairs@.len(), path)->Ok_0,
            "group"@,
            pairs@[i].1,
        ));
    }
}

} // verus!

//! What the values of a specification mean, each in its own kind.

use vstd::prelude::*;
use crate::error::ErrorView;
use crate::security::ace::{bin_result, flags_result, guid_result, mask_result, rigid_sid};
use crate::security::coerce::{
    as_flags, bool_result, class_names, coerced, id_result, named_together,
};
use crate::security::flags::find;
use crate::security::macos::{number_result, uuid_result};
use crate::security::model::{FlagClass, SidView, SpecValue};
use crate::security::sid::{named_in, sid_option_result, sid_result, well_known};

verus! {

broadcast use vstd::string::group_string_axioms;

/// Whether a name stands for an identifier on every Windows installation.
pub open spec fn names_sid(name: Seq<char>, sid: SidView) -> bool {
    exists|i: int|
        0 <= i < well_known().len() && (#[trigger] well_known()[i]).0 == name && sid == (SidView {
            authority: well_known()[i].1,
            sub_authorities: well_known()[i].2,
        }) && forall|j: int| 0 <= j < i ==> (#[trigger] well_known()[j]).0 != name
}

/// Whether a value means an identifier: it is one, it is its name, or it reads
/// as it.
pub open spec fn means_sid(value: SpecValue, sid: SidView) -> bool {
    match value {
        SpecValue::Sid(s) => sid == s@,
        SpecValue::Sym(name) => names_sid(name@, sid),
        SpecValue::Str(_, readings) => readings.sid matches Ok(s) && sid == s@,
        SpecValue::Bin(_, readings) => readings.sid matches Ok(s) && sid == s@,
        _ => false,
    }
}

proof fn lemma_named_in(table: Seq<(Seq<char>, u64, Seq<u32>)>, name: Seq<char>)
    ensures
        match named_in(table, name) {
            Some(sid) => exists|i: int|
                0 <= i < table.len() && (#[trigger] table[i]).0 == name && sid == (SidView {
                    authority: table[i].1,
                    sub_authorities: table[i].2,
                }) && forall|j: int| 0 <= j < i ==> (#[trigger] table[j]).0 != name,
            None => forall|j: int| 0 <= j < table.len() ==> (#[trigger] table[j]).0 != name,
        },
    decreases table.len(),
{
    if table.len() > 0 {
        let rest = table.skip(1);
        if table[0].0 == name {
            assert(table[0].0 == name);
        } else {
            lemma_named_in(rest, name);
            match named_in(rest, name) {
                Some(sid) => {
                    let i = choose|i: int|
                        0 <= i < rest.len() && (#[trigger] rest[i]).0 == name && sid == (SidView {
                            authority: rest[i].1,
                            sub_authorities: rest[i].2,
                        }) && forall|j: int| 0 <= j < i ==> (#[trigger] rest[j]).0 != name;
                    assert(table[i + 1] == rest[i]);
                    assert forall|j: int| 0 <= j < i + 1 implies (#[trigger] table[j]).0 != name by {
                        if j > 0 {
                            assert(rest[j - 1] == table[j]);
                        }
                    }
                },
                None => {
                    assert forall|j: int| 0 <= j < table.len() implies (#[trigger] table[j]).0
                        != name by {
                        if j > 0 {
                            assert(rest[j - 1] == table[j]);
                        }
                    }
                },
            }
        }
    }
}

/// A value is taken for an identifier exactly where it means one, and for the
/// one that it means.
pub proof fn identifiers_mean_themselves(value: SpecValue, path: Seq<char>, sid: SidView)
    ensures
        sid_result(value, path) == Ok::<SidView, ErrorView>(sid) <==> means_sid(value, sid),
        sid_option_result(value, path) == Ok::<Option<SidView>, ErrorView>(Some(sid))
            <==> means_sid(value, sid),
        sid_option_result(value, path) == Ok::<Option<SidView>, ErrorView>(None) <==> value is Nil,
        rigid_sid(value, path) == Ok::<SidView, ErrorView>(sid) <==> (value matches SpecValue::Sid(
            s,
        ) && s@ == sid),
{
    if let SpecValue::Sym(name) = value {
        lemma_named_in(well_known(), name@);
        if names_sid(name@, sid) {
            let i = choose|i: int|
                0 <= i < well_known().len() && (#[trigger] well_known()[i]).0 == name@ && sid == (
                SidView { authority: well_known()[i].1, sub_authorities: well_known()[i].2 })
                    && forall|j: int| 0 <= j < i ==> (#[trigger] well_known()[j]).0 != name@;
            match named_in(well_known(), name@) {
                Some(found) => {
                    let k = choose|k: int|
                        0 <= k < well_known().len() && (#[trigger] well_known()[k]).0 == name@
                            && found == (SidView {
                            authority: well_known()[k].1,
                            sub_authorities: well_known()[k].2,
                        }) && forall|j: int| 0 <= j < k ==> (#[trigger] well_known()[j]).0 != name@;
                    assert(i == k) by {
                        if i < k {
                            assert(well_known()[i].0 != name@);
                        }
                        if k < i {
                            assert(well_known()[k].0 != name@);
                        }
                    }
                },
                None => {
                    assert(well_known()[i].0 != name@);
                },
            }
        }
    }
}

/// Whether a name stands for bits in a set of flags: the first entry with the
/// name has these bits.
pub open spec fn names_bits(class: FlagClass, name: Seq<char>, bits: u32) -> bool {
    exists|i: int|
        0 <= i < class_names(class).len() && (#[trigger] class_names(class)[i]) == (name, bits)
            && forall|j: int| 0 <= j < i ==> (#[trigger] class_names(class)[j]).0 != name
}

proof fn lemma_find(names: Seq<(Seq<char>, u32)>, name: Seq<char>)
    ensures
        match find(names, name) {
            Some(bits) => exists|i: int|
                0 <= i < names.len() && (#[trigger] names[i]) == (name, bits) && forall|j: int|
                    0 <= j < i ==> (#[trigger] names[j]).0 != name,
            None => forall|j: int| 0 <= j < names.len() ==> (#[trigger] names[j]).0 != name,
        },
    decreases names.len(),
{
    if names.len() > 0 {
        let rest = names.skip(1);
        if names[0].0 == name {
            assert(names[0] == (name, names[0].1));
        } else {
            lemma_find(rest, name);
            match find(rest, name) {
                Some(bits) => {
                    let i = choose|i: int|
                        0 <= i < rest.len() && (#[trigger] rest[i]) == (name, bits) && forall|j: int|
                            0 <= j < i ==> (#[trigger] rest[j]).0 != name;
                    assert(names[i + 1] == (name, bits));
                    assert forall|j: int| 0 <= j < i + 1 implies (#[trigger] names[j]).0 != name by {
                        if j > 0 {
                            assert(rest[j - 1] == names[j]);
                        }
                    }
                },
                None => {
                    assert forall|j: int| 0 <= j < names.len() implies (#[trigger] names[j]).0
                        != name by {
                        if j > 0 {
                            assert(rest[j - 1] == names[j]);
                        }
                    }
                },
            }
        }
    }
}

/// Flags are found by their names: by the first entry with the name, if there
/// is one.
pub proof fn names_are_found(class: FlagClass, name: Seq<char>)
    ensures
        find(class_names(class), name) matches Some(bits) ==> names_bits(class, name, bits),
        find(class_names(class), name) is None ==> forall|bits: u32| !names_bits(class, name, bits),
{
    lemma_find(class_names(class), name);
    if find(class_names(class), name) is None {
        assert forall|bits: u32| !names_bits(class, name, bits) by {
            if names_bits(class, name, bits) {
                let i = choose|i: int|
                    0 <= i < class_names(class).len() && (#[trigger] class_names(class)[i]) == (
                        name,
                        bits,
                    ) && forall|j: int| 0 <= j < i ==> (#[trigger] class_names(class)[j]).0 != name;
                assert(class_names(class)[i].0 != name);
            }
        }
    }
}

/// Whether a value means bits of a set of flags: it is such a set, or the name
/// of one, or several names whose bits are all set, with no others.
pub open spec fn means_bits(class: FlagClass, value: SpecValue, bits: u32) -> bool {
    match value {
        SpecValue::Flags(c, b) => c == class && bits == b,
        SpecValue::Sym(name) => names_bits(class, name@, bits),
        SpecValue::Items(items) => {
            &&& forall|j: int|
                0 <= j < items@.len() ==> (#[trigger] items@[j]) is Sym && find(
                    class_names(class),
                    items@[j]->Sym_0@,
                ) is Some
            &&& forall|j: int|
                0 <= j < items@.len() ==> bits & item_bits(class, #[trigger] items@[j])
                    == item_bits(class, items@[j])
            &&& forall|other: u32|
                (forall|j: int| 0 <= j < items@.len() ==> item_bits(class, #[trigger] items@[j]) & other == 0)
                    ==> #[trigger] (bits & other) == 0
        },
        _ => false,
    }
}

/// The bits of an item that is a name.
pub open spec fn item_bits(class: FlagClass, item: SpecValue) -> u32 {
    match find(class_names(class), item->Sym_0@) {
        Some(bits) => bits,
        None => 0,
    }
}

proof fn lemma_together(class: FlagClass, items: Seq<SpecValue>, n: nat)
    requires
        n <= items.len(),
    ensures
        match named_together(class, items, n) {
            Some(bits) => {
                &&& forall|j: int|
                    0 <= j < n ==> (#[trigger] items[j]) is Sym && find(
                        class_names(class),
                        items[j]->Sym_0@,
                    ) is Some
                &&& forall|j: int|
                    0 <= j < n ==> bits & item_bits(class, #[trigger] items[j]) == item_bits(
                        class,
                        items[j],
                    )
                &&& forall|other: u32|
                    (forall|j: int| 0 <= j < n ==> item_bits(class, #[trigger] items[j]) & other == 0)
                        ==> #[trigger] (bits & other) == 0
            },
            None => exists|j: int|
                0 <= j < n && !((#[trigger] items[j]) is Sym && find(
                    class_names(class),
                    items[j]->Sym_0@,
                ) is Some),
        },
    decreases n,
{
    if n == 0 {
        assert forall|other: u32| #[trigger] (0u32 & other) == 0 by {
            assert(0u32 & other == 0) by (bit_vector);
        }
    } else {
        let m = (n - 1) as nat;
        lemma_together(class, items, m);
        match named_together(class, items, n) {
            Some(bits) => {
                let before = named_together(class, items, m)->0;
                let more = item_bits(class, items[n - 1]);
                assert(bits == before | more);
                assert forall|j: int| 0 <= j < n implies bits & item_bits(class, #[trigger] items[j])
                    == item_bits(class, items[j]) by {
                    let b = item_bits(class, items[j]);
                    if j < m {
                        assert(before & b == b);
                        assert((before | more) & b == b) by (bit_vector)
                            requires
                                before & b == b,
                        ;
                    } else {
                        assert((before | more) & more == more) by (bit_vector);
                    }
                }
                assert forall|other: u32|
                    (forall|j: int| 0 <= j < n ==> item_bits(class, #[trigger] items[j]) & other == 0)
                        implies #[trigger] (bits & other) == 0 by {
                    assert(item_bits(class, items[n - 1]) & other == 0);
                    assert(before & other == 0);
                    assert((before | more) & other == 0) by (bit_vector)
                        requires
                            before & other == 0,
                            more & other == 0,
                    ;
                }
            },
            None => {
                if named_together(class, items, m) is None {
                    let j = choose|j: int|
                        0 <= j < m && !((#[trigger] items[j]) is Sym && find(
                            class_names(class),
                            items[j]->Sym_0@,
                        ) is Some);
                    assert(0 <= j < n);
                } else {
                    assert(!(items[n - 1] is Sym && find(
                        class_names(class),
                        items[n - 1]->Sym_0@,
                    ) is Some));
                }
            },
        }
    }
}

/// A value that is taken for flags is taken for the bits that it means, and
/// one is taken exactly where it means some.
pub proof fn flags_mean_their_bits(class: FlagClass, value: SpecValue)
    ensures
        coerced(class, value) matches Some(bits) ==> means_bits(class, value, bits),
        coerced(class, value) is None ==> forall|bits: u32| !means_bits(class, value, bits),
        as_flags(class, value) matches Some(bits) ==> value == SpecValue::Flags(class, bits),
        value matches SpecValue::Flags(c, bits) ==> (c == class ==> as_flags(class, value) == Some(
            bits,
        )),
{
    if let SpecValue::Sym(name) = value {
        names_are_found(class, name@);
    }
    if let SpecValue::Items(items) = value {
        lemma_together(class, items@, items@.len());
        if coerced(class, value) is None {
            let j = choose|j: int|
                0 <= j < items@.len() && !((#[trigger] items@[j]) is Sym && find(
                    class_names(class),
                    items@[j]->Sym_0@,
                ) is Some);
            assert forall|bits: u32| !means_bits(class, value, bits) by {
                assert(!(items@[j] is Sym && find(class_names(class), items@[j]->Sym_0@) is Some));
            }
        }
    }
}

/// Whether a value means a number up to `max`.
pub open spec fn means_number(value: SpecValue, n: int, max: int) -> bool {
    value matches SpecValue::Int(v) && v == n && 0 <= n <= max
}

/// Whether a value means access rights: by their number, in a kind of their
/// own, or as flags.
pub open spec fn means_rights(value: SpecValue, bits: u32) -> bool {
    match value {
        SpecValue::Rights(number) => means_number(*number, bits as int, u32::MAX as int),
        SpecValue::Int(_) => means_number(value, bits as int, u32::MAX as int),
        _ => means_bits(FlagClass::AccessMask, value, bits),
    }
}

/// Whether a value means the flags of an entry: by their number, or as flags.
pub open spec fn means_ace_flags(value: SpecValue, bits: u32) -> bool {
    match value {
        SpecValue::Int(_) => means_number(value, bits as int, u8::MAX as int),
        _ => means_bits(FlagClass::AceFlags, value, bits),
    }
}

/// Whether a string or a packet reads as a number of 128 bits.
pub open spec fn reads_as(value: SpecValue, n: u128) -> bool {
    match value {
        SpecValue::Str(_, readings) => readings.uuid == Ok::<u128, String>(n),
        SpecValue::Bin(_, readings) => readings.uuid == Ok::<u128, String>(n),
        _ => false,
    }
}

/// Whether a value means a GUID.
pub open spec fn means_guid(value: SpecValue, n: u128) -> bool {
    value == SpecValue::Guid(n) || reads_as(value, n)
}

/// Whether a value means a UUID.
pub open spec fn means_uuid(value: SpecValue, n: u128) -> bool {
    value == SpecValue::Uuid(n) || reads_as(value, n)
}

/// Whether a value means a truth value.
pub open spec fn means_bool(value: SpecValue, b: bool) -> bool {
    value == SpecValue::Bool(b)
}

/// Whether a value means binary data.
pub open spec fn means_bin(value: SpecValue, bytes: Seq<u8>) -> bool {
    value matches SpecValue::Bin(b, _) && b@ == bytes
}

/// Numbers, truth values, GUIDs, UUIDs and binary data are taken for what they
/// are, and nothing else is taken for them.
pub proof fn values_mean_themselves(value: SpecValue, path: Seq<char>, max: int)
    requires
        0 <= max <= u32::MAX,
    ensures
        forall|n: int|
            #![trigger means_number(value, n, max)]
            id_result(value, path, max) == Ok::<int, ErrorView>(n) <==> means_number(value, n, max),
        forall|n: u32|
            #![trigger means_number(value, n as int, u32::MAX as int)]
            number_result(value) == Ok::<u32, ErrorView>(n) <==> means_number(
                value,
                n as int,
                u32::MAX as int,
            ),
        forall|b: bool|
            bool_result(value, path) == Ok::<bool, ErrorView>(b) <==> #[trigger] means_bool(value, b),
        forall|n: u128|
            guid_result(value) == Ok::<u128, ErrorView>(n) <==> #[trigger] means_guid(value, n),
        forall|n: u128|
            uuid_result(value) == Ok::<u128, ErrorView>(n) <==> #[trigger] means_uuid(value, n),
        forall|bytes: Seq<u8>|
            bin_result(value, path) == Ok::<Seq<u8>, ErrorView>(bytes) <==> #[trigger] means_bin(
                value,
                bytes,
            ),
{
}

/// Access rights and the flags of an entry are taken for what they mean, and
/// nothing else is taken for them.
pub proof fn rights_mean_their_bits(value: SpecValue, path: Seq<char>)
    ensures
        mask_result(value, path) matches Ok(bits) ==> means_rights(value, bits),
        mask_result(value, path) is Err ==> forall|bits: u32| !means_rights(value, bits),
        flags_result(value, path) matches Ok(bits) ==> means_ace_flags(value, bits),
        flags_result(value, path) is Err ==> forall|bits: u32| !means_ace_flags(value, bits),
{
    flags_mean_their_bits(FlagClass::AccessMask, value);
    flags_mean_their_bits(FlagClass::AceFlags, value);
}

} // verus!

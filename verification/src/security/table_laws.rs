//! The names of flags and of identifiers, by the bits and numbers that systems
//! give them.

use vstd::prelude::*;
use crate::security::flags::{find, pow2};
use crate::security::macos_flags::{macos_ace_flags_names, macos_ace_mask_names};
use crate::security::model::SidView;
use crate::security::nfs4_flags::{nfs4_ace_flags_names, nfs4_ace_mask_names};
use crate::security::posix_flags::permission_names;
use crate::security::sid::{named_in, well_known, well_known_sid};
use crate::security::windows_flags::{
    access_mask_names, ace_flags_names, sec_desc_control_names, sec_info_names,
    token_group_attributes_names,
};

verus! {

broadcast use vstd::string::group_string_axioms;

/// Whether names stand for single bits in a row, from the bit `first` on.
pub open spec fn in_a_row(
    table: Seq<(Seq<char>, u32)>,
    names: Seq<Seq<char>>,
    first: nat,
) -> bool {
    forall|i: int|
        0 <= i < names.len() ==> find(table, #[trigger] names[i]) == Some(
            pow2((first + i) as nat) as u32,
        )
}

proof fn lemma_found(table: Seq<(Seq<char>, u32)>, k: int)
    requires
        0 <= k < table.len(),
        forall|j: int| 0 <= j < k ==> (#[trigger] table[j]).0 != table[k].0,
    ensures
        find(table, table[k].0) == Some(table[k].1),
    decreases k,
{
    if k > 0 {
        let rest = table.skip(1);
        assert(table[0].0 != table[k].0);
        assert forall|j: int| 0 <= j < k - 1 implies (#[trigger] rest[j]).0 != rest[k - 1].0 by {
            assert(rest[j] == table[j + 1]);
        }
        lemma_found(rest, k - 1);
    }
}

proof fn lemma_named(table: Seq<(Seq<char>, u64, Seq<u32>)>, k: int)
    requires
        0 <= k < table.len(),
        forall|j: int| 0 <= j < k ==> (#[trigger] table[j]).0 != table[k].0,
    ensures
        named_in(table, table[k].0) == Some(
            SidView { authority: table[k].1, sub_authorities: table[k].2 },
        ),
    decreases k,
{
    if k > 0 {
        let rest = table.skip(1);
        assert(table[0].0 != table[k].0);
        assert forall|j: int| 0 <= j < k - 1 implies (#[trigger] rest[j]).0 != rest[k - 1].0 by {
            assert(rest[j] == table[j + 1]);
        }
        lemma_named(rest, k - 1);
    }
}

proof fn lemma_bits()
    ensures
        pow2(0) == 0x1,
        pow2(1) == 0x2,
        pow2(2) == 0x4,
        pow2(3) == 0x8,
        pow2(4) == 0x10,
        pow2(5) == 0x20,
        pow2(6) == 0x40,
        pow2(7) == 0x80,
        pow2(8) == 0x100,
        pow2(9) == 0x200,
        pow2(10) == 0x400,
        pow2(11) == 0x800,
        pow2(12) == 0x1000,
        pow2(13) == 0x2000,
        pow2(14) == 0x4000,
        pow2(15) == 0x8000,
        pow2(16) == 0x10000,
        pow2(17) == 0x20000,
        pow2(18) == 0x40000,
        pow2(19) == 0x80000,
        pow2(20) == 0x100000,
        pow2(21) == 0x200000,
        pow2(22) == 0x400000,
        pow2(23) == 0x800000,
        pow2(24) == 0x1000000,
        pow2(25) == 0x2000000,
        pow2(26) == 0x4000000,
        pow2(27) == 0x8000000,
        pow2(28) == 0x10000000,
        pow2(29) == 0x20000000,
        pow2(30) == 0x40000000,
        pow2(31) == 0x80000000,
{
    reveal_with_fuel(pow2, 33);
}

proof fn lemma_permissions_are_their_bits()
    ensures
        find(permission_names(), "READ"@) == Some(0x4u32),
        find(permission_names(), "WRITE"@) == Some(0x2u32),
        find(permission_names(), "EXECUTE"@) == Some(0x1u32),
        permission_names().len() == 3,
{
    reveal_strlit("READ");
    reveal_strlit("WRITE");
    reveal_strlit("EXECUTE");
    assert("READ"@.len() == 4);
    assert("WRITE"@.len() == 5);
    assert("EXECUTE"@.len() == 7);
    let table = permission_names();
    assert(table[0] == ("READ"@, 0x4u32));
    assert(table[1] == ("WRITE"@, 0x2u32));
    assert(table[2] == ("EXECUTE"@, 0x1u32));
    lemma_found(table, 0);
    lemma_found(table, 1);
    lemma_found(table, 2);
}

/// Permissions are called after what they permit: from the lowest bit on,
/// running, writing and reading.
pub proof fn permissions_are_their_bits()
    ensures
        in_a_row(permission_names(), seq!["EXECUTE"@, "WRITE"@, "READ"@], 0),
        permission_names().len() == 3,
{
    lemma_permissions_are_their_bits();
    lemma_bits();
}

proof fn lemma_macos_rights_are_their_bits()
    ensures
        find(macos_ace_mask_names(), "READ_DATA"@) == Some(0x2u32),
        find(macos_ace_mask_names(), "WRITE_DATA"@) == Some(0x4u32),
        find(macos_ace_mask_names(), "EXECUTE"@) == Some(0x8u32),
        find(macos_ace_mask_names(), "DELETE"@) == Some(0x10u32),
        find(macos_ace_mask_names(), "APPEND_DATA"@) == Some(0x20u32),
        find(macos_ace_mask_names(), "DELETE_CHILD"@) == Some(0x40u32),
        find(macos_ace_mask_names(), "READ_ATTRIBUTES"@) == Some(0x80u32),
        find(macos_ace_mask_names(), "WRITE_ATTRIBUTES"@) == Some(0x100u32),
        find(macos_ace_mask_names(), "READ_EXTATTRIBUTES"@) == Some(0x200u32),
        find(macos_ace_mask_names(), "WRITE_EXTATTRIBUTES"@) == Some(0x400u32),
        find(macos_ace_mask_names(), "READ_SECURITY"@) == Some(0x800u32),
        find(macos_ace_mask_names(), "WRITE_SECURITY"@) == Some(0x1000u32),
        find(macos_ace_mask_names(), "CHANGE_OWNER"@) == Some(0x2000u32),
        find(macos_ace_mask_names(), "SYNCHRONIZE"@) == Some(0x100000u32),
        macos_ace_mask_names().len() == 14,
{
    reveal_strlit("READ_DATA");
    reveal_strlit("WRITE_DATA");
    reveal_strlit("EXECUTE");
    reveal_strlit("DELETE");
    reveal_strlit("APPEND_DATA");
    reveal_strlit("DELETE_CHILD");
    reveal_strlit("READ_ATTRIBUTES");
    reveal_strlit("WRITE_ATTRIBUTES");
    reveal_strlit("READ_EXTATTRIBUTES");
    reveal_strlit("WRITE_EXTATTRIBUTES");
    reveal_strlit("READ_SECURITY");
    reveal_strlit("WRITE_SECURITY");
    reveal_strlit("CHANGE_OWNER");
    reveal_strlit("SYNCHRONIZE");
    assert("READ_DATA"@.len() == 9);
    assert("WRITE_DATA"@.len() == 10);
    assert("EXECUTE"@.len() == 7);
    assert("DELETE"@.len() == 6);
    assert("APPEND_DATA"@.len() == 11 && "APPEND_DATA"@[0] == 'A');
    assert("DELETE_CHILD"@.len() == 12 && "DELETE_CHILD"@[0] == 'D');
    assert("READ_ATTRIBUTES"@.len() == 15);
    assert("WRITE_ATTRIBUTES"@.len() == 16);
    assert("READ_EXTATTRIBUTES"@.len() == 18);
    assert("WRITE_EXTATTRIBUTES"@.len() == 19);
    assert("READ_SECURITY"@.len() == 13);
    assert("WRITE_SECURITY"@.len() == 14);
    assert("CHANGE_OWNER"@.len() == 12 && "CHANGE_OWNER"@[0] == 'C');
    assert("SYNCHRONIZE"@.len() == 11 && "SYNCHRONIZE"@[0] == 'S');
    let table = macos_ace_mask_names();
    assert(table[0] == ("READ_DATA"@, 0x2u32));
    assert(table[1] == ("WRITE_DATA"@, 0x4u32));
    assert(table[2] == ("EXECUTE"@, 0x8u32));
    assert(table[3] == ("DELETE"@, 0x10u32));
    assert(table[4] == ("APPEND_DATA"@, 0x20u32));
    assert(table[5] == ("DELETE_CHILD"@, 0x40u32));
    assert(table[6] == ("READ_ATTRIBUTES"@, 0x80u32));
    assert(table[7] == ("WRITE_ATTRIBUTES"@, 0x100u32));
    assert(table[8] == ("READ_EXTATTRIBUTES"@, 0x200u32));
    assert(table[9] == ("WRITE_EXTATTRIBUTES"@, 0x400u32));
    assert(table[10] == ("READ_SECURITY"@, 0x800u32));
    assert(table[11] == ("WRITE_SECURITY"@, 0x1000u32));
    assert(table[12] == ("CHANGE_OWNER"@, 0x2000u32));
    assert(table[13] == ("SYNCHRONIZE"@, 0x100000u32));
    lemma_found(table, 0);
    lemma_found(table, 1);
    lemma_found(table, 2);
    lemma_found(table, 3);
    lemma_found(table, 4);
    lemma_found(table, 5);
    lemma_found(table, 6);
    lemma_found(table, 7);
    lemma_found(table, 8);
    lemma_found(table, 9);
    lemma_found(table, 10);
    lemma_found(table, 11);
    lemma_found(table, 12);
    lemma_found(table, 13);
}

/// The rights of an entry on macOS, from the second lowest bit on.
pub proof fn macos_rights_are_their_bits()
    ensures
        in_a_row(macos_ace_mask_names(), seq!["READ_DATA"@, "WRITE_DATA"@, "EXECUTE"@, "DELETE"@,
            "APPEND_DATA"@, "DELETE_CHILD"@, "READ_ATTRIBUTES"@, "WRITE_ATTRIBUTES"@,
            "READ_EXTATTRIBUTES"@, "WRITE_EXTATTRIBUTES"@, "READ_SECURITY"@, "WRITE_SECURITY"@,
            "CHANGE_OWNER"@], 1),
        in_a_row(macos_ace_mask_names(), seq!["SYNCHRONIZE"@], 20),
        macos_ace_mask_names().len() == 14,
{
    lemma_macos_rights_are_their_bits();
    lemma_bits();
}

proof fn lemma_macos_flags_are_their_bits()
    ensures
        find(macos_ace_flags_names(), "FILE_INHERIT"@) == Some(0x20u32),
        find(macos_ace_flags_names(), "DIRECTORY_INHERIT"@) == Some(0x40u32),
        find(macos_ace_flags_names(), "LIMIT_INHERIT"@) == Some(0x80u32),
        find(macos_ace_flags_names(), "ONLY_INHERIT"@) == Some(0x100u32),
        find(macos_ace_flags_names(), "INHERITED"@) == Some(0x10u32),
        macos_ace_flags_names().len() == 5,
{
    reveal_strlit("FILE_INHERIT");
    reveal_strlit("DIRECTORY_INHERIT");
    reveal_strlit("LIMIT_INHERIT");
    reveal_strlit("ONLY_INHERIT");
    reveal_strlit("INHERITED");
    assert("FILE_INHERIT"@.len() == 12 && "FILE_INHERIT"@[0] == 'F');
    assert("DIRECTORY_INHERIT"@.len() == 17);
    assert("LIMIT_INHERIT"@.len() == 13);
    assert("ONLY_INHERIT"@.len() == 12 && "ONLY_INHERIT"@[0] == 'O');
    assert("INHERITED"@.len() == 9);
    let table = macos_ace_flags_names();
    assert(table[0] == ("FILE_INHERIT"@, 0x20u32));
    assert(table[1] == ("DIRECTORY_INHERIT"@, 0x40u32));
    assert(table[2] == ("LIMIT_INHERIT"@, 0x80u32));
    assert(table[3] == ("ONLY_INHERIT"@, 0x100u32));
    assert(table[4] == ("INHERITED"@, 0x10u32));
    lemma_found(table, 0);
    lemma_found(table, 1);
    lemma_found(table, 2);
    lemma_found(table, 3);
    lemma_found(table, 4);
}

/// The flags of an entry on macOS, in the order of their bits.
pub proof fn macos_flags_are_their_bits()
    ensures
        in_a_row(macos_ace_flags_names(), seq!["INHERITED"@, "FILE_INHERIT"@, "DIRECTORY_INHERIT"@,
            "LIMIT_INHERIT"@, "ONLY_INHERIT"@], 4),
        macos_ace_flags_names().len() == 5,
{
    lemma_macos_flags_are_their_bits();
    lemma_bits();
}

proof fn lemma_nfs4_rights_are_their_bits()
    ensures
        find(nfs4_ace_mask_names(), "READ_DATA"@) == Some(0x1u32),
        find(nfs4_ace_mask_names(), "WRITE_DATA"@) == Some(0x2u32),
        find(nfs4_ace_mask_names(), "APPEND_DATA"@) == Some(0x4u32),
        find(nfs4_ace_mask_names(), "READ_NAMED_ATTRS"@) == Some(0x8u32),
        find(nfs4_ace_mask_names(), "WRITE_NAMED_ATTRS"@) == Some(0x10u32),
        find(nfs4_ace_mask_names(), "EXECUTE"@) == Some(0x20u32),
        find(nfs4_ace_mask_names(), "DELETE_CHILD"@) == Some(0x40u32),
        find(nfs4_ace_mask_names(), "READ_ATTRIBUTES"@) == Some(0x80u32),
        find(nfs4_ace_mask_names(), "WRITE_ATTRIBUTES"@) == Some(0x100u32),
        find(nfs4_ace_mask_names(), "DELETE"@) == Some(0x10000u32),
        find(nfs4_ace_mask_names(), "READ_ACL"@) == Some(0x20000u32),
        find(nfs4_ace_mask_names(), "WRITE_ACL"@) == Some(0x40000u32),
        find(nfs4_ace_mask_names(), "WRITE_OWNER"@) == Some(0x80000u32),
        find(nfs4_ace_mask_names(), "SYNCHRONIZE"@) == Some(0x100000u32),
        nfs4_ace_mask_names().len() == 14,
{
    reveal_strlit("READ_DATA");
    reveal_strlit("WRITE_DATA");
    reveal_strlit("APPEND_DATA");
    reveal_strlit("READ_NAMED_ATTRS");
    reveal_strlit("WRITE_NAMED_ATTRS");
    reveal_strlit("EXECUTE");
    reveal_strlit("DELETE_CHILD");
    reveal_strlit("READ_ATTRIBUTES");
    reveal_strlit("WRITE_ATTRIBUTES");
    reveal_strlit("DELETE");
    reveal_strlit("READ_ACL");
    reveal_strlit("WRITE_ACL");
    reveal_strlit("WRITE_OWNER");
    reveal_strlit("SYNCHRONIZE");
    assert("READ_DATA"@.len() == 9 && "READ_DATA"@[0] == 'R');
    assert("WRITE_DATA"@.len() == 10);
    assert("APPEND_DATA"@.len() == 11 && "APPEND_DATA"@[0] == 'A');
    assert("READ_NAMED_ATTRS"@.len() == 16 && "READ_NAMED_ATTRS"@[0] == 'R');
    assert("WRITE_NAMED_ATTRS"@.len() == 17);
    assert("EXECUTE"@.len() == 7);
    assert("DELETE_CHILD"@.len() == 12);
    assert("READ_ATTRIBUTES"@.len() == 15);
    assert("WRITE_ATTRIBUTES"@.len() == 16 && "WRITE_ATTRIBUTES"@[0] == 'W');
    assert("DELETE"@.len() == 6);
    assert("READ_ACL"@.len() == 8);
    assert("WRITE_ACL"@.len() == 9 && "WRITE_ACL"@[0] == 'W');
    assert("WRITE_OWNER"@.len() == 11 && "WRITE_OWNER"@[0] == 'W');
    assert("SYNCHRONIZE"@.len() == 11 && "SYNCHRONIZE"@[0] == 'S');
    let table = nfs4_ace_mask_names();
    assert(table[0] == ("READ_DATA"@, 0x1u32));
    assert(table[1] == ("WRITE_DATA"@, 0x2u32));
    assert(table[2] == ("APPEND_DATA"@, 0x4u32));
    assert(table[3] == ("READ_NAMED_ATTRS"@, 0x8u32));
    assert(table[4] == ("WRITE_NAMED_ATTRS"@, 0x10u32));
    assert(table[5] == ("EXECUTE"@, 0x20u32));
    assert(table[6] == ("DELETE_CHILD"@, 0x40u32));
    assert(table[7] == ("READ_ATTRIBUTES"@, 0x80u32));
    assert(table[8] == ("WRITE_ATTRIBUTES"@, 0x100u32));
    assert(table[9] == ("DELETE"@, 0x10000u32));
    assert(table[10] == ("READ_ACL"@, 0x20000u32));
    assert(table[11] == ("WRITE_ACL"@, 0x40000u32));
    assert(table[12] == ("WRITE_OWNER"@, 0x80000u32));
    assert(table[13] == ("SYNCHRONIZE"@, 0x100000u32));
    lemma_found(table, 0);
    lemma_found(table, 1);
    lemma_found(table, 2);
    lemma_found(table, 3);
    lemma_found(table, 4);
    lemma_found(table, 5);
    lemma_found(table, 6);
    lemma_found(table, 7);
    lemma_found(table, 8);
    lemma_found(table, 9);
    lemma_found(table, 10);
    lemma_found(table, 11);
    lemma_found(table, 12);
    lemma_found(table, 13);
}

/// The rights of an entry of an NFS list, in the order of their bits.
pub proof fn nfs4_rights_are_their_bits()
    ensures
        in_a_row(nfs4_ace_mask_names(), seq!["READ_DATA"@, "WRITE_DATA"@, "APPEND_DATA"@,
            "READ_NAMED_ATTRS"@, "WRITE_NAMED_ATTRS"@, "EXECUTE"@, "DELETE_CHILD"@,
            "READ_ATTRIBUTES"@, "WRITE_ATTRIBUTES"@], 0),
        in_a_row(nfs4_ace_mask_names(), seq!["DELETE"@, "READ_ACL"@, "WRITE_ACL"@, "WRITE_OWNER"@,
            "SYNCHRONIZE"@], 16),
        nfs4_ace_mask_names().len() == 14,
{
    lemma_nfs4_rights_are_their_bits();
    lemma_bits();
}

proof fn lemma_nfs4_flags_are_their_bits()
    ensures
        find(nfs4_ace_flags_names(), "FILE_INHERIT"@) == Some(0x1u32),
        find(nfs4_ace_flags_names(), "DIRECTORY_INHERIT"@) == Some(0x2u32),
        find(nfs4_ace_flags_names(), "NO_PROPAGATE_INHERIT"@) == Some(0x4u32),
        find(nfs4_ace_flags_names(), "INHERIT_ONLY"@) == Some(0x8u32),
        find(nfs4_ace_flags_names(), "SUCCESSFUL_ACCESS"@) == Some(0x10u32),
        find(nfs4_ace_flags_names(), "FAILED_ACCESS"@) == Some(0x20u32),
        find(nfs4_ace_flags_names(), "INHERITED"@) == Some(0x80u32),
        nfs4_ace_flags_names().len() == 7,
{
    reveal_strlit("FILE_INHERIT");
    reveal_strlit("DIRECTORY_INHERIT");
    reveal_strlit("NO_PROPAGATE_INHERIT");
    reveal_strlit("INHERIT_ONLY");
    reveal_strlit("SUCCESSFUL_ACCESS");
    reveal_strlit("FAILED_ACCESS");
    reveal_strlit("INHERITED");
    assert("FILE_INHERIT"@.len() == 12 && "FILE_INHERIT"@[0] == 'F');
    assert("DIRECTORY_INHERIT"@.len() == 17 && "DIRECTORY_INHERIT"@[0] == 'D');
    assert("NO_PROPAGATE_INHERIT"@.len() == 20);
    assert("INHERIT_ONLY"@.len() == 12 && "INHERIT_ONLY"@[0] == 'I');
    assert("SUCCESSFUL_ACCESS"@.len() == 17 && "SUCCESSFUL_ACCESS"@[0] == 'S');
    assert("FAILED_ACCESS"@.len() == 13);
    assert("INHERITED"@.len() == 9);
    let table = nfs4_ace_flags_names();
    assert(table[0] == ("FILE_INHERIT"@, 0x1u32));
    assert(table[1] == ("DIRECTORY_INHERIT"@, 0x2u32));
    assert(table[2] == ("NO_PROPAGATE_INHERIT"@, 0x4u32));
    assert(table[3] == ("INHERIT_ONLY"@, 0x8u32));
    assert(table[4] == ("SUCCESSFUL_ACCESS"@, 0x10u32));
    assert(table[5] == ("FAILED_ACCESS"@, 0x20u32));
    assert(table[6] == ("INHERITED"@, 0x80u32));
    lemma_found(table, 0);
    lemma_found(table, 1);
    lemma_found(table, 2);
    lemma_found(table, 3);
    lemma_found(table, 4);
    lemma_found(table, 5);
    lemma_found(table, 6);
}

/// The flags of an entry of an NFS list, in the order of their bits.
pub proof fn nfs4_flags_are_their_bits()
    ensures
        in_a_row(nfs4_ace_flags_names(), seq!["FILE_INHERIT"@, "DIRECTORY_INHERIT"@,
            "NO_PROPAGATE_INHERIT"@, "INHERIT_ONLY"@, "SUCCESSFUL_ACCESS"@, "FAILED_ACCESS"@], 0),
        in_a_row(nfs4_ace_flags_names(), seq!["INHERITED"@], 7),
        nfs4_ace_flags_names().len() == 7,
{
    lemma_nfs4_flags_are_their_bits();
    lemma_bits();
}

proof fn lemma_windows_rights_are_their_bits()
    ensures
        find(access_mask_names(), "DELETE"@) == Some(0x10000u32),
        find(access_mask_names(), "READ_CONTROL"@) == Some(0x20000u32),
        find(access_mask_names(), "WRITE_DAC"@) == Some(0x40000u32),
        find(access_mask_names(), "WRITE_OWNER"@) == Some(0x80000u32),
        find(access_mask_names(), "SYNCHRONIZE"@) == Some(0x100000u32),
        find(access_mask_names(), "STANDARD_RIGHTS_REQUIRED"@) == Some(0xf0000u32),
        find(access_mask_names(), "STANDARD_RIGHTS_ALL"@) == Some(0x1f0000u32),
        find(access_mask_names(), "ACCESS_SYSTEM_SECURITY"@) == Some(0x1000000u32),
        find(access_mask_names(), "MAXIMUM_ALLOWED"@) == Some(0x2000000u32),
        find(access_mask_names(), "GENERIC_READ"@) == Some(0x80000000u32),
        find(access_mask_names(), "GENERIC_WRITE"@) == Some(0x40000000u32),
        find(access_mask_names(), "GENERIC_EXECUTE"@) == Some(0x20000000u32),
        find(access_mask_names(), "GENERIC_ALL"@) == Some(0x10000000u32),
        access_mask_names().len() == 13,
{
    reveal_strlit("DELETE");
    reveal_strlit("READ_CONTROL");
    reveal_strlit("WRITE_DAC");
    reveal_strlit("WRITE_OWNER");
    reveal_strlit("SYNCHRONIZE");
    reveal_strlit("STANDARD_RIGHTS_REQUIRED");
    reveal_strlit("STANDARD_RIGHTS_ALL");
    reveal_strlit("ACCESS_SYSTEM_SECURITY");
    reveal_strlit("MAXIMUM_ALLOWED");
    reveal_strlit("GENERIC_READ");
    reveal_strlit("GENERIC_WRITE");
    reveal_strlit("GENERIC_EXECUTE");
    reveal_strlit("GENERIC_ALL");
    assert("DELETE"@.len() == 6);
    assert("READ_CONTROL"@.len() == 12 && "READ_CONTROL"@[0] == 'R');
    assert("WRITE_DAC"@.len() == 9);
    assert("WRITE_OWNER"@.len() == 11 && "WRITE_OWNER"@[0] == 'W');
    assert("SYNCHRONIZE"@.len() == 11 && "SYNCHRONIZE"@[0] == 'S');
    assert("STANDARD_RIGHTS_REQUIRED"@.len() == 24);
    assert("STANDARD_RIGHTS_ALL"@.len() == 19);
    assert("ACCESS_SYSTEM_SECURITY"@.len() == 22);
    assert("MAXIMUM_ALLOWED"@.len() == 15 && "MAXIMUM_ALLOWED"@[0] == 'M');
    assert("GENERIC_READ"@.len() == 12 && "GENERIC_READ"@[0] == 'G');
    assert("GENERIC_WRITE"@.len() == 13);
    assert("GENERIC_EXECUTE"@.len() == 15 && "GENERIC_EXECUTE"@[0] == 'G');
    assert("GENERIC_ALL"@.len() == 11 && "GENERIC_ALL"@[0] == 'G');
    let table = access_mask_names();
    assert(table[0] == ("DELETE"@, 0x10000u32));
    assert(table[1] == ("READ_CONTROL"@, 0x20000u32));
    assert(table[2] == ("WRITE_DAC"@, 0x40000u32));
    assert(table[3] == ("WRITE_OWNER"@, 0x80000u32));
    assert(table[4] == ("SYNCHRONIZE"@, 0x100000u32));
    assert(table[5] == ("STANDARD_RIGHTS_REQUIRED"@, 0xf0000u32));
    assert(table[6] == ("STANDARD_RIGHTS_ALL"@, 0x1f0000u32));
    assert(table[7] == ("ACCESS_SYSTEM_SECURITY"@, 0x1000000u32));
    assert(table[8] == ("MAXIMUM_ALLOWED"@, 0x2000000u32));
    assert(table[9] == ("GENERIC_READ"@, 0x80000000u32));
    assert(table[10] == ("GENERIC_WRITE"@, 0x40000000u32));
    assert(table[11] == ("GENERIC_EXECUTE"@, 0x20000000u32));
    assert(table[12] == ("GENERIC_ALL"@, 0x10000000u32));
    lemma_found(table, 0);
    lemma_found(table, 1);
    lemma_found(table, 2);
    lemma_found(table, 3);
    lemma_found(table, 4);
    lemma_found(table, 5);
    lemma_found(table, 6);
    lemma_found(table, 7);
    lemma_found(table, 8);
    lemma_found(table, 9);
    lemma_found(table, 10);
    lemma_found(table, 11);
    lemma_found(table, 12);
}

/// The rights of an entry on Windows, in the order of their bits; the names for
/// several stand for the standard rights without and with waiting.
pub proof fn windows_rights_are_their_bits()
    ensures
        in_a_row(access_mask_names(), seq!["DELETE"@, "READ_CONTROL"@, "WRITE_DAC"@,
            "WRITE_OWNER"@, "SYNCHRONIZE"@], 16),
        in_a_row(access_mask_names(), seq!["ACCESS_SYSTEM_SECURITY"@, "MAXIMUM_ALLOWED"@], 24),
        in_a_row(access_mask_names(), seq!["GENERIC_ALL"@, "GENERIC_EXECUTE"@, "GENERIC_WRITE"@,
            "GENERIC_READ"@], 28),
        find(access_mask_names(),
            "STANDARD_RIGHTS_REQUIRED"@) == Some(((pow2(20) - pow2(16)) as u32)),
        find(access_mask_names(), "STANDARD_RIGHTS_ALL"@) == Some(((pow2(21) - pow2(16)) as u32)),
        access_mask_names().len() == 13,
{
    lemma_windows_rights_are_their_bits();
    lemma_bits();
}

proof fn lemma_windows_flags_are_their_bits()
    ensures
        find(ace_flags_names(), "OBJECT_INHERIT"@) == Some(0x1u32),
        find(ace_flags_names(), "CONTAINER_INHERIT"@) == Some(0x2u32),
        find(ace_flags_names(), "NO_PROPAGATE_INHERIT"@) == Some(0x4u32),
        find(ace_flags_names(), "INHERIT_ONLY"@) == Some(0x8u32),
        find(ace_flags_names(), "INHERITED"@) == Some(0x10u32),
        find(ace_flags_names(), "CRITICAL"@) == Some(0x20u32),
        find(ace_flags_names(), "SUCCESSFUL_ACCESS"@) == Some(0x40u32),
        find(ace_flags_names(), "FAILED_ACCESS"@) == Some(0x80u32),
        ace_flags_names().len() == 8,
{
    reveal_strlit("OBJECT_INHERIT");
    reveal_strlit("CONTAINER_INHERIT");
    reveal_strlit("NO_PROPAGATE_INHERIT");
    reveal_strlit("INHERIT_ONLY");
    reveal_strlit("INHERITED");
    reveal_strlit("CRITICAL");
    reveal_strlit("SUCCESSFUL_ACCESS");
    reveal_strlit("FAILED_ACCESS");
    assert("OBJECT_INHERIT"@.len() == 14);
    assert("CONTAINER_INHERIT"@.len() == 17 && "CONTAINER_INHERIT"@[0] == 'C');
    assert("NO_PROPAGATE_INHERIT"@.len() == 20);
    assert("INHERIT_ONLY"@.len() == 12);
    assert("INHERITED"@.len() == 9);
    assert("CRITICAL"@.len() == 8);
    assert("SUCCESSFUL_ACCESS"@.len() == 17 && "SUCCESSFUL_ACCESS"@[0] == 'S');
    assert("FAILED_ACCESS"@.len() == 13);
    let table = ace_flags_names();
    assert(table[0] == ("OBJECT_INHERIT"@, 0x1u32));
    assert(table[1] == ("CONTAINER_INHERIT"@, 0x2u32));
    assert(table[2] == ("NO_PROPAGATE_INHERIT"@, 0x4u32));
    assert(table[3] == ("INHERIT_ONLY"@, 0x8u32));
    assert(table[4] == ("INHERITED"@, 0x10u32));
    assert(table[5] == ("CRITICAL"@, 0x20u32));
    assert(table[6] == ("SUCCESSFUL_ACCESS"@, 0x40u32));
    assert(table[7] == ("FAILED_ACCESS"@, 0x80u32));
    lemma_found(table, 0);
    lemma_found(table, 1);
    lemma_found(table, 2);
    lemma_found(table, 3);
    lemma_found(table, 4);
    lemma_found(table, 5);
    lemma_found(table, 6);
    lemma_found(table, 7);
}

/// The flags of an entry on Windows, in the order of their bits.
pub proof fn windows_flags_are_their_bits()
    ensures
        in_a_row(ace_flags_names(), seq!["OBJECT_INHERIT"@, "CONTAINER_INHERIT"@,
            "NO_PROPAGATE_INHERIT"@, "INHERIT_ONLY"@, "INHERITED"@, "CRITICAL"@,
            "SUCCESSFUL_ACCESS"@, "FAILED_ACCESS"@], 0),
        ace_flags_names().len() == 8,
{
    lemma_windows_flags_are_their_bits();
    lemma_bits();
}

proof fn lemma_descriptor_parts_are_their_bits()
    ensures
        find(sec_info_names(), "OWNER"@) == Some(0x1u32),
        find(sec_info_names(), "GROUP"@) == Some(0x2u32),
        find(sec_info_names(), "DACL"@) == Some(0x4u32),
        find(sec_info_names(), "SACL"@) == Some(0x8u32),
        find(sec_info_names(), "ALL"@) == Some(0xfu32),
        sec_info_names().len() == 5,
{
    reveal_strlit("OWNER");
    reveal_strlit("GROUP");
    reveal_strlit("DACL");
    reveal_strlit("SACL");
    reveal_strlit("ALL");
    assert("OWNER"@.len() == 5 && "OWNER"@[0] == 'O');
    assert("GROUP"@.len() == 5 && "GROUP"@[0] == 'G');
    assert("DACL"@.len() == 4 && "DACL"@[0] == 'D');
    assert("SACL"@.len() == 4 && "SACL"@[0] == 'S');
    assert("ALL"@.len() == 3);
    let table = sec_info_names();
    assert(table[0] == ("OWNER"@, 0x1u32));
    assert(table[1] == ("GROUP"@, 0x2u32));
    assert(table[2] == ("DACL"@, 0x4u32));
    assert(table[3] == ("SACL"@, 0x8u32));
    assert(table[4] == ("ALL"@, 0xfu32));
    lemma_found(table, 0);
    lemma_found(table, 1);
    lemma_found(table, 2);
    lemma_found(table, 3);
    lemma_found(table, 4);
}

/// The parts of a descriptor, in the order of their bits, and all of them.
pub proof fn descriptor_parts_are_their_bits()
    ensures
        in_a_row(sec_info_names(), seq!["OWNER"@, "GROUP"@, "DACL"@, "SACL"@], 0),
        find(sec_info_names(), "ALL"@) == Some(((pow2(4) - 1) as u32)),
        sec_info_names().len() == 5,
{
    lemma_descriptor_parts_are_their_bits();
    lemma_bits();
}

proof fn lemma_descriptor_controls_are_their_bits()
    ensures
        find(sec_desc_control_names(), "OWNER_DEFAULTED"@) == Some(0x1u32),
        find(sec_desc_control_names(), "GROUP_DEFAULTED"@) == Some(0x2u32),
        find(sec_desc_control_names(), "DACL_PRESENT"@) == Some(0x4u32),
        find(sec_desc_control_names(), "DACL_DEFAULTED"@) == Some(0x8u32),
        find(sec_desc_control_names(), "SACL_PRESENT"@) == Some(0x10u32),
        find(sec_desc_control_names(), "SACL_DEFAULTED"@) == Some(0x20u32),
        find(sec_desc_control_names(), "DACL_AUTO_INHERIT_REQUIRED"@) == Some(0x100u32),
        find(sec_desc_control_names(), "SACL_AUTO_INHERIT_REQUIRED"@) == Some(0x200u32),
        find(sec_desc_control_names(), "DACL_AUTO_INHERITED"@) == Some(0x400u32),
        find(sec_desc_control_names(), "SACL_AUTO_INHERITED"@) == Some(0x800u32),
        find(sec_desc_control_names(), "DACL_PROTECTED"@) == Some(0x1000u32),
        find(sec_desc_control_names(), "SACL_PROTECTED"@) == Some(0x2000u32),
        find(sec_desc_control_names(), "RM_CONTROL_VALID"@) == Some(0x4000u32),
        find(sec_desc_control_names(), "SELF_RELATIVE"@) == Some(0x8000u32),
        sec_desc_control_names().len() == 14,
{
    reveal_strlit("OWNER_DEFAULTED");
    reveal_strlit("GROUP_DEFAULTED");
    reveal_strlit("DACL_PRESENT");
    reveal_strlit("DACL_DEFAULTED");
    reveal_strlit("SACL_PRESENT");
    reveal_strlit("SACL_DEFAULTED");
    reveal_strlit("DACL_AUTO_INHERIT_REQUIRED");
    reveal_strlit("SACL_AUTO_INHERIT_REQUIRED");
    reveal_strlit("DACL_AUTO_INHERITED");
    reveal_strlit("SACL_AUTO_INHERITED");
    reveal_strlit("DACL_PROTECTED");
    reveal_strlit("SACL_PROTECTED");
    reveal_strlit("RM_CONTROL_VALID");
    reveal_strlit("SELF_RELATIVE");
    assert("OWNER_DEFAULTED"@.len() == 15 && "OWNER_DEFAULTED"@[0] == 'O');
    assert("GROUP_DEFAULTED"@.len() == 15 && "GROUP_DEFAULTED"@[0] == 'G');
    assert("DACL_PRESENT"@.len() == 12 && "DACL_PRESENT"@[0] == 'D');
    assert("DACL_DEFAULTED"@.len() == 14 && "DACL_DEFAULTED"@[0] == 'D'
        && "DACL_DEFAULTED"@[5] == 'D');
    assert("SACL_PRESENT"@.len() == 12 && "SACL_PRESENT"@[0] == 'S');
    assert("SACL_DEFAULTED"@.len() == 14 && "SACL_DEFAULTED"@[0] == 'S'
        && "SACL_DEFAULTED"@[5] == 'D');
    assert("DACL_AUTO_INHERIT_REQUIRED"@.len() == 26 && "DACL_AUTO_INHERIT_REQUIRED"@[0] == 'D');
    assert("SACL_AUTO_INHERIT_REQUIRED"@.len() == 26 && "SACL_AUTO_INHERIT_REQUIRED"@[0] == 'S');
    assert("DACL_AUTO_INHERITED"@.len() == 19 && "DACL_AUTO_INHERITED"@[0] == 'D');
    assert("SACL_AUTO_INHERITED"@.len() == 19 && "SACL_AUTO_INHERITED"@[0] == 'S');
    assert("DACL_PROTECTED"@.len() == 14 && "DACL_PROTECTED"@[0] == 'D'
        && "DACL_PROTECTED"@[5] == 'P');
    assert("SACL_PROTECTED"@.len() == 14 && "SACL_PROTECTED"@[0] == 'S'
        && "SACL_PROTECTED"@[5] == 'P');
    assert("RM_CONTROL_VALID"@.len() == 16);
    assert("SELF_RELATIVE"@.len() == 13);
    let table = sec_desc_control_names();
    assert(table[0] == ("OWNER_DEFAULTED"@, 0x1u32));
    assert(table[1] == ("GROUP_DEFAULTED"@, 0x2u32));
    assert(table[2] == ("DACL_PRESENT"@, 0x4u32));
    assert(table[3] == ("DACL_DEFAULTED"@, 0x8u32));
    assert(table[4] == ("SACL_PRESENT"@, 0x10u32));
    assert(table[5] == ("SACL_DEFAULTED"@, 0x20u32));
    assert(table[6] == ("DACL_AUTO_INHERIT_REQUIRED"@, 0x100u32));
    assert(table[7] == ("SACL_AUTO_INHERIT_REQUIRED"@, 0x200u32));
    assert(table[8] == ("DACL_AUTO_INHERITED"@, 0x400u32));
    assert(table[9] == ("SACL_AUTO_INHERITED"@, 0x800u32));
    assert(table[10] == ("DACL_PROTECTED"@, 0x1000u32));
    assert(table[11] == ("SACL_PROTECTED"@, 0x2000u32));
    assert(table[12] == ("RM_CONTROL_VALID"@, 0x4000u32));
    assert(table[13] == ("SELF_RELATIVE"@, 0x8000u32));
    lemma_found(table, 0);
    lemma_found(table, 1);
    lemma_found(table, 2);
    lemma_found(table, 3);
    lemma_found(table, 4);
    lemma_found(table, 5);
    lemma_found(table, 6);
    lemma_found(table, 7);
    lemma_found(table, 8);
    lemma_found(table, 9);
    lemma_found(table, 10);
    lemma_found(table, 11);
    lemma_found(table, 12);
    lemma_found(table, 13);
}

/// What a descriptor says of its parts, in the order of the bits.
pub proof fn descriptor_controls_are_their_bits()
    ensures
        in_a_row(sec_desc_control_names(), seq!["OWNER_DEFAULTED"@, "GROUP_DEFAULTED"@,
            "DACL_PRESENT"@, "DACL_DEFAULTED"@, "SACL_PRESENT"@, "SACL_DEFAULTED"@], 0),
        in_a_row(sec_desc_control_names(), seq!["DACL_AUTO_INHERIT_REQUIRED"@,
            "SACL_AUTO_INHERIT_REQUIRED"@, "DACL_AUTO_INHERITED"@, "SACL_AUTO_INHERITED"@,
            "DACL_PROTECTED"@, "SACL_PROTECTED"@, "RM_CONTROL_VALID"@, "SELF_RELATIVE"@], 8),
        sec_desc_control_names().len() == 14,
{
    lemma_descriptor_controls_are_their_bits();
    lemma_bits();
}

proof fn lemma_group_attributes_are_their_bits()
    ensures
        find(token_group_attributes_names(), "MANDATORY"@) == Some(0x1u32),
        find(token_group_attributes_names(), "ENABLED_BY_DEFAULT"@) == Some(0x2u32),
        find(token_group_attributes_names(), "ENABLED"@) == Some(0x4u32),
        find(token_group_attributes_names(), "OWNER"@) == Some(0x8u32),
        find(token_group_attributes_names(), "USE_FOR_DENY_ONLY"@) == Some(0x10u32),
        find(token_group_attributes_names(), "INTEGRITY"@) == Some(0x20u32),
        find(token_group_attributes_names(), "INTEGRITY_ENABLED"@) == Some(0x40u32),
        find(token_group_attributes_names(), "RESOURCE"@) == Some(0x20000000u32),
        find(token_group_attributes_names(), "LOGON_ID"@) == Some(0xc0000000u32),
        token_group_attributes_names().len() == 9,
{
    reveal_strlit("MANDATORY");
    reveal_strlit("ENABLED_BY_DEFAULT");
    reveal_strlit("ENABLED");
    reveal_strlit("OWNER");
    reveal_strlit("USE_FOR_DENY_ONLY");
    reveal_strlit("INTEGRITY");
    reveal_strlit("INTEGRITY_ENABLED");
    reveal_strlit("RESOURCE");
    reveal_strlit("LOGON_ID");
    assert("MANDATORY"@.len() == 9 && "MANDATORY"@[0] == 'M');
    assert("ENABLED_BY_DEFAULT"@.len() == 18);
    assert("ENABLED"@.len() == 7);
    assert("OWNER"@.len() == 5);
    assert("USE_FOR_DENY_ONLY"@.len() == 17 && "USE_FOR_DENY_ONLY"@[0] == 'U');
    assert("INTEGRITY"@.len() == 9 && "INTEGRITY"@[0] == 'I');
    assert("INTEGRITY_ENABLED"@.len() == 17 && "INTEGRITY_ENABLED"@[0] == 'I');
    assert("RESOURCE"@.len() == 8 && "RESOURCE"@[0] == 'R');
    assert("LOGON_ID"@.len() == 8 && "LOGON_ID"@[0] == 'L');
    let table = token_group_attributes_names();
    assert(table[0] == ("MANDATORY"@, 0x1u32));
    assert(table[1] == ("ENABLED_BY_DEFAULT"@, 0x2u32));
    assert(table[2] == ("ENABLED"@, 0x4u32));
    assert(table[3] == ("OWNER"@, 0x8u32));
    assert(table[4] == ("USE_FOR_DENY_ONLY"@, 0x10u32));
    assert(table[5] == ("INTEGRITY"@, 0x20u32));
    assert(table[6] == ("INTEGRITY_ENABLED"@, 0x40u32));
    assert(table[7] == ("RESOURCE"@, 0x20000000u32));
    assert(table[8] == ("LOGON_ID"@, 0xc0000000u32));
    lemma_found(table, 0);
    lemma_found(table, 1);
    lemma_found(table, 2);
    lemma_found(table, 3);
    lemma_found(table, 4);
    lemma_found(table, 5);
    lemma_found(table, 6);
    lemma_found(table, 7);
    lemma_found(table, 8);
}

/// The attributes of a group in an access token, in the order of their bits; the
/// two highest together mark the one that a logon has.
pub proof fn group_attributes_are_their_bits()
    ensures
        in_a_row(token_group_attributes_names(), seq!["MANDATORY"@, "ENABLED_BY_DEFAULT"@,
            "ENABLED"@, "OWNER"@, "USE_FOR_DENY_ONLY"@, "INTEGRITY"@, "INTEGRITY_ENABLED"@], 0),
        in_a_row(token_group_attributes_names(), seq!["RESOURCE"@], 29),
        find(token_group_attributes_names(), "LOGON_ID"@) == Some(((pow2(30) + pow2(31)) as u32)),
        token_group_attributes_names().len() == 9,
{
    lemma_group_attributes_are_their_bits();
    lemma_bits();
}

/// Whether names stand for numbers under an authority, behind those that they
/// have in common.
pub open spec fn numbered(
    names: Seq<Seq<char>>,
    authority: u64,
    common: Seq<u32>,
    numbers: Seq<u32>,
) -> bool {
    &&& names.len() == numbers.len()
    &&& forall|i: int|
        0 <= i < names.len() ==> well_known_sid(#[trigger] names[i]) == Some(
            SidView { authority, sub_authorities: common.push(numbers[i]) },
        )
}

/// The identifiers that every Windows installation has, by their authorities:
/// nobody and everybody, who is at the machine, who creates, who logs on and
/// how, the groups that come with the system, the packages, and the labels of
/// integrity.
#[verifier::rlimit(60)]
pub proof fn identifiers_have_their_numbers()
    ensures
        numbered(
            seq!["NULL"@],
            0,
            seq![],
            seq![0],
        ),
        numbered(
            seq!["EVERYONE"@],
            1,
            seq![],
            seq![0],
        ),
        numbered(
            seq!["LOCAL"@, "CONSOLE_LOGON"@],
            2,
            seq![],
            seq![0, 1],
        ),
        numbered(
            seq!["CREATOR_OWNER"@, "CREATOR_GROUP"@, "OWNER_RIGHTS"@],
            3,
            seq![],
            seq![0, 1, 4],
        ),
        numbered(
            seq!["DIALUP"@, "NETWORK"@, "BATCH"@, "INTERACTIVE"@, "SERVICE"@, "ANONYMOUS"@,
                "PRINCIPAL_SELF"@, "AUTHENTICATED_USERS"@, "RESTRICTED_CODE"@,
                "REMOTE_INTERACTIVE_LOGON"@, "THIS_ORGANIZATION"@, "LOCAL_SYSTEM"@,
                "LOCAL_SERVICE"@, "NETWORK_SERVICE"@, "LOCAL_ACCOUNT"@,
                "LOCAL_ACCOUNT_ADMINISTRATOR"@],
            5,
            seq![],
            seq![1, 2, 3, 4, 6, 7, 10, 11, 12, 14, 15, 18, 19, 20, 113, 114],
        ),
        numbered(
            seq!["BUILTIN_ADMINISTRATORS"@, "BUILTIN_USERS"@, "BUILTIN_GUESTS"@,
                "BUILTIN_POWER_USERS"@, "BUILTIN_BACKUP_OPERATORS"@,
                "BUILTIN_REMOTE_DESKTOP_USERS"@, "BUILTIN_REMOTE_MANAGEMENT_USERS"@],
            5,
            seq![32],
            seq![544, 545, 546, 547, 551, 555, 580],
        ),
        numbered(
            seq!["ALL_APPLICATION_PACKAGES"@, "ALL_RESTRICTED_APPLICATION_PACKAGES"@],
            15,
            seq![2],
            seq![1, 2],
        ),
        numbered(
            seq!["UNTRUSTED_LABEL"@, "LOW_LABEL"@, "MEDIUM_LABEL"@, "MEDIUM_PLUS_LABEL"@,
                "HIGH_LABEL"@, "SYSTEM_LABEL"@],
            16,
            seq![],
            seq![0x0, 0x1000, 0x2000, 0x2100, 0x3000, 0x4000],
        ),
        well_known().len() == 38,
{
    reveal_strlit("NULL");
    reveal_strlit("EVERYONE");
    reveal_strlit("LOCAL");
    reveal_strlit("CONSOLE_LOGON");
    reveal_strlit("CREATOR_OWNER");
    reveal_strlit("CREATOR_GROUP");
    reveal_strlit("OWNER_RIGHTS");
    reveal_strlit("DIALUP");
    reveal_strlit("NETWORK");
    reveal_strlit("BATCH");
    reveal_strlit("INTERACTIVE");
    reveal_strlit("SERVICE");
    reveal_strlit("ANONYMOUS");
    reveal_strlit("PRINCIPAL_SELF");
    reveal_strlit("AUTHENTICATED_USERS");
    reveal_strlit("RESTRICTED_CODE");
    reveal_strlit("REMOTE_INTERACTIVE_LOGON");
    reveal_strlit("THIS_ORGANIZATION");
    reveal_strlit("LOCAL_SYSTEM");
    reveal_strlit("LOCAL_SERVICE");
    reveal_strlit("NETWORK_SERVICE");
    reveal_strlit("LOCAL_ACCOUNT");
    reveal_strlit("LOCAL_ACCOUNT_ADMINISTRATOR");
    reveal_strlit("BUILTIN_ADMINISTRATORS");
    reveal_strlit("BUILTIN_USERS");
    reveal_strlit("BUILTIN_GUESTS");
    reveal_strlit("BUILTIN_POWER_USERS");
    reveal_strlit("BUILTIN_BACKUP_OPERATORS");
    reveal_strlit("BUILTIN_REMOTE_DESKTOP_USERS");
    reveal_strlit("BUILTIN_REMOTE_MANAGEMENT_USERS");
    reveal_strlit("ALL_APPLICATION_PACKAGES");
    reveal_strlit("ALL_RESTRICTED_APPLICATION_PACKAGES");
    reveal_strlit("UNTRUSTED_LABEL");
    reveal_strlit("LOW_LABEL");
    reveal_strlit("MEDIUM_LABEL");
    reveal_strlit("MEDIUM_PLUS_LABEL");
    reveal_strlit("HIGH_LABEL");
    reveal_strlit("SYSTEM_LABEL");
    assert("NULL"@.len() == 4);
    assert("EVERYONE"@.len() == 8);
    assert("LOCAL"@.len() == 5 && "LOCAL"@[0] == 'L');
    assert("CONSOLE_LOGON"@.len() == 13 && "CONSOLE_LOGON"@[0] == 'C'
        && "CONSOLE_LOGON"@[1] == 'O');
    assert("CREATOR_OWNER"@.len() == 13 && "CREATOR_OWNER"@[0] == 'C'
        && "CREATOR_OWNER"@[1] == 'R' && "CREATOR_OWNER"@[8] == 'O');
    assert("CREATOR_GROUP"@.len() == 13 && "CREATOR_GROUP"@[0] == 'C'
        && "CREATOR_GROUP"@[1] == 'R' && "CREATOR_GROUP"@[8] == 'G');
    assert("OWNER_RIGHTS"@.len() == 12 && "OWNER_RIGHTS"@[0] == 'O');
    assert("DIALUP"@.len() == 6);
    assert("NETWORK"@.len() == 7 && "NETWORK"@[0] == 'N');
    assert("BATCH"@.len() == 5 && "BATCH"@[0] == 'B');
    assert("INTERACTIVE"@.len() == 11);
    assert("SERVICE"@.len() == 7 && "SERVICE"@[0] == 'S');
    assert("ANONYMOUS"@.len() == 9 && "ANONYMOUS"@[0] == 'A');
    assert("PRINCIPAL_SELF"@.len() == 14 && "PRINCIPAL_SELF"@[0] == 'P');
    assert("AUTHENTICATED_USERS"@.len() == 19 && "AUTHENTICATED_USERS"@[0] == 'A');
    assert("RESTRICTED_CODE"@.len() == 15 && "RESTRICTED_CODE"@[0] == 'R');
    assert("REMOTE_INTERACTIVE_LOGON"@.len() == 24 && "REMOTE_INTERACTIVE_LOGON"@[0] == 'R');
    assert("THIS_ORGANIZATION"@.len() == 17 && "THIS_ORGANIZATION"@[0] == 'T');
    assert("LOCAL_SYSTEM"@.len() == 12 && "LOCAL_SYSTEM"@[0] == 'L');
    assert("LOCAL_SERVICE"@.len() == 13 && "LOCAL_SERVICE"@[0] == 'L'
        && "LOCAL_SERVICE"@[6] == 'S');
    assert("NETWORK_SERVICE"@.len() == 15 && "NETWORK_SERVICE"@[0] == 'N');
    assert("LOCAL_ACCOUNT"@.len() == 13 && "LOCAL_ACCOUNT"@[0] == 'L'
        && "LOCAL_ACCOUNT"@[6] == 'A');
    assert("LOCAL_ACCOUNT_ADMINISTRATOR"@.len() == 27);
    assert("BUILTIN_ADMINISTRATORS"@.len() == 22);
    assert("BUILTIN_USERS"@.len() == 13 && "BUILTIN_USERS"@[0] == 'B');
    assert("BUILTIN_GUESTS"@.len() == 14 && "BUILTIN_GUESTS"@[0] == 'B');
    assert("BUILTIN_POWER_USERS"@.len() == 19 && "BUILTIN_POWER_USERS"@[0] == 'B');
    assert("BUILTIN_BACKUP_OPERATORS"@.len() == 24 && "BUILTIN_BACKUP_OPERATORS"@[0] == 'B');
    assert("BUILTIN_REMOTE_DESKTOP_USERS"@.len() == 28);
    assert("BUILTIN_REMOTE_MANAGEMENT_USERS"@.len() == 31);
    assert("ALL_APPLICATION_PACKAGES"@.len() == 24 && "ALL_APPLICATION_PACKAGES"@[0] == 'A');
    assert("ALL_RESTRICTED_APPLICATION_PACKAGES"@.len() == 35);
    assert("UNTRUSTED_LABEL"@.len() == 15 && "UNTRUSTED_LABEL"@[0] == 'U');
    assert("LOW_LABEL"@.len() == 9 && "LOW_LABEL"@[0] == 'L');
    assert("MEDIUM_LABEL"@.len() == 12 && "MEDIUM_LABEL"@[0] == 'M');
    assert("MEDIUM_PLUS_LABEL"@.len() == 17 && "MEDIUM_PLUS_LABEL"@[0] == 'M');
    assert("HIGH_LABEL"@.len() == 10);
    assert("SYSTEM_LABEL"@.len() == 12 && "SYSTEM_LABEL"@[0] == 'S');
    let table = well_known();
    assert(table[0].0 == "NULL"@ && table[0].1 == 0 && table[0].2 =~= seq![0u32]);
    assert(table[1].0 == "EVERYONE"@ && table[1].1 == 1 && table[1].2 =~= seq![0u32]);
    assert(table[2].0 == "LOCAL"@ && table[2].1 == 2 && table[2].2 =~= seq![0u32]);
    assert(table[3].0 == "CONSOLE_LOGON"@ && table[3].1 == 2 && table[3].2 =~= seq![1u32]);
    assert(table[4].0 == "CREATOR_OWNER"@ && table[4].1 == 3 && table[4].2 =~= seq![0u32]);
    assert(table[5].0 == "CREATOR_GROUP"@ && table[5].1 == 3 && table[5].2 =~= seq![1u32]);
    assert(table[6].0 == "OWNER_RIGHTS"@ && table[6].1 == 3 && table[6].2 =~= seq![4u32]);
    assert(table[7].0 == "DIALUP"@ && table[7].1 == 5 && table[7].2 =~= seq![1u32]);
    assert(table[8].0 == "NETWORK"@ && table[8].1 == 5 && table[8].2 =~= seq![2u32]);
    assert(table[9].0 == "BATCH"@ && table[9].1 == 5 && table[9].2 =~= seq![3u32]);
    assert(table[10].0 == "INTERACTIVE"@ && table[10].1 == 5 && table[10].2 =~= seq![4u32]);
    assert(table[11].0 == "SERVICE"@ && table[11].1 == 5 && table[11].2 =~= seq![6u32]);
    assert(table[12].0 == "ANONYMOUS"@ && table[12].1 == 5 && table[12].2 =~= seq![7u32]);
    assert(table[13].0 == "PRINCIPAL_SELF"@ && table[13].1 == 5 && table[13].2 =~= seq![10u32]);
    assert(table[14].0 == "AUTHENTICATED_USERS"@ && table[14].1 == 5
        && table[14].2 =~= seq![11u32]);
    assert(table[15].0 == "RESTRICTED_CODE"@ && table[15].1 == 5 && table[15].2 =~= seq![12u32]);
    assert(table[16].0 == "REMOTE_INTERACTIVE_LOGON"@ && table[16].1 == 5
        && table[16].2 =~= seq![14u32]);
    assert(table[17].0 == "THIS_ORGANIZATION"@ && table[17].1 == 5 && table[17].2 =~= seq![15u32]);
    assert(table[18].0 == "LOCAL_SYSTEM"@ && table[18].1 == 5 && table[18].2 =~= seq![18u32]);
    assert(table[19].0 == "LOCAL_SERVICE"@ && table[19].1 == 5 && table[19].2 =~= seq![19u32]);
    assert(table[20].0 == "NETWORK_SERVICE"@ && table[20].1 == 5 && table[20].2 =~= seq![20u32]);
    assert(table[21].0 == "LOCAL_ACCOUNT"@ && table[21].1 == 5 && table[21].2 =~= seq![113u32]);
    assert(table[22].0 == "LOCAL_ACCOUNT_ADMINISTRATOR"@ && table[22].1 == 5
        && table[22].2 =~= seq![114u32]);
    assert(table[23].0 == "BUILTIN_ADMINISTRATORS"@ && table[23].1 == 5
        && table[23].2 =~= seq![32u32, 544u32]);
    assert(table[24].0 == "BUILTIN_USERS"@ && table[24].1 == 5
        && table[24].2 =~= seq![32u32, 545u32]);
    assert(table[25].0 == "BUILTIN_GUESTS"@ && table[25].1 == 5
        && table[25].2 =~= seq![32u32, 546u32]);
    assert(table[26].0 == "BUILTIN_POWER_USERS"@ && table[26].1 == 5
        && table[26].2 =~= seq![32u32, 547u32]);
    assert(table[27].0 == "BUILTIN_BACKUP_OPERATORS"@ && table[27].1 == 5
        && table[27].2 =~= seq![32u32, 551u32]);
    assert(table[28].0 == "BUILTIN_REMOTE_DESKTOP_USERS"@ && table[28].1 == 5
        && table[28].2 =~= seq![32u32, 555u32]);
    assert(table[29].0 == "BUILTIN_REMOTE_MANAGEMENT_USERS"@ && table[29].1 == 5
        && table[29].2 =~= seq![32u32, 580u32]);
    assert(table[30].0 == "ALL_APPLICATION_PACKAGES"@ && table[30].1 == 15
        && table[30].2 =~= seq![2u32, 1u32]);
    assert(table[31].0 == "ALL_RESTRICTED_APPLICATION_PACKAGES"@ && table[31].1 == 15
        && table[31].2 =~= seq![2u32, 2u32]);
    assert(table[32].0 == "UNTRUSTED_LABEL"@ && table[32].1 == 16 && table[32].2 =~= seq![0u32]);
    assert(table[33].0 == "LOW_LABEL"@ && table[33].1 == 16 && table[33].2 =~= seq![4096u32]);
    assert(table[34].0 == "MEDIUM_LABEL"@ && table[34].1 == 16 && table[34].2 =~= seq![8192u32]);
    assert(table[35].0 == "MEDIUM_PLUS_LABEL"@ && table[35].1 == 16
        && table[35].2 =~= seq![8448u32]);
    assert(table[36].0 == "HIGH_LABEL"@ && table[36].1 == 16 && table[36].2 =~= seq![12288u32]);
    assert(table[37].0 == "SYSTEM_LABEL"@ && table[37].1 == 16 && table[37].2 =~= seq![16384u32]);
    lemma_named(table, 0);
    lemma_named(table, 1);
    lemma_named(table, 2);
    lemma_named(table, 3);
    lemma_named(table, 4);
    lemma_named(table, 5);
    lemma_named(table, 6);
    lemma_named(table, 7);
    lemma_named(table, 8);
    lemma_named(table, 9);
    lemma_named(table, 10);
    lemma_named(table, 11);
    lemma_named(table, 12);
    lemma_named(table, 13);
    lemma_named(table, 14);
    lemma_named(table, 15);
    lemma_named(table, 16);
    lemma_named(table, 17);
    lemma_named(table, 18);
    lemma_named(table, 19);
    lemma_named(table, 20);
    lemma_named(table, 21);
    lemma_named(table, 22);
    lemma_named(table, 23);
    lemma_named(table, 24);
    lemma_named(table, 25);
    lemma_named(table, 26);
    lemma_named(table, 27);
    lemma_named(table, 28);
    lemma_named(table, 29);
    lemma_named(table, 30);
    lemma_named(table, 31);
    lemma_named(table, 32);
    lemma_named(table, 33);
    lemma_named(table, 34);
    lemma_named(table, 35);
    lemma_named(table, 36);
    lemma_named(table, 37);
    assert(table[0].2 =~= Seq::<u32>::empty().push(0u32));
    assert(table[1].2 =~= Seq::<u32>::empty().push(0u32));
    assert(table[2].2 =~= Seq::<u32>::empty().push(0u32));
    assert(table[3].2 =~= Seq::<u32>::empty().push(1u32));
    assert(table[4].2 =~= Seq::<u32>::empty().push(0u32));
    assert(table[5].2 =~= Seq::<u32>::empty().push(1u32));
    assert(table[6].2 =~= Seq::<u32>::empty().push(4u32));
    assert(table[7].2 =~= Seq::<u32>::empty().push(1u32));
    assert(table[8].2 =~= Seq::<u32>::empty().push(2u32));
    assert(table[9].2 =~= Seq::<u32>::empty().push(3u32));
    assert(table[10].2 =~= Seq::<u32>::empty().push(4u32));
    assert(table[11].2 =~= Seq::<u32>::empty().push(6u32));
    assert(table[12].2 =~= Seq::<u32>::empty().push(7u32));
    assert(table[13].2 =~= Seq::<u32>::empty().push(10u32));
    assert(table[14].2 =~= Seq::<u32>::empty().push(11u32));
    assert(table[15].2 =~= Seq::<u32>::empty().push(12u32));
    assert(table[16].2 =~= Seq::<u32>::empty().push(14u32));
    assert(table[17].2 =~= Seq::<u32>::empty().push(15u32));
    assert(table[18].2 =~= Seq::<u32>::empty().push(18u32));
    assert(table[19].2 =~= Seq::<u32>::empty().push(19u32));
    assert(table[20].2 =~= Seq::<u32>::empty().push(20u32));
    assert(table[21].2 =~= Seq::<u32>::empty().push(113u32));
    assert(table[22].2 =~= Seq::<u32>::empty().push(114u32));
    assert(table[23].2 =~= seq![32u32].push(544u32));
    assert(table[24].2 =~= seq![32u32].push(545u32));
    assert(table[25].2 =~= seq![32u32].push(546u32));
    assert(table[26].2 =~= seq![32u32].push(547u32));
    assert(table[27].2 =~= seq![32u32].push(551u32));
    assert(table[28].2 =~= seq![32u32].push(555u32));
    assert(table[29].2 =~= seq![32u32].push(580u32));
    assert(table[30].2 =~= seq![2u32].push(1u32));
    assert(table[31].2 =~= seq![2u32].push(2u32));
    assert(table[32].2 =~= Seq::<u32>::empty().push(0u32));
    assert(table[33].2 =~= Seq::<u32>::empty().push(4096u32));
    assert(table[34].2 =~= Seq::<u32>::empty().push(8192u32));
    assert(table[35].2 =~= Seq::<u32>::empty().push(8448u32));
    assert(table[36].2 =~= Seq::<u32>::empty().push(12288u32));
    assert(table[37].2 =~= Seq::<u32>::empty().push(16384u32));
}

} // verus!

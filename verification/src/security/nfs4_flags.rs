//! The permission bits of NFS access control.

use std::ops::{BitAnd, BitOr, BitXor, Not};
use vstd::prelude::*;
use vstd::std_specs::ops::{BitAndSpecImpl, BitOrSpecImpl, BitXorSpecImpl, NotSpecImpl};
use crate::security::flags::{find, find_bit, lists, ones, rank_of};

verus! {

broadcast use vstd::string::group_string_axioms;

/// What an entry allows or denies.
#[derive(Clone, Copy, Debug, PartialEq, Eq, Structural)]
pub struct Nfs4AceMask(pub u32);

/// The names of the bits of [`Nfs4AceMask`].
pub open spec fn nfs4_ace_mask_names() -> Seq<(Seq<char>, u32)> {
    seq![
        ("READ_DATA"@, 0x1),
        ("WRITE_DATA"@, 0x2),
        ("APPEND_DATA"@, 0x4),
        ("READ_NAMED_ATTRS"@, 0x8),
        ("WRITE_NAMED_ATTRS"@, 0x10),
        ("EXECUTE"@, 0x20),
        ("DELETE_CHILD"@, 0x40),
        ("READ_ATTRIBUTES"@, 0x80),
        ("WRITE_ATTRIBUTES"@, 0x100),
        ("DELETE"@, 0x10000),
        ("READ_ACL"@, 0x20000),
        ("WRITE_ACL"@, 0x40000),
        ("WRITE_OWNER"@, 0x80000),
        ("SYNCHRONIZE"@, 0x100000),
    ]
}

impl Nfs4AceMask {
    /// All bits that have a name.
    pub const KNOWN: u32 = 0x001f_01ff;

    /// The names of the bits.
    pub fn names() -> (v: Vec<(&'static str, u32)>)
        ensures
            lists(v@, nfs4_ace_mask_names()),
    {
        vec![
            ("READ_DATA", 0x1),
            ("WRITE_DATA", 0x2),
            ("APPEND_DATA", 0x4),
            ("READ_NAMED_ATTRS", 0x8),
            ("WRITE_NAMED_ATTRS", 0x10),
            ("EXECUTE", 0x20),
            ("DELETE_CHILD", 0x40),
            ("READ_ATTRIBUTES", 0x80),
            ("WRITE_ATTRIBUTES", 0x100),
            ("DELETE", 0x10000),
            ("READ_ACL", 0x20000),
            ("WRITE_ACL", 0x40000),
            ("WRITE_OWNER", 0x80000),
            ("SYNCHRONIZE", 0x100000),
        ]
    }

    /// No bits.
    pub fn empty() -> (r: Nfs4AceMask)
        ensures
            r.0 == 0,
    {
        Nfs4AceMask(0)
    }

    /// The bits that go by a name.
    pub fn named(name: &str) -> (r: Option<Nfs4AceMask>)
        ensures
            r == match find(nfs4_ace_mask_names(), name@) {
                Some(bits) => Some(Nfs4AceMask(bits)),
                None => None,
            },
    {
        match find_bit(&Nfs4AceMask::names(), name, Ghost(nfs4_ace_mask_names())) {
            Some(bits) => Some(Nfs4AceMask(bits)),
            None => None,
        }
    }

    /// Whether all of the bits are set.
    pub fn contains(self, bits: Nfs4AceMask) -> (r: bool)
        ensures
            r == (self.0 & bits.0 == bits.0),
    {
        self.0 & bits.0 == bits.0
    }

    /// How many bits are set.
    pub fn rank(self) -> (n: usize)
        ensures
            n == ones(self.0 as nat),
    {
        rank_of(self.0)
    }
}

impl BitOr for Nfs4AceMask {
    type Output = Nfs4AceMask;

    fn bitor(self, rhs: Nfs4AceMask) -> Nfs4AceMask {
        Nfs4AceMask(self.0 | rhs.0)
    }
}

impl BitOrSpecImpl for Nfs4AceMask {
    open spec fn obeys_bitor_spec() -> bool {
        true
    }

    open spec fn bitor_req(self, rhs: Nfs4AceMask) -> bool {
        true
    }

    open spec fn bitor_spec(self, rhs: Nfs4AceMask) -> Nfs4AceMask {
        Nfs4AceMask(self.0 | rhs.0)
    }
}

impl BitAnd for Nfs4AceMask {
    type Output = Nfs4AceMask;

    fn bitand(self, rhs: Nfs4AceMask) -> Nfs4AceMask {
        Nfs4AceMask(self.0 & rhs.0)
    }
}

impl BitAndSpecImpl for Nfs4AceMask {
    open spec fn obeys_bitand_spec() -> bool {
        true
    }

    open spec fn bitand_req(self, rhs: Nfs4AceMask) -> bool {
        true
    }

    open spec fn bitand_spec(self, rhs: Nfs4AceMask) -> Nfs4AceMask {
        Nfs4AceMask(self.0 & rhs.0)
    }
}

impl BitXor for Nfs4AceMask {
    type Output = Nfs4AceMask;

    fn bitxor(self, rhs: Nfs4AceMask) -> Nfs4AceMask {
        Nfs4AceMask(self.0 ^ rhs.0)
    }
}

impl BitXorSpecImpl for Nfs4AceMask {
    open spec fn obeys_bitxor_spec() -> bool {
        true
    }

    open spec fn bitxor_req(self, rhs: Nfs4AceMask) -> bool {
        true
    }

    open spec fn bitxor_spec(self, rhs: Nfs4AceMask) -> Nfs4AceMask {
        Nfs4AceMask(self.0 ^ rhs.0)
    }
}

impl Not for Nfs4AceMask {
    type Output = Nfs4AceMask;

    fn not(self) -> Nfs4AceMask {
        Nfs4AceMask(!self.0 & Nfs4AceMask::KNOWN)
    }
}

impl NotSpecImpl for Nfs4AceMask {
    open spec fn obeys_not_spec() -> bool {
        true
    }

    open spec fn not_req(self) -> bool {
        true
    }

    open spec fn not_spec(self) -> Nfs4AceMask {
        Nfs4AceMask(!self.0 & Nfs4AceMask::KNOWN)
    }
}

/// How an entry is inherited and audited.
#[derive(Clone, Copy, Debug, PartialEq, Eq, Structural)]
pub struct Nfs4AceFlags(pub u32);

/// The names of the bits of [`Nfs4AceFlags`].
pub open spec fn nfs4_ace_flags_names() -> Seq<(Seq<char>, u32)> {
    seq![
        ("FILE_INHERIT"@, 0x1),
        ("DIRECTORY_INHERIT"@, 0x2),
        ("NO_PROPAGATE_INHERIT"@, 0x4),
        ("INHERIT_ONLY"@, 0x8),
        ("SUCCESSFUL_ACCESS"@, 0x10),
        ("FAILED_ACCESS"@, 0x20),
        ("INHERITED"@, 0x80),
    ]
}

impl Nfs4AceFlags {
    /// All bits that have a name.
    pub const KNOWN: u32 = 0xbf;

    /// The names of the bits.
    pub fn names() -> (v: Vec<(&'static str, u32)>)
        ensures
            lists(v@, nfs4_ace_flags_names()),
    {
        vec![
            ("FILE_INHERIT", 0x1),
            ("DIRECTORY_INHERIT", 0x2),
            ("NO_PROPAGATE_INHERIT", 0x4),
            ("INHERIT_ONLY", 0x8),
            ("SUCCESSFUL_ACCESS", 0x10),
            ("FAILED_ACCESS", 0x20),
            ("INHERITED", 0x80),
        ]
    }

    /// No bits.
    pub fn empty() -> (r: Nfs4AceFlags)
        ensures
            r.0 == 0,
    {
        Nfs4AceFlags(0)
    }

    /// The bits that go by a name.
    pub fn named(name: &str) -> (r: Option<Nfs4AceFlags>)
        ensures
            r == match find(nfs4_ace_flags_names(), name@) {
                Some(bits) => Some(Nfs4AceFlags(bits)),
                None => None,
            },
    {
        match find_bit(&Nfs4AceFlags::names(), name, Ghost(nfs4_ace_flags_names())) {
            Some(bits) => Some(Nfs4AceFlags(bits)),
            None => None,
        }
    }

    /// Whether all of the bits are set.
    pub fn contains(self, bits: Nfs4AceFlags) -> (r: bool)
        ensures
            r == (self.0 & bits.0 == bits.0),
    {
        self.0 & bits.0 == bits.0
    }

    /// How many bits are set.
    pub fn rank(self) -> (n: usize)
        ensures
            n == ones(self.0 as nat),
    {
        rank_of(self.0)
    }
}

impl BitOr for Nfs4AceFlags {
    type Output = Nfs4AceFlags;

    fn bitor(self, rhs: Nfs4AceFlags) -> Nfs4AceFlags {
        Nfs4AceFlags(self.0 | rhs.0)
    }
}

impl BitOrSpecImpl for Nfs4AceFlags {
    open spec fn obeys_bitor_spec() -> bool {
        true
    }

    open spec fn bitor_req(self, rhs: Nfs4AceFlags) -> bool {
        true
    }

    open spec fn bitor_spec(self, rhs: Nfs4AceFlags) -> Nfs4AceFlags {
        Nfs4AceFlags(self.0 | rhs.0)
    }
}

impl BitAnd for Nfs4AceFlags {
    type Output = Nfs4AceFlags;

    fn bitand(self, rhs: Nfs4AceFlags) -> Nfs4AceFlags {
        Nfs4AceFlags(self.0 & rhs.0)
    }
}

impl BitAndSpecImpl for Nfs4AceFlags {
    open spec fn obeys_bitand_spec() -> bool {
        true
    }

    open spec fn bitand_req(self, rhs: Nfs4AceFlags) -> bool {
        true
    }

    open spec fn bitand_spec(self, rhs: Nfs4AceFlags) -> Nfs4AceFlags {
        Nfs4AceFlags(self.0 & rhs.0)
    }
}

impl BitXor for Nfs4AceFlags {
    type Output = Nfs4AceFlags;

    fn bitxor(self, rhs: Nfs4AceFlags) -> Nfs4AceFlags {
        Nfs4AceFlags(self.0 ^ rhs.0)
    }
}

impl BitXorSpecImpl for Nfs4AceFlags {
    open spec fn obeys_bitxor_spec() -> bool {
        true
    }

    open spec fn bitxor_req(self, rhs: Nfs4AceFlags) -> bool {
        true
    }

    open spec fn bitxor_spec(self, rhs: Nfs4AceFlags) -> Nfs4AceFlags {
        Nfs4AceFlags(self.0 ^ rhs.0)
    }
}

impl Not for Nfs4AceFlags {
    type Output = Nfs4AceFlags;

    fn not(self) -> Nfs4AceFlags {
        Nfs4AceFlags(!self.0 & Nfs4AceFlags::KNOWN)
    }
}

impl NotSpecImpl for Nfs4AceFlags {
    open spec fn obeys_not_spec() -> bool {
        true
    }

    open spec fn not_req(self) -> bool {
        true
    }

    open spec fn not_spec(self) -> Nfs4AceFlags {
        Nfs4AceFlags(!self.0 & Nfs4AceFlags::KNOWN)
    }
}

} // verus!

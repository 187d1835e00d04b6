//! The permission bits of extended access control on macOS.

use std::ops::{BitAnd, BitOr, BitXor, Not};
use vstd::prelude::*;
use vstd::std_specs::ops::{BitAndSpecImpl, BitOrSpecImpl, BitXorSpecImpl, NotSpecImpl};
use crate::security::flags::{find, find_bit, lists, ones, rank_of};

verus! {

broadcast use vstd::string::group_string_axioms;

/// What an entry allows or denies.
#[derive(Clone, Copy, Debug, PartialEq, Eq, Structural)]
pub struct MacosAceMask(pub u32);

/// The names of the bits of [`MacosAceMask`].
pub open spec fn macos_ace_mask_names() -> Seq<(Seq<char>, u32)> {
    seq![
        ("READ_DATA"@, 0x2),
        ("WRITE_DATA"@, 0x4),
        ("EXECUTE"@, 0x8),
        ("DELETE"@, 0x10),
        ("APPEND_DATA"@, 0x20),
        ("DELETE_CHILD"@, 0x40),
        ("READ_ATTRIBUTES"@, 0x80),
        ("WRITE_ATTRIBUTES"@, 0x100),
        ("READ_EXTATTRIBUTES"@, 0x200),
        ("WRITE_EXTATTRIBUTES"@, 0x400),
        ("READ_SECURITY"@, 0x800),
        ("WRITE_SECURITY"@, 0x1000),
        ("CHANGE_OWNER"@, 0x2000),
        ("SYNCHRONIZE"@, 0x100000),
    ]
}

impl MacosAceMask {
    /// All bits that have a name.
    pub const KNOWN: u32 = 0x0010_3ffe;

    /// The names of the bits.
    pub fn names() -> (v: Vec<(&'static str, u32)>)
        ensures
            lists(v@, macos_ace_mask_names()),
    {
        vec![
            ("READ_DATA", 0x2),
            ("WRITE_DATA", 0x4),
            ("EXECUTE", 0x8),
            ("DELETE", 0x10),
            ("APPEND_DATA", 0x20),
            ("DELETE_CHILD", 0x40),
            ("READ_ATTRIBUTES", 0x80),
            ("WRITE_ATTRIBUTES", 0x100),
            ("READ_EXTATTRIBUTES", 0x200),
            ("WRITE_EXTATTRIBUTES", 0x400),
            ("READ_SECURITY", 0x800),
            ("WRITE_SECURITY", 0x1000),
            ("CHANGE_OWNER", 0x2000),
            ("SYNCHRONIZE", 0x100000),
        ]
    }

    /// No bits.
    pub fn empty() -> (r: MacosAceMask)
        ensures
            r.0 == 0,
    {
        MacosAceMask(0)
    }

    /// The bits that go by a name.
    pub fn named(name: &str) -> (r: Option<MacosAceMask>)
        ensures
            r == match find(macos_ace_mask_names(), name@) {
                Some(bits) => Some(MacosAceMask(bits)),
                None => None,
            },
    {
        match find_bit(&MacosAceMask::names(), name, Ghost(macos_ace_mask_names())) {
            Some(bits) => Some(MacosAceMask(bits)),
            None => None,
        }
    }

    /// Whether all of the bits are set.
    pub fn contains(self, bits: MacosAceMask) -> (r: bool)
        ensures
            r == (self.0 & bits.0 == bits.0),
    {
        self.0 & bits.0 == bits.0
    }

    /// How many bits are set.
    pub fn rank(self) -> (n: usize)
        ensures
            n == ones(self.0 as nat),
    {
        rank_of(self.0)
    }
}

impl BitOr for MacosAceMask {
    type Output = MacosAceMask;

    fn bitor(self, rhs: MacosAceMask) -> MacosAceMask {
        MacosAceMask(self.0 | rhs.0)
    }
}

impl BitOrSpecImpl for MacosAceMask {
    open spec fn obeys_bitor_spec() -> bool {
        true
    }

    open spec fn bitor_req(self, rhs: MacosAceMask) -> bool {
        true
    }

    open spec fn bitor_spec(self, rhs: MacosAceMask) -> MacosAceMask {
        MacosAceMask(self.0 | rhs.0)
    }
}

impl BitAnd for MacosAceMask {
    type Output = MacosAceMask;

    fn bitand(self, rhs: MacosAceMask) -> MacosAceMask {
        MacosAceMask(self.0 & rhs.0)
    }
}

impl BitAndSpecImpl for MacosAceMask {
    open spec fn obeys_bitand_spec() -> bool {
        true
    }

    open spec fn bitand_req(self, rhs: MacosAceMask) -> bool {
        true
    }

    open spec fn bitand_spec(self, rhs: MacosAceMask) -> MacosAceMask {
        MacosAceMask(self.0 & rhs.0)
    }
}

impl BitXor for MacosAceMask {
    type Output = MacosAceMask;

    fn bitxor(self, rhs: MacosAceMask) -> MacosAceMask {
        MacosAceMask(self.0 ^ rhs.0)
    }
}

impl BitXorSpecImpl for MacosAceMask {
    open spec fn obeys_bitxor_spec() -> bool {
        true
    }

    open spec fn bitxor_req(self, rhs: MacosAceMask) -> bool {
        true
    }

    open spec fn bitxor_spec(self, rhs: MacosAceMask) -> MacosAceMask {
        MacosAceMask(self.0 ^ rhs.0)
    }
}

impl Not for MacosAceMask {
    type Output = MacosAceMask;

    fn not(self) -> MacosAceMask {
        MacosAceMask(!self.0 & MacosAceMask::KNOWN)
    }
}

impl NotSpecImpl for MacosAceMask {
    open spec fn obeys_not_spec() -> bool {
        true
    }

    open spec fn not_req(self) -> bool {
        true
    }

    open spec fn not_spec(self) -> MacosAceMask {
        MacosAceMask(!self.0 & MacosAceMask::KNOWN)
    }
}

/// How an entry is inherited.
#[derive(Clone, Copy, Debug, PartialEq, Eq, Structural)]
pub struct MacosAceFlags(pub u32);

/// The names of the bits of [`MacosAceFlags`].
pub open spec fn macos_ace_flags_names() -> Seq<(Seq<char>, u32)> {
    seq![
        ("FILE_INHERIT"@, 0x20),
        ("DIRECTORY_INHERIT"@, 0x40),
        ("LIMIT_INHERIT"@, 0x80),
        ("ONLY_INHERIT"@, 0x100),
        ("INHERITED"@, 0x10),
    ]
}

impl MacosAceFlags {
    /// All bits that have a name.
    pub const KNOWN: u32 = 0x01f0;

    /// The names of the bits.
    pub fn names() -> (v: Vec<(&'static str, u32)>)
        ensures
            lists(v@, macos_ace_flags_names()),
    {
        vec![
            ("FILE_INHERIT", 0x20),
            ("DIRECTORY_INHERIT", 0x40),
            ("LIMIT_INHERIT", 0x80),
            ("ONLY_INHERIT", 0x100),
            ("INHERITED", 0x10),
        ]
    }

    /// No bits.
    pub fn empty() -> (r: MacosAceFlags)
        ensures
            r.0 == 0,
    {
        MacosAceFlags(0)
    }

    /// The bits that go by a name.
    pub fn named(name: &str) -> (r: Option<MacosAceFlags>)
        ensures
            r == match find(macos_ace_flags_names(), name@) {
                Some(bits) => Some(MacosAceFlags(bits)),
                None => None,
            },
    {
        match find_bit(&MacosAceFlags::names(), name, Ghost(macos_ace_flags_names())) {
            Some(bits) => Some(MacosAceFlags(bits)),
            None => None,
        }
    }

    /// Whether all of the bits are set.
    pub fn contains(self, bits: MacosAceFlags) -> (r: bool)
        ensures
            r == (self.0 & bits.0 == bits.0),
    {
        self.0 & bits.0 == bits.0
    }

    /// How many bits are set.
    pub fn rank(self) -> (n: usize)
        ensures
            n == ones(self.0 as nat),
    {
        rank_of(self.0)
    }
}

impl BitOr for MacosAceFlags {
    type Output = MacosAceFlags;

    fn bitor(self, rhs: MacosAceFlags) -> MacosAceFlags {
        MacosAceFlags(self.0 | rhs.0)
    }
}

impl BitOrSpecImpl for MacosAceFlags {
    open spec fn obeys_bitor_spec() -> bool {
        true
    }

    open spec fn bitor_req(self, rhs: MacosAceFlags) -> bool {
        true
    }

    open spec fn bitor_spec(self, rhs: MacosAceFlags) -> MacosAceFlags {
        MacosAceFlags(self.0 | rhs.0)
    }
}

impl BitAnd for MacosAceFlags {
    type Output = MacosAceFlags;

    fn bitand(self, rhs: MacosAceFlags) -> MacosAceFlags {
        MacosAceFlags(self.0 & rhs.0)
    }
}

impl BitAndSpecImpl for MacosAceFlags {
    open spec fn obeys_bitand_spec() -> bool {
        true
    }

    open spec fn bitand_req(self, rhs: MacosAceFlags) -> bool {
        true
    }

    open spec fn bitand_spec(self, rhs: MacosAceFlags) -> MacosAceFlags {
        MacosAceFlags(self.0 & rhs.0)
    }
}

impl BitXor for MacosAceFlags {
    type Output = MacosAceFlags;

    fn bitxor(self, rhs: MacosAceFlags) -> MacosAceFlags {
        MacosAceFlags(self.0 ^ rhs.0)
    }
}

impl BitXorSpecImpl for MacosAceFlags {
    open spec fn obeys_bitxor_spec() -> bool {
        true
    }

    open spec fn bitxor_req(self, rhs: MacosAceFlags) -> bool {
        true
    }

    open spec fn bitxor_spec(self, rhs: MacosAceFlags) -> MacosAceFlags {
        MacosAceFlags(self.0 ^ rhs.0)
    }
}

impl Not for MacosAceFlags {
    type Output = MacosAceFlags;

    fn not(self) -> MacosAceFlags {
        MacosAceFlags(!self.0 & MacosAceFlags::KNOWN)
    }
}

impl NotSpecImpl for MacosAceFlags {
    open spec fn obeys_not_spec() -> bool {
        true
    }

    open spec fn not_req(self) -> bool {
        true
    }

    open spec fn not_spec(self) -> MacosAceFlags {
        MacosAceFlags(!self.0 & MacosAceFlags::KNOWN)
    }
}

} // verus!

//! The permission bits of Unix files.

use std::ops::{BitAnd, BitOr, BitXor, Not};
use vstd::prelude::*;
use vstd::std_specs::ops::{BitAndSpecImpl, BitOrSpecImpl, BitXorSpecImpl, NotSpecImpl};
use crate::security::flags::{find, find_bit, lists, ones, rank_of};

verus! {

broadcast use vstd::string::group_string_axioms;

/// Whether a file may be read, written and executed.
#[derive(Clone, Copy, Debug, PartialEq, Eq, Structural)]
pub struct Permission(pub u32);

/// The names of the bits of [`Permission`].
pub open spec fn permission_names() -> Seq<(Seq<char>, u32)> {
    seq![
        ("READ"@, 0x4),
        ("WRITE"@, 0x2),
        ("EXECUTE"@, 0x1),
    ]
}

impl Permission {
    /// All bits that have a name.
    pub const KNOWN: u32 = 0x7;

    /// The names of the bits.
    pub fn names() -> (v: Vec<(&'static str, u32)>)
        ensures
            lists(v@, permission_names()),
    {
        vec![
            ("READ", 0x4),
            ("WRITE", 0x2),
            ("EXECUTE", 0x1),
        ]
    }

    /// No bits.
    pub fn empty() -> (r: Permission)
        ensures
            r.0 == 0,
    {
        Permission(0)
    }

    /// The bits that go by a name.
    pub fn named(name: &str) -> (r: Option<Permission>)
        ensures
            r == match find(permission_names(), name@) {
                Some(bits) => Some(Permission(bits)),
                None => None,
            },
    {
        match find_bit(&Permission::names(), name, Ghost(permission_names())) {
            Some(bits) => Some(Permission(bits)),
            None => None,
        }
    }

    /// Whether all of the bits are set.
    pub fn contains(self, bits: Permission) -> (r: bool)
        ensures
            r == (self.0 & bits.0 == bits.0),
    {
        self.0 & bits.0 == bits.0
    }

    /// How many bits are set.
    pub fn rank(self) -> (n: usize)
        ensures
            n == ones(self.0 as nat),
    {
        rank_of(self.0)
    }
}

impl BitOr for Permission {
    type Output = Permission;

    fn bitor(self, rhs: Permission) -> Permission {
        Permission(self.0 | rhs.0)
    }
}

impl BitOrSpecImpl for Permission {
    open spec fn obeys_bitor_spec() -> bool {
        true
    }

    open spec fn bitor_req(self, rhs: Permission) -> bool {
        true
    }

    open spec fn bitor_spec(self, rhs: Permission) -> Permission {
        Permission(self.0 | rhs.0)
    }
}

impl BitAnd for Permission {
    type Output = Permission;

    fn bitand(self, rhs: Permission) -> Permission {
        Permission(self.0 & rhs.0)
    }
}

impl BitAndSpecImpl for Permission {
    open spec fn obeys_bitand_spec() -> bool {
        true
    }

    open spec fn bitand_req(self, rhs: Permission) -> bool {
        true
    }

    open spec fn bitand_spec(self, rhs: Permission) -> Permission {
        Permission(self.0 & rhs.0)
    }
}

impl BitXor for Permission {
    type Output = Permission;

    fn bitxor(self, rhs: Permission) -> Permission {
        Permission(self.0 ^ rhs.0)
    }
}

impl BitXorSpecImpl for Permission {
    open spec fn obeys_bitxor_spec() -> bool {
        true
    }

    open spec fn bitxor_req(self, rhs: Permission) -> bool {
        true
    }

    open spec fn bitxor_spec(self, rhs: Permission) -> Permission {
        Permission(self.0 ^ rhs.0)
    }
}

impl Not for Permission {
    type Output = Permission;

    fn not(self) -> Permission {
        Permission(!self.0 & Permission::KNOWN)
    }
}

impl NotSpecImpl for Permission {
    open spec fn obeys_not_spec() -> bool {
        true
    }

    open spec fn not_req(self) -> bool {
        true
    }

    open spec fn not_spec(self) -> Permission {
        Permission(!self.0 & Permission::KNOWN)
    }
}

} // verus!

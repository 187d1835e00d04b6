//! The flags of Windows access control.

use std::ops::{BitAnd, BitOr, BitXor, Not};
use vstd::prelude::*;
use vstd::std_specs::ops::{BitAndSpecImpl, BitOrSpecImpl, BitXorSpecImpl, NotSpecImpl};
use crate::security::flags::{find, find_bit, lists, ones, rank_of};

verus! {

broadcast use vstd::string::group_string_axioms;

/// Which parts of a security descriptor are meant.
#[derive(Clone, Copy, Debug, PartialEq, Eq, Structural)]
pub struct SecInfo(pub u32);

/// The names of the bits of [`SecInfo`].
pub open spec fn sec_info_names() -> Seq<(Seq<char>, u32)> {
    seq![
        ("OWNER"@, 0x1),
        ("GROUP"@, 0x2),
        ("DACL"@, 0x4),
        ("SACL"@, 0x8),
        ("ALL"@, 0xf),
    ]
}

impl SecInfo {
    /// All bits that have a name.
    pub const KNOWN: u32 = 0xf;

    /// The names of the bits.
    pub fn names() -> (v: Vec<(&'static str, u32)>)
        ensures
            lists(v@, sec_info_names()),
    {
        vec![
            ("OWNER", 0x1),
            ("GROUP", 0x2),
            ("DACL", 0x4),
            ("SACL", 0x8),
            ("ALL", 0xf),
        ]
    }

    /// No bits.
    pub fn empty() -> (r: SecInfo)
        ensures
            r.0 == 0,
    {
        SecInfo(0)
    }

    /// The bits that go by a name.
    pub fn named(name: &str) -> (r: Option<SecInfo>)
        ensures
            r == match find(sec_info_names(), name@) {
                Some(bits) => Some(SecInfo(bits)),
                None => None,
            },
    {
        match find_bit(&SecInfo::names(), name, Ghost(sec_info_names())) {
            Some(bits) => Some(SecInfo(bits)),
            None => None,
        }
    }

    /// Whether all of the bits are set.
    pub fn contains(self, bits: SecInfo) -> (r: bool)
        ensures
            r == (self.0 & bits.0 == bits.0),
    {
        self.0 & bits.0 == bits.0
    }

    /// How many bits are set.
    pub fn rank(self) -> (n: usize)
        ensures
            n == ones(self.0 as nat),
    {
        rank_of(self.0)
    }
}

impl BitOr for SecInfo {
    type Output = SecInfo;

    fn bitor(self, rhs: SecInfo) -> SecInfo {
        SecInfo(self.0 | rhs.0)
    }
}

impl BitOrSpecImpl for SecInfo {
    open spec fn obeys_bitor_spec() -> bool {
        true
    }

    open spec fn bitor_req(self, rhs: SecInfo) -> bool {
        true
    }

    open spec fn bitor_spec(self, rhs: SecInfo) -> SecInfo {
        SecInfo(self.0 | rhs.0)
    }
}

impl BitAnd for SecInfo {
    type Output = SecInfo;

    fn bitand(self, rhs: SecInfo) -> SecInfo {
        SecInfo(self.0 & rhs.0)
    }
}

impl BitAndSpecImpl for SecInfo {
    open spec fn obeys_bitand_spec() -> bool {
        true
    }

    open spec fn bitand_req(self, rhs: SecInfo) -> bool {
        true
    }

    open spec fn bitand_spec(self, rhs: SecInfo) -> SecInfo {
        SecInfo(self.0 & rhs.0)
    }
}

impl BitXor for SecInfo {
    type Output = SecInfo;

    fn bitxor(self, rhs: SecInfo) -> SecInfo {
        SecInfo(self.0 ^ rhs.0)
    }
}

impl BitXorSpecImpl for SecInfo {
    open spec fn obeys_bitxor_spec() -> bool {
        true
    }

    open spec fn bitxor_req(self, rhs: SecInfo) -> bool {
        true
    }

    open spec fn bitxor_spec(self, rhs: SecInfo) -> SecInfo {
        SecInfo(self.0 ^ rhs.0)
    }
}

impl Not for SecInfo {
    type Output = SecInfo;

    fn not(self) -> SecInfo {
        SecInfo(!self.0 & SecInfo::KNOWN)
    }
}

impl NotSpecImpl for SecInfo {
    open spec fn obeys_not_spec() -> bool {
        true
    }

    open spec fn not_req(self) -> bool {
        true
    }

    open spec fn not_spec(self) -> SecInfo {
        SecInfo(!self.0 & SecInfo::KNOWN)
    }
}

/// How a group of an access token is used.
#[derive(Clone, Copy, Debug, PartialEq, Eq, Structural)]
pub struct TokenGroupAttributes(pub u32);

/// The names of the bits of [`TokenGroupAttributes`].
pub open spec fn token_group_attributes_names() -> Seq<(Seq<char>, u32)> {
    seq![
        ("MANDATORY"@, 0x1),
        ("ENABLED_BY_DEFAULT"@, 0x2),
        ("ENABLED"@, 0x4),
        ("OWNER"@, 0x8),
        ("USE_FOR_DENY_ONLY"@, 0x10),
        ("INTEGRITY"@, 0x20),
        ("INTEGRITY_ENABLED"@, 0x40),
        ("RESOURCE"@, 0x20000000),
        ("LOGON_ID"@, 0xc0000000),
    ]
}

impl TokenGroupAttributes {
    /// All bits that have a name.
    pub const KNOWN: u32 = 0xe000_007f;

    /// The names of the bits.
    pub fn names() -> (v: Vec<(&'static str, u32)>)
        ensures
            lists(v@, token_group_attributes_names()),
    {
        vec![
            ("MANDATORY", 0x1),
            ("ENABLED_BY_DEFAULT", 0x2),
            ("ENABLED", 0x4),
            ("OWNER", 0x8),
            ("USE_FOR_DENY_ONLY", 0x10),
            ("INTEGRITY", 0x20),
            ("INTEGRITY_ENABLED", 0x40),
            ("RESOURCE", 0x20000000),
            ("LOGON_ID", 0xc0000000),
        ]
    }

    /// No bits.
    pub fn empty() -> (r: TokenGroupAttributes)
        ensures
            r.0 == 0,
    {
        TokenGroupAttributes(0)
    }

    /// The bits that go by a name.
    pub fn named(name: &str) -> (r: Option<TokenGroupAttributes>)
        ensures
            r == match find(token_group_attributes_names(), name@) {
                Some(bits) => Some(TokenGroupAttributes(bits)),
                None => None,
            },
    {
        match find_bit(&TokenGroupAttributes::names(), name, Ghost(token_group_attributes_names())) {
            Some(bits) => Some(TokenGroupAttributes(bits)),
            None => None,
        }
    }

    /// Whether all of the bits are set.
    pub fn contains(self, bits: TokenGroupAttributes) -> (r: bool)
        ensures
            r == (self.0 & bits.0 == bits.0),
    {
        self.0 & bits.0 == bits.0
    }

    /// How many bits are set.
    pub fn rank(self) -> (n: usize)
        ensures
            n == ones(self.0 as nat),
    {
        rank_of(self.0)
    }
}

impl BitOr for TokenGroupAttributes {
    type Output = TokenGroupAttributes;

    fn bitor(self, rhs: TokenGroupAttributes) -> TokenGroupAttributes {
        TokenGroupAttributes(self.0 | rhs.0)
    }
}

impl BitOrSpecImpl for TokenGroupAttributes {
    open spec fn obeys_bitor_spec() -> bool {
        true
    }

    open spec fn bitor_req(self, rhs: TokenGroupAttributes) -> bool {
        true
    }

    open spec fn bitor_spec(self, rhs: TokenGroupAttributes) -> TokenGroupAttributes {
        TokenGroupAttributes(self.0 | rhs.0)
    }
}

impl BitAnd for TokenGroupAttributes {
    type Output = TokenGroupAttributes;

    fn bitand(self, rhs: TokenGroupAttributes) -> TokenGroupAttributes {
        TokenGroupAttributes(self.0 & rhs.0)
    }
}

impl BitAndSpecImpl for TokenGroupAttributes {
    open spec fn obeys_bitand_spec() -> bool {
        true
    }

    open spec fn bitand_req(self, rhs: TokenGroupAttributes) -> bool {
        true
    }

    open spec fn bitand_spec(self, rhs: TokenGroupAttributes) -> TokenGroupAttributes {
        TokenGroupAttributes(self.0 & rhs.0)
    }
}

impl BitXor for TokenGroupAttributes {
    type Output = TokenGroupAttributes;

    fn bitxor(self, rhs: TokenGroupAttributes) -> TokenGroupAttributes {
        TokenGroupAttributes(self.0 ^ rhs.0)
    }
}

impl BitXorSpecImpl for TokenGroupAttributes {
    open spec fn obeys_bitxor_spec() -> bool {
        true
    }

    open spec fn bitxor_req(self, rhs: TokenGroupAttributes) -> bool {
        true
    }

    open spec fn bitxor_spec(self, rhs: TokenGroupAttributes) -> TokenGroupAttributes {
        TokenGroupAttributes(self.0 ^ rhs.0)
    }
}

impl Not for TokenGroupAttributes {
    type Output = TokenGroupAttributes;

    fn not(self) -> TokenGroupAttributes {
        TokenGroupAttributes(!self.0 & TokenGroupAttributes::KNOWN)
    }
}

impl NotSpecImpl for TokenGroupAttributes {
    open spec fn obeys_not_spec() -> bool {
        true
    }

    open spec fn not_req(self) -> bool {
        true
    }

    open spec fn not_spec(self) -> TokenGroupAttributes {
        TokenGroupAttributes(!self.0 & TokenGroupAttributes::KNOWN)
    }
}

/// What an entry allows, denies or audits.
#[derive(Clone, Copy, Debug, PartialEq, Eq, Structural)]
pub struct AccessMask(pub u32);

/// The names of the bits of [`AccessMask`].
pub open spec fn access_mask_names() -> Seq<(Seq<char>, u32)> {
    seq![
        ("DELETE"@, 0x10000),
        ("READ_CONTROL"@, 0x20000),
        ("WRITE_DAC"@, 0x40000),
        ("WRITE_OWNER"@, 0x80000),
        ("SYNCHRONIZE"@, 0x100000),
        ("STANDARD_RIGHTS_REQUIRED"@, 0xf0000),
        ("STANDARD_RIGHTS_ALL"@, 0x1f0000),
        ("ACCESS_SYSTEM_SECURITY"@, 0x1000000),
        ("MAXIMUM_ALLOWED"@, 0x2000000),
        ("GENERIC_READ"@, 0x80000000),
        ("GENERIC_WRITE"@, 0x40000000),
        ("GENERIC_EXECUTE"@, 0x20000000),
        ("GENERIC_ALL"@, 0x10000000),
    ]
}

impl AccessMask {
    /// All bits that have a name.
    pub const KNOWN: u32 = 0xf31f_0000;

    /// The names of the bits.
    pub fn names() -> (v: Vec<(&'static str, u32)>)
        ensures
            lists(v@, access_mask_names()),
    {
        vec![
            ("DELETE", 0x10000),
            ("READ_CONTROL", 0x20000),
            ("WRITE_DAC", 0x40000),
            ("WRITE_OWNER", 0x80000),
            ("SYNCHRONIZE", 0x100000),
            ("STANDARD_RIGHTS_REQUIRED", 0xf0000),
            ("STANDARD_RIGHTS_ALL", 0x1f0000),
            ("ACCESS_SYSTEM_SECURITY", 0x1000000),
            ("MAXIMUM_ALLOWED", 0x2000000),
            ("GENERIC_READ", 0x80000000),
            ("GENERIC_WRITE", 0x40000000),
            ("GENERIC_EXECUTE", 0x20000000),
            ("GENERIC_ALL", 0x10000000),
        ]
    }

    /// No bits.
    pub fn empty() -> (r: AccessMask)
        ensures
            r.0 == 0,
    {
        AccessMask(0)
    }

    /// The bits that go by a name.
    pub fn named(name: &str) -> (r: Option<AccessMask>)
        ensures
            r == match find(access_mask_names(), name@) {
                Some(bits) => Some(AccessMask(bits)),
                None => None,
            },
    {
        match find_bit(&AccessMask::names(), name, Ghost(access_mask_names())) {
            Some(bits) => Some(AccessMask(bits)),
            None => None,
        }
    }

    /// Whether all of the bits are set.
    pub fn contains(self, bits: AccessMask) -> (r: bool)
        ensures
            r == (self.0 & bits.0 == bits.0),
    {
        self.0 & bits.0 == bits.0
    }

    /// How many bits are set.
    pub fn rank(self) -> (n: usize)
        ensures
            n == ones(self.0 as nat),
    {
        rank_of(self.0)
    }
}

impl AccessMask {
    /// The rights that only some kinds of objects have.
    pub fn specific_rights(self) -> (bits: u32)
        ensures
            bits == self.0 & 0xffff,
    {
        self.0 & 0xffff
    }

    /// The rights that objects of every kind have.
    pub fn standard_rights(self) -> (r: AccessMask)
        ensures
            r.0 == self.0 & 0x1f_0000,
    {
        AccessMask(self.0 & 0x1f_0000)
    }

    /// The rights that stand for others.
    pub fn generic_rights(self) -> (r: AccessMask)
        ensures
            r.0 == self.0 & 0xf000_0000,
    {
        AccessMask(self.0 & 0xf000_0000)
    }
}

impl BitOr for AccessMask {
    type Output = AccessMask;

    fn bitor(self, rhs: AccessMask) -> AccessMask {
        AccessMask(self.0 | rhs.0)
    }
}

impl BitOrSpecImpl for AccessMask {
    open spec fn obeys_bitor_spec() -> bool {
        true
    }

    open spec fn bitor_req(self, rhs: AccessMask) -> bool {
        true
    }

    open spec fn bitor_spec(self, rhs: AccessMask) -> AccessMask {
        AccessMask(self.0 | rhs.0)
    }
}

impl BitAnd for AccessMask {
    type Output = AccessMask;

    fn bitand(self, rhs: AccessMask) -> AccessMask {
        AccessMask(self.0 & rhs.0)
    }
}

impl BitAndSpecImpl for AccessMask {
    open spec fn obeys_bitand_spec() -> bool {
        true
    }

    open spec fn bitand_req(self, rhs: AccessMask) -> bool {
        true
    }

    open spec fn bitand_spec(self, rhs: AccessMask) -> AccessMask {
        AccessMask(self.0 & rhs.0)
    }
}

impl BitXor for AccessMask {
    type Output = AccessMask;

    fn bitxor(self, rhs: AccessMask) -> AccessMask {
        AccessMask(self.0 ^ rhs.0)
    }
}

impl BitXorSpecImpl for AccessMask {
    open spec fn obeys_bitxor_spec() -> bool {
        true
    }

    open spec fn bitxor_req(self, rhs: AccessMask) -> bool {
        true
    }

    open spec fn bitxor_spec(self, rhs: AccessMask) -> AccessMask {
        AccessMask(self.0 ^ rhs.0)
    }
}

impl Not for AccessMask {
    type Output = AccessMask;

    fn not(self) -> AccessMask {
        AccessMask(!self.0 & AccessMask::KNOWN)
    }
}

impl NotSpecImpl for AccessMask {
    open spec fn obeys_not_spec() -> bool {
        true
    }

    open spec fn not_req(self) -> bool {
        true
    }

    open spec fn not_spec(self) -> AccessMask {
        AccessMask(!self.0 & AccessMask::KNOWN)
    }
}

/// How an entry is inherited and audited.
#[derive(Clone, Copy, Debug, PartialEq, Eq, Structural)]
pub struct AceFlags(pub u32);

/// The names of the bits of [`AceFlags`].
pub open spec fn ace_flags_names() -> Seq<(Seq<char>, u32)> {
    seq![
        ("OBJECT_INHERIT"@, 0x1),
        ("CONTAINER_INHERIT"@, 0x2),
        ("NO_PROPAGATE_INHERIT"@, 0x4),
        ("INHERIT_ONLY"@, 0x8),
        ("INHERITED"@, 0x10),
        ("CRITICAL"@, 0x20),
        ("SUCCESSFUL_ACCESS"@, 0x40),
        ("FAILED_ACCESS"@, 0x80),
    ]
}

impl AceFlags {
    /// All bits that have a name.
    pub const KNOWN: u32 = 0xff;

    /// The names of the bits.
    pub fn names() -> (v: Vec<(&'static str, u32)>)
        ensures
            lists(v@, ace_flags_names()),
    {
        vec![
            ("OBJECT_INHERIT", 0x1),
            ("CONTAINER_INHERIT", 0x2),
            ("NO_PROPAGATE_INHERIT", 0x4),
            ("INHERIT_ONLY", 0x8),
            ("INHERITED", 0x10),
            ("CRITICAL", 0x20),
            ("SUCCESSFUL_ACCESS", 0x40),
            ("FAILED_ACCESS", 0x80),
        ]
    }

    /// No bits.
    pub fn empty() -> (r: AceFlags)
        ensures
            r.0 == 0,
    {
        AceFlags(0)
    }

    /// The bits that go by a name.
    pub fn named(name: &str) -> (r: Option<AceFlags>)
        ensures
            r == match find(ace_flags_names(), name@) {
                Some(bits) => Some(AceFlags(bits)),
                None => None,
            },
    {
        match find_bit(&AceFlags::names(), name, Ghost(ace_flags_names())) {
            Some(bits) => Some(AceFlags(bits)),
            None => None,
        }
    }

    /// Whether all of the bits are set.
    pub fn contains(self, bits: AceFlags) -> (r: bool)
        ensures
            r == (self.0 & bits.0 == bits.0),
    {
        self.0 & bits.0 == bits.0
    }

    /// How many bits are set.
    pub fn rank(self) -> (n: usize)
        ensures
            n == ones(self.0 as nat),
    {
        rank_of(self.0)
    }
}

impl BitOr for AceFlags {
    type Output = AceFlags;

    fn bitor(self, rhs: AceFlags) -> AceFlags {
        AceFlags(self.0 | rhs.0)
    }
}

impl BitOrSpecImpl for AceFlags {
    open spec fn obeys_bitor_spec() -> bool {
        true
    }

    open spec fn bitor_req(self, rhs: AceFlags) -> bool {
        true
    }

    open spec fn bitor_spec(self, rhs: AceFlags) -> AceFlags {
        AceFlags(self.0 | rhs.0)
    }
}

impl BitAnd for AceFlags {
    type Output = AceFlags;

    fn bitand(self, rhs: AceFlags) -> AceFlags {
        AceFlags(self.0 & rhs.0)
    }
}

impl BitAndSpecImpl for AceFlags {
    open spec fn obeys_bitand_spec() -> bool {
        true
    }

    open spec fn bitand_req(self, rhs: AceFlags) -> bool {
        true
    }

    open spec fn bitand_spec(self, rhs: AceFlags) -> AceFlags {
        AceFlags(self.0 & rhs.0)
    }
}

impl BitXor for AceFlags {
    type Output = AceFlags;

    fn bitxor(self, rhs: AceFlags) -> AceFlags {
        AceFlags(self.0 ^ rhs.0)
    }
}

impl BitXorSpecImpl for AceFlags {
    open spec fn obeys_bitxor_spec() -> bool {
        true
    }

    open spec fn bitxor_req(self, rhs: AceFlags) -> bool {
        true
    }

    open spec fn bitxor_spec(self, rhs: AceFlags) -> AceFlags {
        AceFlags(self.0 ^ rhs.0)
    }
}

impl Not for AceFlags {
    type Output = AceFlags;

    fn not(self) -> AceFlags {
        AceFlags(!self.0 & AceFlags::KNOWN)
    }
}

impl NotSpecImpl for AceFlags {
    open spec fn obeys_not_spec() -> bool {
        true
    }

    open spec fn not_req(self) -> bool {
        true
    }

    open spec fn not_spec(self) -> AceFlags {
        AceFlags(!self.0 & AceFlags::KNOWN)
    }
}

/// What is set in a security descriptor.
#[derive(Clone, Copy, Debug, PartialEq, Eq, Structural)]
pub struct SecDescControl(pub u32);

/// The names of the bits of [`SecDescControl`].
pub open spec fn sec_desc_control_names() -> Seq<(Seq<char>, u32)> {
    seq![
        ("OWNER_DEFAULTED"@, 0x1),
        ("GROUP_DEFAULTED"@, 0x2),
        ("DACL_PRESENT"@, 0x4),
        ("DACL_DEFAULTED"@, 0x8),
        ("SACL_PRESENT"@, 0x10),
        ("SACL_DEFAULTED"@, 0x20),
        ("DACL_AUTO_INHERIT_REQUIRED"@, 0x100),
        ("SACL_AUTO_INHERIT_REQUIRED"@, 0x200),
        ("DACL_AUTO_INHERITED"@, 0x400),
        ("SACL_AUTO_INHERITED"@, 0x800),
        ("DACL_PROTECTED"@, 0x1000),
        ("SACL_PROTECTED"@, 0x2000),
        ("RM_CONTROL_VALID"@, 0x4000),
        ("SELF_RELATIVE"@, 0x8000),
    ]
}

impl SecDescControl {
    /// All bits that have a name.
    pub const KNOWN: u32 = 0xff3f;

    /// The names of the bits.
    pub fn names() -> (v: Vec<(&'static str, u32)>)
        ensures
            lists(v@, sec_desc_control_names()),
    {
        vec![
            ("OWNER_DEFAULTED", 0x1),
            ("GROUP_DEFAULTED", 0x2),
            ("DACL_PRESENT", 0x4),
            ("DACL_DEFAULTED", 0x8),
            ("SACL_PRESENT", 0x10),
            ("SACL_DEFAULTED", 0x20),
            ("DACL_AUTO_INHERIT_REQUIRED", 0x100),
            ("SACL_AUTO_INHERIT_REQUIRED", 0x200),
            ("DACL_AUTO_INHERITED", 0x400),
            ("SACL_AUTO_INHERITED", 0x800),
            ("DACL_PROTECTED", 0x1000),
            ("SACL_PROTECTED", 0x2000),
            ("RM_CONTROL_VALID", 0x4000),
            ("SELF_RELATIVE", 0x8000),
        ]
    }

    /// No bits.
    pub fn empty() -> (r: SecDescControl)
        ensures
            r.0 == 0,
    {
        SecDescControl(0)
    }

    /// The bits that go by a name.
    pub fn named(name: &str) -> (r: Option<SecDescControl>)
        ensures
            r == match find(sec_desc_control_names(), name@) {
                Some(bits) => Some(SecDescControl(bits)),
                None => None,
            },
    {
        match find_bit(&SecDescControl::names(), name, Ghost(sec_desc_control_names())) {
            Some(bits) => Some(SecDescControl(bits)),
            None => None,
        }
    }

    /// Whether all of the bits are set.
    pub fn contains(self, bits: SecDescControl) -> (r: bool)
        ensures
            r == (self.0 & bits.0 == bits.0),
    {
        self.0 & bits.0 == bits.0
    }

    /// How many bits are set.
    pub fn rank(self) -> (n: usize)
        ensures
            n == ones(self.0 as nat),
    {
        rank_of(self.0)
    }
}

impl BitOr for SecDescControl {
    type Output = SecDescControl;

    fn bitor(self, rhs: SecDescControl) -> SecDescControl {
        SecDescControl(self.0 | rhs.0)
    }
}

impl BitOrSpecImpl for SecDescControl {
    open spec fn obeys_bitor_spec() -> bool {
        true
    }

    open spec fn bitor_req(self, rhs: SecDescControl) -> bool {
        true
    }

    open spec fn bitor_spec(self, rhs: SecDescControl) -> SecDescControl {
        SecDescControl(self.0 | rhs.0)
    }
}

impl BitAnd for SecDescControl {
    type Output = SecDescControl;

    fn bitand(self, rhs: SecDescControl) -> SecDescControl {
        SecDescControl(self.0 & rhs.0)
    }
}

impl BitAndSpecImpl for SecDescControl {
    open spec fn obeys_bitand_spec() -> bool {
        true
    }

    open spec fn bitand_req(self, rhs: SecDescControl) -> bool {
        true
    }

    open spec fn bitand_spec(self, rhs: SecDescControl) -> SecDescControl {
        SecDescControl(self.0 & rhs.0)
    }
}

impl BitXor for SecDescControl {
    type Output = SecDescControl;

    fn bitxor(self, rhs: SecDescControl) -> SecDescControl {
        SecDescControl(self.0 ^ rhs.0)
    }
}

impl BitXorSpecImpl for SecDescControl {
    open spec fn obeys_bitxor_spec() -> bool {
        true
    }

    open spec fn bitxor_req(self, rhs: SecDescControl) -> bool {
        true
    }

    open spec fn bitxor_spec(self, rhs: SecDescControl) -> SecDescControl {
        SecDescControl(self.0 ^ rhs.0)
    }
}

impl Not for SecDescControl {
    type Output = SecDescControl;

    fn not(self) -> SecDescControl {
        SecDescControl(!self.0 & SecDescControl::KNOWN)
    }
}

impl NotSpecImpl for SecDescControl {
    open spec fn obeys_not_spec() -> bool {
        true
    }

    open spec fn not_req(self) -> bool {
        true
    }

    open spec fn not_spec(self) -> SecDescControl {
        SecDescControl(!self.0 & SecDescControl::KNOWN)
    }
}

} // verus!

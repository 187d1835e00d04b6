//! Principals, entries and lists of access control, and the values that
//! programs describe them with.

use vstd::prelude::*;

verus! {

broadcast use vstd::string::group_string_axioms;

/// A Windows security identifier: an authority and the numbers under it.
#[derive(Debug)]
pub struct Sid {
    pub authority: u64,
    pub sub_authorities: Vec<u32>,
}

/// The content of a [`Sid`].
pub struct SidView {
    pub authority: u64,
    pub sub_authorities: Seq<u32>,
}

impl View for Sid {
    type V = SidView;

    open spec fn view(&self) -> SidView {
        SidView { authority: self.authority, sub_authorities: self.sub_authorities@ }
    }
}

/// Another copy of a list.
pub fn copy_list<T: Copy>(v: &Vec<T>) -> (r: Vec<T>)
    ensures
        r@ == v@,
{
    let mut r: Vec<T> = Vec::new();
    let mut i: usize = 0;
    while i < v.len()
        invariant
            i <= v@.len(),
            r@ == v@.take(i as int),
        decreases v@.len() - i,
    {
        r.push(v[i]);
        assert(v@.take(i + 1) =~= v@.take(i as int).push(v@[i as int]));
        i = i + 1;
    }
    assert(v@.take(i as int) =~= v@);
    r
}

impl Sid {
    /// Another copy of this identifier.
    pub fn copy(&self) -> (s: Sid)
        ensures
            s@ == self@,
    {
        Sid { authority: self.authority, sub_authorities: copy_list(&self.sub_authorities) }
    }
}

/// Whom an entry of a Unix list is about.
#[derive(Clone, Copy, Debug, PartialEq, Eq, Structural)]
pub enum PosixQualifier {
    UserObj,
    User(u32),
    GroupObj,
    Group(u32),
    Mask,
    Other,
}

/// An entry of a Unix list.
#[derive(Clone, Copy, Debug, PartialEq, Eq, Structural)]
pub struct PosixAce {
    pub qualifier: PosixQualifier,
    pub permissions: u32,
}

/// What an entry of an NFS list does.
#[derive(Clone, Copy, Debug, PartialEq, Eq, Structural)]
pub enum Nfs4AceType {
    Allow,
    Deny,
    Audit,
    Alarm,
}

/// Whom an entry of an NFS list is about.
#[derive(Clone, Copy, Debug, PartialEq, Eq, Structural)]
pub enum Nfs4Qualifier {
    Owner,
    OwningGroup,
    Everyone,
    User(u32),
    Group(u32),
}

/// An entry of an NFS list.
#[derive(Clone, Copy, Debug, PartialEq, Eq, Structural)]
pub struct Nfs4Ace {
    pub ace_type: Nfs4AceType,
    pub qualifier: Nfs4Qualifier,
    pub mask: u32,
    pub flags: u32,
}

/// What an entry of a macOS list does.
#[derive(Clone, Copy, Debug, PartialEq, Eq, Structural)]
pub enum MacosAceType {
    Allow,
    Deny,
}

/// An entry of a macOS list. The principal is given by its UUID.
#[derive(Clone, Copy, Debug, PartialEq, Eq, Structural)]
pub struct MacosAce {
    pub ace_type: MacosAceType,
    pub principal: u128,
    pub mask: u32,
    pub flags: u32,
}

/// What kind of entry of a Windows list it is.
#[derive(Clone, Copy, Debug, PartialEq, Eq, Structural)]
pub enum AceType {
    AccessAllowed,
    AccessDenied,
    SystemAudit,
    SystemAlarm,
    AccessAllowedCompound,
    AccessAllowedObject,
    AccessDeniedObject,
    SystemAuditObject,
    SystemAlarmObject,
    AccessAllowedCallback,
    AccessDeniedCallback,
    AccessAllowedCallbackObject,
    AccessDeniedCallbackObject,
    SystemAuditCallback,
    SystemAlarmCallback,
    SystemAuditCallbackObject,
    SystemAlarmCallbackObject,
    SystemMandatoryLabel,
    SystemResourceAttribute,
    SystemScopedPolicyId,
    SystemProcessTrustLabel,
    SystemAccessFilter,
    Unknown,
}

/// An entry of a Windows list, as far as it can be read, and its packet.
#[derive(Debug)]
pub struct AceRecord {
    pub ace_type: AceType,
    pub type_code: u8,
    pub flags: u32,
    pub size: u16,
    pub mask: Option<u32>,
    pub sid: Option<Sid>,
    pub object_flags: Option<u32>,
    pub object_type: Option<u128>,
    pub inherited_object_type: Option<u128>,
    pub application_data: Option<Vec<u8>>,
    pub packet: Vec<u8>,
}

/// The revision of a Windows list.
#[derive(Clone, Copy, Debug, PartialEq, Eq, Structural)]
pub enum AclRevision {
    Basic,
    DirectoryService,
    Unknown(u8),
}

/// A Windows list, and its packet.
#[derive(Debug)]
pub struct AclRecord {
    pub revision: AclRevision,
    pub size: u16,
    pub aces: Vec<AceRecord>,
    pub packet: Vec<u8>,
}

/// A Windows security descriptor. The mask says which parts were loaded.
#[derive(Debug)]
pub struct SecDescRecord {
    pub revision: u8,
    pub mask: u32,
    pub control: u32,
    pub rm_control: u8,
    pub owner: Option<Sid>,
    pub group: Option<Sid>,
    pub dacl: Option<AclRecord>,
    pub sacl: Option<AclRecord>,
}

/// Which set of flags a value belongs to.
#[derive(Clone, Copy, Debug, PartialEq, Eq, Structural)]
pub enum FlagClass {
    Permission,
    MacosMask,
    MacosFlags,
    Nfs4Mask,
    Nfs4Flags,
    AccessMask,
    AceFlags,
}

/// What a string or a packet reads as.
#[derive(Debug)]
pub struct Readings {
    pub sid: Result<Sid, String>,
    pub uuid: Result<u128, String>,
}

/// A value of a program, as far as access control looks into it.
#[derive(Debug)]
pub enum SpecValue {
    Nil,
    Bool(bool),
    Int(i128),
    Sym(String),
    Str(String, Readings),
    Bin(Vec<u8>, Readings),
    /// A set of flags.
    Flags(FlagClass, u32),
    /// Flags of a kind of its own that stand for access rights, by their
    /// number.
    Rights(Box<SpecValue>),
    Uuid(u128),
    Guid(u128),
    Sid(Sid),
    PosixAce(PosixAce),
    PosixAcl(Vec<PosixAce>),
    Nfs4Ace(Nfs4Ace),
    Nfs4Acl(Vec<Nfs4Ace>),
    MacosAce(MacosAce),
    MacosAcl(Vec<MacosAce>),
    Ace(AceRecord),
    Acl(AclRecord),
    SecDesc(SecDescRecord),
    Dict(Vec<(SpecValue, SpecValue)>),
    /// Something that can be gone through item by item.
    Items(Vec<SpecValue>),
    Other,
}

} // verus!

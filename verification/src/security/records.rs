//! Reading the entries and lists of Windows access control.

use vstd::prelude::*;
use crate::console::data::copy_bytes;
use crate::error::{outcome, viewed, Error, ErrorView};
use crate::security::model::{AceRecord, AceType, AclRecord, SecDescRecord, Sid, SidView};
use crate::security::sec_desc::{field_view, AclSlot};
use crate::security::sid::sid_option;

verus! {

broadcast use vstd::string::group_string_axioms;

/// Where a list stands: in a descriptor, or by itself.
#[derive(Debug)]
pub enum AclAnnex {
    Component(AclSlot),
    Owned(AclRecord),
}

/// The list of a descriptor that is not null.
pub open spec fn component_of(d: SecDescRecord, slot: AclSlot) -> Option<AclRecord> {
    match slot {
        AclSlot::Dacl => d.dacl,
        AclSlot::Sacl => d.sacl,
    }
}

/// The list that stands in a descriptor.
pub fn create_acl(component: AclSlot) -> (annex: AclAnnex)
    ensures
        annex == AclAnnex::Component(component),
{
    AclAnnex::Component(component)
}

/// Whether a list can be found: it stands by itself, or the descriptor has it.
pub open spec fn acl_found(annex: AclAnnex, descriptor: SecDescRecord) -> bool {
    match annex {
        AclAnnex::Owned(_) => true,
        AclAnnex::Component(slot) => component_of(descriptor, slot) is Some,
    }
}

/// A list, wherever it stands.
pub open spec fn acl_at(annex: AclAnnex, descriptor: SecDescRecord) -> AclRecord {
    match annex {
        AclAnnex::Owned(acl) => acl,
        AclAnnex::Component(slot) => component_of(descriptor, slot)->0,
    }
}

/// A list, wherever it stands.
pub fn with_acl<'a>(annex: &'a AclAnnex, descriptor: &'a SecDescRecord) -> (acl: &'a AclRecord)
    requires
        acl_found(*annex, *descriptor),
    ensures
        *acl == acl_at(*annex, *descriptor),
{
    match annex {
        AclAnnex::Owned(acl) => acl,
        AclAnnex::Component(AclSlot::Dacl) => descriptor.dacl.as_ref().unwrap(),
        AclAnnex::Component(AclSlot::Sacl) => descriptor.sacl.as_ref().unwrap(),
    }
}

/// Where an entry stands: at a place in a list, or by itself.
#[derive(Debug)]
pub enum AceAnnex {
    InAcl(usize),
    Owned(AceRecord),
}

/// Whether an entry can be found.
pub open spec fn ace_found(annex: AceAnnex, acl: AclRecord) -> bool {
    match annex {
        AceAnnex::Owned(_) => true,
        AceAnnex::InAcl(index) => index < acl.aces@.len(),
    }
}

/// An entry, wherever it stands.
pub open spec fn ace_at(annex: AceAnnex, acl: AclRecord) -> AceRecord {
    match annex {
        AceAnnex::Owned(ace) => ace,
        AceAnnex::InAcl(index) => acl.aces@[index as int],
    }
}

/// An entry, wherever it stands.
pub fn with_ace<'a>(annex: &'a AceAnnex, acl: &'a AclRecord) -> (ace: &'a AceRecord)
    requires
        ace_found(*annex, *acl),
    ensures
        *ace == ace_at(*annex, *acl),
{
    match annex {
        AceAnnex::Owned(ace) => ace,
        AceAnnex::InAcl(index) => &acl.aces[*index],
    }
}

/// Whether an entry is about recording access.
pub open spec fn records_access(kind: AceType) -> bool {
    kind is SystemAudit || kind is SystemAlarm || kind is SystemAuditObject
        || kind is SystemAlarmObject || kind is SystemAuditCallback || kind is SystemAlarmCallback
        || kind is SystemAuditCallbackObject || kind is SystemAlarmCallbackObject
}

/// Whether an entry is about recording access.
pub fn ace_is_audit(kind: AceType) -> (r: bool)
    ensures
        r == records_access(kind),
{
    match kind {
        AceType::SystemAudit
        | AceType::SystemAlarm
        | AceType::SystemAuditObject
        | AceType::SystemAlarmObject
        | AceType::SystemAuditCallback
        | AceType::SystemAlarmCallback
        | AceType::SystemAuditCallbackObject
        | AceType::SystemAlarmCallbackObject => true,
        _ => false,
    }
}

/// Whether all bits of a flag are set in an entry.
pub fn ace_flag(ace: &AceRecord, flag: u32) -> (r: bool)
    ensures
        r == (ace.flags & flag == flag),
{
    ace.flags & flag == flag
}

/// The symbol of an entry's kind.
pub open spec fn kind_symbol(kind: AceType) -> Seq<char> {
    match kind {
        AceType::AccessAllowed => "ACCESS_ALLOWED"@,
        AceType::AccessDenied => "ACCESS_DENIED"@,
        AceType::SystemAudit => "SYSTEM_AUDIT"@,
        AceType::SystemAlarm => "SYSTEM_ALARM"@,
        AceType::AccessAllowedCompound => "ACCESS_ALLOWED_COMPOUND"@,
        AceType::AccessAllowedObject => "ACCESS_ALLOWED_OBJECT"@,
        AceType::AccessDeniedObject => "ACCESS_DENIED_OBJECT"@,
        AceType::SystemAuditObject => "SYSTEM_AUDIT_OBJECT"@,
        AceType::SystemAlarmObject => "SYSTEM_ALARM_OBJECT"@,
        AceType::AccessAllowedCallback => "ACCESS_ALLOWED_CALLBACK"@,
        AceType::AccessDeniedCallback => "ACCESS_DENIED_CALLBACK"@,
        AceType::AccessAllowedCallbackObject => "ACCESS_ALLOWED_CALLBACK_OBJECT"@,
        AceType::AccessDeniedCallbackObject => "ACCESS_DENIED_CALLBACK_OBJECT"@,
        AceType::SystemAuditCallback => "SYSTEM_AUDIT_CALLBACK"@,
        AceType::SystemAlarmCallback => "SYSTEM_ALARM_CALLBACK"@,
        AceType::SystemAuditCallbackObject => "SYSTEM_AUDIT_CALLBACK_OBJECT"@,
        AceType::SystemAlarmCallbackObject => "SYSTEM_ALARM_CALLBACK_OBJECT"@,
        AceType::SystemMandatoryLabel => "SYSTEM_MANDATORY_LABEL"@,
        AceType::SystemResourceAttribute => "SYSTEM_RESOURCE_ATTRIBUTE"@,
        AceType::SystemScopedPolicyId => "SYSTEM_SCOPED_POLICY_ID"@,
        AceType::SystemProcessTrustLabel => "SYSTEM_PROCESS_TRUST_LABEL"@,
        AceType::SystemAccessFilter => "SYSTEM_ACCESS_FILTER"@,
        AceType::Unknown => "UNKNOWN"@,
    }
}

/// A part of an entry, if it has one.
pub open spec fn part<T>(value: Option<T>, name: Seq<char>) -> Result<T, ErrorView> {
    match value {
        Some(value) => Ok(value),
        None => Err(ErrorView::Field(name)),
    }
}

/// A part of an entry about an object: none if the entry is not about one.
pub open spec fn object_part(ace: AceRecord, value: Option<u128>, name: Seq<char>) -> Result<
    Option<u128>,
    ErrorView,
> {
    if ace.object_flags is None {
        Err(ErrorView::Field(name))
    } else {
        Ok(value)
    }
}

/// What an entry that records access says of it.
pub open spec fn audit_part(ace: AceRecord, bit: u32, name: Seq<char>) -> Result<bool, ErrorView> {
    if records_access(ace.ace_type) {
        Ok(ace.flags & bit == bit)
    } else {
        Err(ErrorView::Field(name))
    }
}

impl AceRecord {
    /// The symbol of the entry's kind.
    pub fn type_sym(&self) -> (s: &'static str)
        ensures
            s@ == kind_symbol(self.ace_type),
    {
        match self.ace_type {
            AceType::AccessAllowed => "ACCESS_ALLOWED",
            AceType::AccessDenied => "ACCESS_DENIED",
            AceType::SystemAudit => "SYSTEM_AUDIT",
            AceType::SystemAlarm => "SYSTEM_ALARM",
            AceType::AccessAllowedCompound => "ACCESS_ALLOWED_COMPOUND",
            AceType::AccessAllowedObject => "ACCESS_ALLOWED_OBJECT",
            AceType::AccessDeniedObject => "ACCESS_DENIED_OBJECT",
            AceType::SystemAuditObject => "SYSTEM_AUDIT_OBJECT",
            AceType::SystemAlarmObject => "SYSTEM_ALARM_OBJECT",
            AceType::AccessAllowedCallback => "ACCESS_ALLOWED_CALLBACK",
            AceType::AccessDeniedCallback => "ACCESS_DENIED_CALLBACK",
            AceType::AccessAllowedCallbackObject => "ACCESS_ALLOWED_CALLBACK_OBJECT",
            AceType::AccessDeniedCallbackObject => "ACCESS_DENIED_CALLBACK_OBJECT",
            AceType::SystemAuditCallback => "SYSTEM_AUDIT_CALLBACK",
            AceType::SystemAlarmCallback => "SYSTEM_ALARM_CALLBACK",
            AceType::SystemAuditCallbackObject => "SYSTEM_AUDIT_CALLBACK_OBJECT",
            AceType::SystemAlarmCallbackObject => "SYSTEM_ALARM_CALLBACK_OBJECT",
            AceType::SystemMandatoryLabel => "SYSTEM_MANDATORY_LABEL",
            AceType::SystemResourceAttribute => "SYSTEM_RESOURCE_ATTRIBUTE",
            AceType::SystemScopedPolicyId => "SYSTEM_SCOPED_POLICY_ID",
            AceType::SystemProcessTrustLabel => "SYSTEM_PROCESS_TRUST_LABEL",
            AceType::SystemAccessFilter => "SYSTEM_ACCESS_FILTER",
            AceType::Unknown => "UNKNOWN",
        }
    }

    /// What the entry is about, if it says so.
    pub fn mask(&self) -> (r: Result<u32, Error>)
        ensures
            outcome(r) == part(self.mask, "mask"@),
    {
        match self.mask {
            Some(mask) => Ok(mask),
            None => Err(Error::Field("mask".to_owned())),
        }
    }

    /// Whom the entry is about, if it says so.
    pub fn sid(&self) -> (r: Result<Sid, Error>)
        ensures
            field_view(r) == match self.sid {
                Some(sid) => Ok(sid@),
                None => Err(ErrorView::Field("sid"@)),
            },
    {
        match &self.sid {
            Some(sid) => Ok(sid.copy()),
            None => Err(Error::Field("sid".to_owned())),
        }
    }

    /// What an entry about an object says of it.
    pub fn object_flags(&self) -> (r: Result<u32, Error>)
        ensures
            outcome(r) == part(self.object_flags, "object_flags"@),
    {
        match self.object_flags {
            Some(flags) => Ok(flags),
            None => Err(Error::Field("object_flags".to_owned())),
        }
    }

    /// The type of the object that an entry is about, if it says so.
    pub fn object_type(&self) -> (r: Result<Option<u128>, Error>)
        ensures
            outcome(r) == object_part(*self, self.object_type, "object_type"@),
    {
        if self.object_flags.is_none() {
            return Err(Error::Field("object_type".to_owned()));
        }
        Ok(self.object_type)
    }

    /// The type of the objects that inherit an entry, if it says so.
    pub fn inherited_object_type(&self) -> (r: Result<Option<u128>, Error>)
        ensures
            outcome(r) == object_part(
                *self,
                self.inherited_object_type,
                "inherited_object_type"@,
            ),
    {
        if self.object_flags.is_none() {
            return Err(Error::Field("inherited_object_type".to_owned()));
        }
        Ok(self.inherited_object_type)
    }

    /// The data that the entry carries, if it does.
    pub fn application_data(&self) -> (r: Result<Vec<u8>, Error>)
        ensures
            viewed(r) == match self.application_data {
                Some(data) => Ok(data@),
                None => Err(ErrorView::Field("application_data"@)),
            },
    {
        match &self.application_data {
            Some(data) => Ok(copy_bytes(data)),
            None => Err(Error::Field("application_data".to_owned())),
        }
    }

    /// Whether the entry records successful access, if it records access.
    pub fn successful_access(&self) -> (r: Result<bool, Error>)
        ensures
            outcome(r) == audit_part(*self, 0x40, "successful_access"@),
    {
        if !ace_is_audit(self.ace_type) {
            return Err(Error::Field("successful_access".to_owned()));
        }
        Ok(ace_flag(self, 0x40))
    }

    /// Whether the entry records failed access, if it records access.
    pub fn failed_access(&self) -> (r: Result<bool, Error>)
        ensures
            outcome(r) == audit_part(*self, 0x80, "failed_access"@),
    {
        if !ace_is_audit(self.ace_type) {
            return Err(Error::Field("failed_access".to_owned()));
        }
        Ok(ace_flag(self, 0x80))
    }

    /// Whether an access filter is protected by trust.
    pub fn trust_protected_filter(&self) -> (r: Result<bool, Error>)
        ensures
            outcome(r) == if self.ace_type is SystemAccessFilter {
                Ok(self.flags & 0x40 == 0x40)
            } else {
                Err(ErrorView::Field("trust_protected_filter"@))
            },
    {
        match self.ace_type {
            AceType::SystemAccessFilter => Ok(ace_flag(self, 0x40)),
            _ => Err(Error::Field("trust_protected_filter".to_owned())),
        }
    }
}

/// What an account is.
#[derive(Clone, Copy, Debug, PartialEq, Eq, Structural)]
pub enum SidNameUse {
    User,
    Group,
    Domain,
    Alias,
    WellKnownGroup,
    DeletedAccount,
    Invalid,
    Unknown,
    Computer,
    Label,
    LogonSession,
}

/// An account: its identifier, its name, and the domain that it belongs to.
#[derive(Debug)]
pub struct SidName {
    pub sid: Sid,
    pub name: String,
    pub domain: String,
    pub kind: SidNameUse,
}

/// An account as a program sees it.
pub fn create_sid_name(sid: Sid, name: String, domain: String, kind: SidNameUse) -> (r: SidName)
    ensures
        r == (SidName { sid, name, domain, kind }),
{
    SidName { sid, name, domain, kind }
}

/// The symbol of what an account is.
pub open spec fn use_symbol(kind: SidNameUse) -> Seq<char> {
    match kind {
        SidNameUse::User => "USER"@,
        SidNameUse::Group => "GROUP"@,
        SidNameUse::Domain => "DOMAIN"@,
        SidNameUse::Alias => "ALIAS"@,
        SidNameUse::WellKnownGroup => "WELL_KNOWN_GROUP"@,
        SidNameUse::DeletedAccount => "DELETED_ACCOUNT"@,
        SidNameUse::Invalid => "INVALID"@,
        SidNameUse::Unknown => "UNKNOWN"@,
        SidNameUse::Computer => "COMPUTER"@,
        SidNameUse::Label => "LABEL"@,
        SidNameUse::LogonSession => "LOGON_SESSION"@,
    }
}

impl SidName {
    /// The name with the domain before it, if there is one.
    pub fn qualified_name(&self) -> (s: String)
        ensures
            s@ == if self.domain@.len() == 0 {
                self.name@
            } else {
                self.domain@ + "\\"@ + self.name@
            },
    {
        if self.domain.as_str().is_empty() {
            return self.name.clone();
        }
        let mut s = self.domain.clone();
        s.append("\\");
        s.append(self.name.as_str());
        s
    }

    /// The symbol of what the account is.
    pub fn kind_sym(&self) -> (s: &'static str)
        ensures
            s@ == use_symbol(self.kind),
    {
        match self.kind {
            SidNameUse::User => "USER",
            SidNameUse::Group => "GROUP",
            SidNameUse::Domain => "DOMAIN",
            SidNameUse::Alias => "ALIAS",
            SidNameUse::WellKnownGroup => "WELL_KNOWN_GROUP",
            SidNameUse::DeletedAccount => "DELETED_ACCOUNT",
            SidNameUse::Invalid => "INVALID",
            SidNameUse::Unknown => "UNKNOWN",
            SidNameUse::Computer => "COMPUTER",
            SidNameUse::Label => "LABEL",
            SidNameUse::LogonSession => "LOGON_SESSION",
        }
    }
}

/// A group of an access token.
#[derive(Debug)]
pub struct TokenGroup {
    pub sid: Sid,
    pub attributes: u32,
}

/// The content of a [`TokenGroup`].
pub struct TokenGroupView {
    pub sid: SidView,
    pub attributes: u32,
}

impl View for TokenGroup {
    type V = TokenGroupView;

    open spec fn view(&self) -> TokenGroupView {
        TokenGroupView { sid: self.sid@, attributes: self.attributes }
    }
}

/// The groups of an access token, by their content.
pub open spec fn group_views(groups: Seq<TokenGroup>) -> Seq<TokenGroupView> {
    groups.map_values(|g: TokenGroup| g@)
}

impl TokenGroup {
    /// The same group.
    pub fn copy(&self) -> (r: TokenGroup)
        ensures
            r@ == self@,
    {
        TokenGroup { sid: self.sid.copy(), attributes: self.attributes }
    }

    /// Whether all of some attributes are set.
    pub fn flag(&self, attributes: u32) -> (r: bool)
        ensures
            r == (self.attributes & attributes == attributes),
    {
        self.attributes & attributes == attributes
    }
}

/// What an access token says of its holder.
#[derive(Debug)]
pub struct WindowsTokenInfo {
    pub is_elevated: bool,
    pub user_sid: Sid,
    pub owner_sid: Sid,
    pub primary_group_sid: Sid,
    pub groups: Vec<TokenGroup>,
    pub logon_sid: Option<Sid>,
}

/// An access token, as a program sees it.
#[derive(Debug)]
pub struct TokenInfo {
    pub is_elevated: bool,
    pub user_sid: Sid,
    pub owner_sid: Sid,
    pub primary_group_sid: Sid,
    pub groups: Vec<TokenGroup>,
    pub logon_sid: Option<Sid>,
}

/// An access token, as a program sees it.
pub fn create_token_info(info: &WindowsTokenInfo) -> (r: TokenInfo)
    ensures
        r.shows(*info),
{
    let mut groups: Vec<TokenGroup> = Vec::new();
    let mut i: usize = 0;
    while i < info.groups.len()
        invariant
            i <= info.groups@.len(),
            groups@.len() == i,
            forall|j: int| 0 <= j < i ==> (#[trigger] groups@[j])@ == info.groups@[j]@,
        decreases info.groups@.len() - i,
    {
        groups.push(info.groups[i].copy());
        i = i + 1;
    }
    assert(group_views(groups@) =~= group_views(info.groups@));
    TokenInfo {
        is_elevated: info.is_elevated,
        user_sid: info.user_sid.copy(),
        owner_sid: info.owner_sid.copy(),
        primary_group_sid: info.primary_group_sid.copy(),
        groups,
        logon_sid: match &info.logon_sid {
            Some(sid) => Some(sid.copy()),
            None => None,
        },
    }
}

impl TokenInfo {
    /// Whether this is what a program sees of a token: all that it says, and
    /// its groups in their order.
    pub open spec fn shows(self, info: WindowsTokenInfo) -> bool {
        &&& self.is_elevated == info.is_elevated
        &&& self.user_sid@ == info.user_sid@
        &&& self.owner_sid@ == info.owner_sid@
        &&& self.primary_group_sid@ == info.primary_group_sid@
        &&& group_views(self.groups@) == group_views(info.groups@)
        &&& sid_option(self.logon_sid) == sid_option(info.logon_sid)
    }

    /// How many groups the token has.
    pub fn group_count(&self) -> (n: usize)
        ensures
            n == self.groups@.len(),
    {
        self.groups.len()
    }

    /// One group of the token: its identifier and its attributes.
    pub fn group(&self, index: usize) -> (r: TokenGroup)
        requires
            index < self.groups@.len(),
        ensures
            r@ == self.groups@[index as int]@,
    {
        self.groups[index].copy()
    }
}

/// An entry that records access says so in exactly one of two fields of its
/// own, and an access filter in another: no entry has both.
pub proof fn flag_fields_do_not_overlap(ace: AceRecord)
    ensures
        !(audit_part(ace, 0x40, "successful_access"@) is Ok && ace.ace_type is SystemAccessFilter),
        audit_part(ace, 0x40, "successful_access"@) is Ok <==> audit_part(
            ace,
            0x80,
            "failed_access"@,
        ) is Ok,
{
}

} // verus!

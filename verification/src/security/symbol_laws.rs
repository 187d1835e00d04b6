//! How entries, accounts and authorities are called.

use vstd::prelude::*;
use crate::security::model::{AceType, Nfs4Qualifier, PosixQualifier};
use crate::security::nfs4::principal_symbol;
use crate::security::records::{kind_symbol, records_access, use_symbol, SidNameUse};
use crate::security::sid::authority_name;
use crate::security::unix::qualifier_symbol;

verus! {

broadcast use vstd::string::group_string_axioms;

/// What an entry does, as far as it allows, denies or records access.
pub open spec fn deed(kind: AceType) -> Option<Seq<char>> {
    match kind {
        AceType::AccessAllowed
        | AceType::AccessAllowedObject
        | AceType::AccessAllowedCallback
        | AceType::AccessAllowedCallbackObject => Some("ACCESS_ALLOWED"@),
        AceType::AccessDenied
        | AceType::AccessDeniedObject
        | AceType::AccessDeniedCallback
        | AceType::AccessDeniedCallbackObject => Some("ACCESS_DENIED"@),
        AceType::SystemAudit
        | AceType::SystemAuditObject
        | AceType::SystemAuditCallback
        | AceType::SystemAuditCallbackObject => Some("SYSTEM_AUDIT"@),
        AceType::SystemAlarm
        | AceType::SystemAlarmObject
        | AceType::SystemAlarmCallback
        | AceType::SystemAlarmCallbackObject => Some("SYSTEM_ALARM"@),
        _ => None,
    }
}

/// Whether an entry has a condition.
pub open spec fn conditional(kind: AceType) -> bool {
    kind is AccessAllowedCallback || kind is AccessAllowedCallbackObject
        || kind is AccessDeniedCallback || kind is AccessDeniedCallbackObject
        || kind is SystemAuditCallback || kind is SystemAuditCallbackObject
        || kind is SystemAlarmCallback || kind is SystemAlarmCallbackObject
}

/// Whether an entry is about an object.
pub open spec fn objective(kind: AceType) -> bool {
    kind is AccessAllowedObject || kind is AccessAllowedCallbackObject || kind is AccessDeniedObject
        || kind is AccessDeniedCallbackObject || kind is SystemAuditObject
        || kind is SystemAuditCallbackObject || kind is SystemAlarmObject
        || kind is SystemAlarmCallbackObject
}

/// The symbol of an entry's kind says what the entry does, then whether it has
/// a condition, then whether it is about an object; the entries that record
/// access are those that audit or alarm.
pub proof fn kinds_are_called_by_what_they_do(kind: AceType)
    ensures
        deed(kind) matches Some(word) ==> kind_symbol(kind) == word + (if conditional(kind) {
            "_CALLBACK"@
        } else {
            Seq::empty()
        }) + (if objective(kind) {
            "_OBJECT"@
        } else {
            Seq::empty()
        }),
        records_access(kind) <==> deed(kind) == Some("SYSTEM_AUDIT"@) || deed(kind) == Some(
            "SYSTEM_ALARM"@,
        ),
{
    reveal_strlit("ACCESS_ALLOWED");
    reveal_strlit("ACCESS_ALLOWED_CALLBACK");
    reveal_strlit("ACCESS_ALLOWED_CALLBACK_OBJECT");
    reveal_strlit("ACCESS_ALLOWED_OBJECT");
    reveal_strlit("ACCESS_DENIED");
    reveal_strlit("ACCESS_DENIED_CALLBACK");
    reveal_strlit("ACCESS_DENIED_CALLBACK_OBJECT");
    reveal_strlit("ACCESS_DENIED_OBJECT");
    reveal_strlit("SYSTEM_ALARM");
    reveal_strlit("SYSTEM_ALARM_CALLBACK");
    reveal_strlit("SYSTEM_ALARM_CALLBACK_OBJECT");
    reveal_strlit("SYSTEM_ALARM_OBJECT");
    reveal_strlit("SYSTEM_AUDIT");
    reveal_strlit("SYSTEM_AUDIT_CALLBACK");
    reveal_strlit("SYSTEM_AUDIT_CALLBACK_OBJECT");
    reveal_strlit("SYSTEM_AUDIT_OBJECT");
    reveal_strlit("_CALLBACK");
    reveal_strlit("_OBJECT");
    assert("ACCESS_ALLOWED"@ =~= "ACCESS_ALLOWED"@ + Seq::<char>::empty() + Seq::<char>::empty());
    assert("ACCESS_ALLOWED_OBJECT"@ =~= "ACCESS_ALLOWED"@ + Seq::<char>::empty() + "_OBJECT"@);
    assert("ACCESS_ALLOWED_CALLBACK"@ =~= "ACCESS_ALLOWED"@ + "_CALLBACK"@ + Seq::<char>::empty());
    assert("ACCESS_ALLOWED_CALLBACK_OBJECT"@ =~= "ACCESS_ALLOWED"@ + "_CALLBACK"@ + "_OBJECT"@);
    assert("ACCESS_DENIED"@ =~= "ACCESS_DENIED"@ + Seq::<char>::empty() + Seq::<char>::empty());
    assert("ACCESS_DENIED_OBJECT"@ =~= "ACCESS_DENIED"@ + Seq::<char>::empty() + "_OBJECT"@);
    assert("ACCESS_DENIED_CALLBACK"@ =~= "ACCESS_DENIED"@ + "_CALLBACK"@ + Seq::<char>::empty());
    assert("ACCESS_DENIED_CALLBACK_OBJECT"@ =~= "ACCESS_DENIED"@ + "_CALLBACK"@ + "_OBJECT"@);
    assert("SYSTEM_AUDIT"@ =~= "SYSTEM_AUDIT"@ + Seq::<char>::empty() + Seq::<char>::empty());
    assert("SYSTEM_AUDIT_OBJECT"@ =~= "SYSTEM_AUDIT"@ + Seq::<char>::empty() + "_OBJECT"@);
    assert("SYSTEM_AUDIT_CALLBACK"@ =~= "SYSTEM_AUDIT"@ + "_CALLBACK"@ + Seq::<char>::empty());
    assert("SYSTEM_AUDIT_CALLBACK_OBJECT"@ =~= "SYSTEM_AUDIT"@ + "_CALLBACK"@ + "_OBJECT"@);
    assert("SYSTEM_ALARM"@ =~= "SYSTEM_ALARM"@ + Seq::<char>::empty() + Seq::<char>::empty());
    assert("SYSTEM_ALARM_OBJECT"@ =~= "SYSTEM_ALARM"@ + Seq::<char>::empty() + "_OBJECT"@);
    assert("SYSTEM_ALARM_CALLBACK"@ =~= "SYSTEM_ALARM"@ + "_CALLBACK"@ + Seq::<char>::empty());
    assert("SYSTEM_ALARM_CALLBACK_OBJECT"@ =~= "SYSTEM_ALARM"@ + "_CALLBACK"@ + "_OBJECT"@);
    assert("SYSTEM_AUDIT"@[7] == 'A' && "SYSTEM_AUDIT"@[8] == 'U' && "SYSTEM_ALARM"@[8] == 'L');
    assert("ACCESS_ALLOWED"@[0] == 'A' && "ACCESS_DENIED"@[0] == 'A' && "SYSTEM_AUDIT"@[0] == 'S'
        && "SYSTEM_ALARM"@[0] == 'S');
}

/// The other kinds have symbols of their own, and no two kinds share one.
pub proof fn kinds_are_told_apart(a: AceType, b: AceType)
    ensures
        kind_symbol(a) == kind_symbol(b) ==> a == b,
        kind_symbol(a) == "ACCESS_ALLOWED_COMPOUND"@ <==> a is AccessAllowedCompound,
        kind_symbol(a) == "SYSTEM_MANDATORY_LABEL"@ <==> a is SystemMandatoryLabel,
        kind_symbol(a) == "SYSTEM_RESOURCE_ATTRIBUTE"@ <==> a is SystemResourceAttribute,
        kind_symbol(a) == "SYSTEM_SCOPED_POLICY_ID"@ <==> a is SystemScopedPolicyId,
        kind_symbol(a) == "SYSTEM_PROCESS_TRUST_LABEL"@ <==> a is SystemProcessTrustLabel,
        kind_symbol(a) == "SYSTEM_ACCESS_FILTER"@ <==> a is SystemAccessFilter,
        kind_symbol(a) == "UNKNOWN"@ <==> a is Unknown,
{
    reveal_strlit("ACCESS_ALLOWED");
    reveal_strlit("ACCESS_ALLOWED_OBJECT");
    reveal_strlit("ACCESS_ALLOWED_CALLBACK");
    reveal_strlit("ACCESS_ALLOWED_CALLBACK_OBJECT");
    reveal_strlit("ACCESS_DENIED");
    reveal_strlit("ACCESS_DENIED_OBJECT");
    reveal_strlit("ACCESS_DENIED_CALLBACK");
    reveal_strlit("ACCESS_DENIED_CALLBACK_OBJECT");
    reveal_strlit("SYSTEM_AUDIT");
    reveal_strlit("SYSTEM_AUDIT_OBJECT");
    reveal_strlit("SYSTEM_AUDIT_CALLBACK");
    reveal_strlit("SYSTEM_AUDIT_CALLBACK_OBJECT");
    reveal_strlit("SYSTEM_ALARM");
    reveal_strlit("SYSTEM_ALARM_OBJECT");
    reveal_strlit("SYSTEM_ALARM_CALLBACK");
    reveal_strlit("SYSTEM_ALARM_CALLBACK_OBJECT");
    reveal_strlit("ACCESS_ALLOWED_COMPOUND");
    reveal_strlit("SYSTEM_MANDATORY_LABEL");
    reveal_strlit("SYSTEM_RESOURCE_ATTRIBUTE");
    reveal_strlit("SYSTEM_SCOPED_POLICY_ID");
    reveal_strlit("SYSTEM_PROCESS_TRUST_LABEL");
    reveal_strlit("SYSTEM_ACCESS_FILTER");
    reveal_strlit("UNKNOWN");
    assert("ACCESS_ALLOWED"@.len() == 14);
    assert("ACCESS_ALLOWED_OBJECT"@.len() == 21 && "ACCESS_ALLOWED_OBJECT"@[0] == 'A');
    assert("ACCESS_ALLOWED_CALLBACK"@.len() == 23 && "ACCESS_ALLOWED_CALLBACK"@[16] == 'A');
    assert("ACCESS_ALLOWED_CALLBACK_OBJECT"@.len() == 30);
    assert("ACCESS_DENIED"@.len() == 13);
    assert("ACCESS_DENIED_OBJECT"@.len() == 20 && "ACCESS_DENIED_OBJECT"@[0] == 'A');
    assert("ACCESS_DENIED_CALLBACK"@.len() == 22 && "ACCESS_DENIED_CALLBACK"@[0] == 'A');
    assert("ACCESS_DENIED_CALLBACK_OBJECT"@.len() == 29);
    assert("SYSTEM_AUDIT"@.len() == 12 && "SYSTEM_AUDIT"@[8] == 'U');
    assert("SYSTEM_AUDIT_OBJECT"@.len() == 19 && "SYSTEM_AUDIT_OBJECT"@[8] == 'U');
    assert("SYSTEM_AUDIT_CALLBACK"@.len() == 21 && "SYSTEM_AUDIT_CALLBACK"@[0] == 'S'
        && "SYSTEM_AUDIT_CALLBACK"@[8] == 'U');
    assert("SYSTEM_AUDIT_CALLBACK_OBJECT"@.len() == 28
        && "SYSTEM_AUDIT_CALLBACK_OBJECT"@[8] == 'U');
    assert("SYSTEM_ALARM"@.len() == 12 && "SYSTEM_ALARM"@[8] == 'L');
    assert("SYSTEM_ALARM_OBJECT"@.len() == 19 && "SYSTEM_ALARM_OBJECT"@[8] == 'L');
    assert("SYSTEM_ALARM_CALLBACK"@.len() == 21 && "SYSTEM_ALARM_CALLBACK"@[0] == 'S'
        && "SYSTEM_ALARM_CALLBACK"@[8] == 'L');
    assert("SYSTEM_ALARM_CALLBACK_OBJECT"@.len() == 28
        && "SYSTEM_ALARM_CALLBACK_OBJECT"@[8] == 'L');
    assert("ACCESS_ALLOWED_COMPOUND"@.len() == 23 && "ACCESS_ALLOWED_COMPOUND"@[16] == 'O');
    assert("SYSTEM_MANDATORY_LABEL"@.len() == 22 && "SYSTEM_MANDATORY_LABEL"@[0] == 'S');
    assert("SYSTEM_RESOURCE_ATTRIBUTE"@.len() == 25);
    assert("SYSTEM_SCOPED_POLICY_ID"@.len() == 23 && "SYSTEM_SCOPED_POLICY_ID"@[16] == 'L');
    assert("SYSTEM_PROCESS_TRUST_LABEL"@.len() == 26);
    assert("SYSTEM_ACCESS_FILTER"@.len() == 20 && "SYSTEM_ACCESS_FILTER"@[0] == 'S');
    assert("UNKNOWN"@.len() == 7);
}

/// An account is called by what it is.
pub proof fn accounts_are_called_by_what_they_are(kind: SidNameUse)
    ensures
        use_symbol(kind) == "USER"@ <==> kind is User,
        use_symbol(kind) == "GROUP"@ <==> kind is Group,
        use_symbol(kind) == "DOMAIN"@ <==> kind is Domain,
        use_symbol(kind) == "ALIAS"@ <==> kind is Alias,
        use_symbol(kind) == "WELL_KNOWN_GROUP"@ <==> kind is WellKnownGroup,
        use_symbol(kind) == "DELETED_ACCOUNT"@ <==> kind is DeletedAccount,
        use_symbol(kind) == "INVALID"@ <==> kind is Invalid,
        use_symbol(kind) == "UNKNOWN"@ <==> kind is Unknown,
        use_symbol(kind) == "COMPUTER"@ <==> kind is Computer,
        use_symbol(kind) == "LABEL"@ <==> kind is Label,
        use_symbol(kind) == "LOGON_SESSION"@ <==> kind is LogonSession,
{
    reveal_strlit("USER");
    reveal_strlit("GROUP");
    reveal_strlit("DOMAIN");
    reveal_strlit("ALIAS");
    reveal_strlit("WELL_KNOWN_GROUP");
    reveal_strlit("DELETED_ACCOUNT");
    reveal_strlit("INVALID");
    reveal_strlit("UNKNOWN");
    reveal_strlit("COMPUTER");
    reveal_strlit("LABEL");
    reveal_strlit("LOGON_SESSION");
    assert("USER"@.len() == 4);
    assert("GROUP"@.len() == 5 && "GROUP"@[0] == 'G');
    assert("DOMAIN"@.len() == 6);
    assert("ALIAS"@.len() == 5 && "ALIAS"@[0] == 'A');
    assert("WELL_KNOWN_GROUP"@.len() == 16);
    assert("DELETED_ACCOUNT"@.len() == 15);
    assert("INVALID"@.len() == 7 && "INVALID"@[0] == 'I');
    assert("UNKNOWN"@.len() == 7 && "UNKNOWN"@[0] == 'U');
    assert("COMPUTER"@.len() == 8);
    assert("LABEL"@.len() == 5 && "LABEL"@[0] == 'L');
    assert("LOGON_SESSION"@.len() == 13);
}

/// An authority is called by its name, if it has one.
pub proof fn authorities_are_called_by_name(authority: u64)
    ensures
        authority_name(authority) == Some("NULL"@) <==> authority == 0,
        authority_name(authority) == Some("WORLD"@) <==> authority == 1,
        authority_name(authority) == Some("LOCAL"@) <==> authority == 2,
        authority_name(authority) == Some("CREATOR"@) <==> authority == 3,
        authority_name(authority) == Some("NON_UNIQUE"@) <==> authority == 4,
        authority_name(authority) == Some("NT"@) <==> authority == 5,
        authority_name(authority) == Some("RESOURCE_MANAGER"@) <==> authority == 9,
        authority_name(authority) == Some("APP_PACKAGE"@) <==> authority == 15,
        authority_name(authority) == Some("MANDATORY_LABEL"@) <==> authority == 16,
        authority_name(authority) == Some("SCOPED_POLICY"@) <==> authority == 17,
        authority_name(authority) == Some("AUTHENTICATION"@) <==> authority == 18,
        authority_name(authority) == Some("PROCESS_TRUST"@) <==> authority == 19,
{
    reveal_strlit("NULL");
    reveal_strlit("WORLD");
    reveal_strlit("LOCAL");
    reveal_strlit("CREATOR");
    reveal_strlit("NON_UNIQUE");
    reveal_strlit("NT");
    reveal_strlit("RESOURCE_MANAGER");
    reveal_strlit("APP_PACKAGE");
    reveal_strlit("MANDATORY_LABEL");
    reveal_strlit("SCOPED_POLICY");
    reveal_strlit("AUTHENTICATION");
    reveal_strlit("PROCESS_TRUST");
    assert("NULL"@.len() == 4);
    assert("WORLD"@.len() == 5 && "WORLD"@[0] == 'W');
    assert("LOCAL"@.len() == 5 && "LOCAL"@[0] == 'L');
    assert("CREATOR"@.len() == 7);
    assert("NON_UNIQUE"@.len() == 10);
    assert("NT"@.len() == 2);
    assert("RESOURCE_MANAGER"@.len() == 16);
    assert("APP_PACKAGE"@.len() == 11);
    assert("MANDATORY_LABEL"@.len() == 15);
    assert("SCOPED_POLICY"@.len() == 13 && "SCOPED_POLICY"@[0] == 'S');
    assert("AUTHENTICATION"@.len() == 14);
    assert("PROCESS_TRUST"@.len() == 13 && "PROCESS_TRUST"@[0] == 'P');
}

/// Whom an entry of a Unix list is about is called by its name.
pub proof fn unix_qualifiers_are_called_by_name(qualifier: PosixQualifier)
    ensures
        qualifier_symbol(qualifier) == "USER_OBJ"@ <==> qualifier is UserObj,
        qualifier_symbol(qualifier) == "USER"@ <==> qualifier is User,
        qualifier_symbol(qualifier) == "GROUP_OBJ"@ <==> qualifier is GroupObj,
        qualifier_symbol(qualifier) == "GROUP"@ <==> qualifier is Group,
        qualifier_symbol(qualifier) == "MASK"@ <==> qualifier is Mask,
        qualifier_symbol(qualifier) == "OTHER"@ <==> qualifier is Other,
{
    reveal_strlit("USER_OBJ");
    reveal_strlit("USER");
    reveal_strlit("GROUP_OBJ");
    reveal_strlit("GROUP");
    reveal_strlit("MASK");
    reveal_strlit("OTHER");
    assert("USER_OBJ"@.len() == 8);
    assert("USER"@.len() == 4 && "USER"@[0] == 'U');
    assert("GROUP_OBJ"@.len() == 9);
    assert("GROUP"@.len() == 5 && "GROUP"@[0] == 'G');
    assert("MASK"@.len() == 4 && "MASK"@[0] == 'M');
    assert("OTHER"@.len() == 5 && "OTHER"@[0] == 'O');
}

/// Whom an entry of an NFS list is about is called by its name.
pub proof fn nfs4_principals_are_called_by_name(qualifier: Nfs4Qualifier)
    ensures
        principal_symbol(qualifier) == "OWNER"@ <==> qualifier is Owner,
        principal_symbol(qualifier) == "OWNING_GROUP"@ <==> qualifier is OwningGroup,
        principal_symbol(qualifier) == "EVERYONE"@ <==> qualifier is Everyone,
        principal_symbol(qualifier) == "USER"@ <==> qualifier is User,
        principal_symbol(qualifier) == "GROUP"@ <==> qualifier is Group,
{
    reveal_strlit("OWNER");
    reveal_strlit("OWNING_GROUP");
    reveal_strlit("EVERYONE");
    reveal_strlit("USER");
    reveal_strlit("GROUP");
    assert("OWNER"@.len() == 5 && "OWNER"@[0] == 'O');
    assert("OWNING_GROUP"@.len() == 12);
    assert("EVERYONE"@.len() == 8);
    assert("USER"@.len() == 4);
    assert("GROUP"@.len() == 5 && "GROUP"@[0] == 'G');
}

} // verus!

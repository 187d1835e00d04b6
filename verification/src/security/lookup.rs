//! Asking who somebody is.

use vstd::prelude::*;
use crate::error::{outcome, viewed, Error, ErrorView};
use crate::security::macos::{id_query, resolve_uid_or_gid_arg, IdQuery, PrincipalIdKind};
use crate::security::model::{Sid, SidView, SpecValue};
use crate::security::records::{create_token_info, TokenInfo, WindowsTokenInfo};
use crate::security::unix::{create_identity, Identity, UnixSecurityInfo};
use crate::shell::sys::{OperatingSystemFamily, Target};

verus! {

broadcast use vstd::string::group_string_axioms;

/// The credentials of the process that commands run in.
#[derive(Debug)]
pub enum SecurityInfo {
    Unix(UnixSecurityInfo),
    Windows(WindowsTokenInfo),
}

impl SecurityInfo {
    /// Whether the credentials are those of a system of this family.
    pub open spec fn belongs_to(self, family: OperatingSystemFamily) -> bool {
        match family {
            OperatingSystemFamily::Unix => self is Unix,
            OperatingSystemFamily::Windows => self is Windows,
        }
    }
}

/// By what the name of the current user is found.
#[derive(Debug)]
pub enum UserQuery {
    Uid(u32),
    Sid(Sid),
}

/// The content of a [`UserQuery`].
pub enum UserQueryView {
    Uid(u32),
    Sid(SidView),
}

impl View for UserQuery {
    type V = UserQueryView;

    open spec fn view(&self) -> UserQueryView {
        match self {
            UserQuery::Uid(n) => UserQueryView::Uid(*n),
            UserQuery::Sid(sid) => UserQueryView::Sid(sid@),
        }
    }
}

/// By what the name of the current user is found: the real user on Unix, the
/// user of the access token on Windows.
pub fn user_query(family: OperatingSystemFamily, security: &SecurityInfo) -> (r: UserQuery)
    requires
        security.belongs_to(family),
    ensures
        r@ == match *security {
            SecurityInfo::Unix(info) => UserQueryView::Uid(info.uid),
            SecurityInfo::Windows(info) => UserQueryView::Sid(info.user_sid@),
        },
{
    match security {
        SecurityInfo::Unix(info) => UserQuery::Uid(info.uid),
        SecurityInfo::Windows(info) => UserQuery::Sid(info.user_sid.copy()),
    }
}

/// The credentials of a Unix process; there are none elsewhere.
pub fn id(security: &SecurityInfo) -> (r: Result<Identity, Error>)
    ensures
        match *security {
            SecurityInfo::Unix(info) => r matches Ok(identity) && identity.uid == info.uid
                && identity.gid == info.gid && identity.euid == info.effective_uid
                && identity.egid == info.effective_gid && identity.groups@ == info.groups@,
            SecurityInfo::Windows(_) => r is Err && r->Err_0@ == ErrorView::NotSupported,
        },
{
    match security {
        SecurityInfo::Unix(info) => Ok(create_identity(info)),
        SecurityInfo::Windows(_) => Err(Error::NotSupported),
    }
}

/// The access token of a Windows process; there is none elsewhere.
pub fn token_info(security: &SecurityInfo) -> (r: Result<TokenInfo, Error>)
    ensures
        match *security {
            SecurityInfo::Windows(info) => r matches Ok(token) && token.shows(info),
            SecurityInfo::Unix(_) => r is Err && r->Err_0@ == ErrorView::NotSupported,
        },
{
    match security {
        SecurityInfo::Windows(info) => Ok(create_token_info(info)),
        SecurityInfo::Unix(_) => Err(Error::NotSupported),
    }
}

/// How the number of a user or a group is found on Unix.
pub open spec fn unix_id_query(value: SpecValue, target: Target, want: PrincipalIdKind) -> Result<
    IdQuery,
    ErrorView,
> {
    if !(target.family is Unix) {
        Err(ErrorView::NotSupported)
    } else {
        id_query(value, target.os, want)
    }
}

/// How the number of the user is found whose name is asked for.
pub fn user_name(value: &SpecValue, target: &Target) -> (r: Result<IdQuery, Error>)
    ensures
        outcome(r) == unix_id_query(*value, *target, PrincipalIdKind::Uid),
{
    if target.family != OperatingSystemFamily::Unix {
        return Err(Error::NotSupported);
    }
    resolve_uid_or_gid_arg(value, target.os, PrincipalIdKind::Uid)
}

/// How the number of the group is found whose name is asked for.
pub fn group_name(value: &SpecValue, target: &Target) -> (r: Result<IdQuery, Error>)
    ensures
        outcome(r) == unix_id_query(*value, *target, PrincipalIdKind::Gid),
{
    if target.family != OperatingSystemFamily::Unix {
        return Err(Error::NotSupported);
    }
    resolve_uid_or_gid_arg(value, target.os, PrincipalIdKind::Gid)
}

/// The name whose number is asked for on Unix.
pub open spec fn unix_name(value: SpecValue, target: Target, message: Seq<char>) -> Result<
    Seq<char>,
    ErrorView,
> {
    if !(target.family is Unix) {
        Err(ErrorView::NotSupported)
    } else {
        match value {
            SpecValue::Str(name, _) => Ok(name@),
            _ => Err(ErrorView::Type(message)),
        }
    }
}

/// The name of the user whose number is asked for.
pub fn user_id(value: &SpecValue, target: &Target) -> (r: Result<String, Error>)
    ensures
        viewed(r) == unix_name(*value, *target, "user_id: expected Str"@),
{
    if target.family != OperatingSystemFamily::Unix {
        return Err(Error::NotSupported);
    }
    match value {
        SpecValue::Str(name, _) => Ok(name.clone()),
        _ => Err(Error::Type("user_id: expected Str".to_owned())),
    }
}

/// The name of the group whose number is asked for.
pub fn group_id(value: &SpecValue, target: &Target) -> (r: Result<String, Error>)
    ensures
        viewed(r) == unix_name(*value, *target, "group_id: expected Str"@),
{
    if target.family != OperatingSystemFamily::Unix {
        return Err(Error::NotSupported);
    }
    match value {
        SpecValue::Str(name, _) => Ok(name.clone()),
        _ => Err(Error::Type("group_id: expected Str".to_owned())),
    }
}

} // verus!

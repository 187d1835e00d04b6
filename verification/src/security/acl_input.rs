//! Lists of any kind, as files take them.

use vstd::prelude::*;
use crate::error::{outcome, Error, ErrorView};
use crate::security::model::{copy_list, MacosAce, Nfs4Ace, PosixAce, SpecValue};
use crate::security::path::SpecPath;
use crate::security::{macos, nfs4, unix};
use crate::security::macos::create_macos_acl;
use crate::security::nfs4::create_nfs4_acl;
use crate::security::unix::create_posix_acl;
use crate::text::str_eq;

verus! {

broadcast use vstd::string::group_string_axioms;

/// The kinds of lists.
#[derive(Clone, Copy, Debug, PartialEq, Eq, Structural)]
pub enum AclKind {
    Posix,
    Nfs4,
    Macos,
}

/// A list of some kind.
#[derive(Debug)]
pub enum AnyAcl {
    Posix(Vec<PosixAce>),
    Nfs4(Vec<Nfs4Ace>),
    Macos(Vec<MacosAce>),
    /// A list of a kind that programs do not see.
    Other,
}

/// The content of an [`AnyAcl`].
pub enum AnyAclView {
    Posix(Seq<PosixAce>),
    Nfs4(Seq<Nfs4Ace>),
    Macos(Seq<MacosAce>),
    Other,
}

impl View for AnyAcl {
    type V = AnyAclView;

    open spec fn view(&self) -> AnyAclView {
        match self {
            AnyAcl::Posix(v) => AnyAclView::Posix(v@),
            AnyAcl::Nfs4(v) => AnyAclView::Nfs4(v@),
            AnyAcl::Macos(v) => AnyAclView::Macos(v@),
            AnyAcl::Other => AnyAclView::Other,
        }
    }
}

/// A list as a program sees it: none is nil.
pub fn create_any_acl(acl: Option<AnyAcl>) -> (value: SpecValue)
    ensures
        value == match acl {
            Some(AnyAcl::Posix(v)) => SpecValue::PosixAcl(v),
            Some(AnyAcl::Nfs4(v)) => SpecValue::Nfs4Acl(v),
            Some(AnyAcl::Macos(v)) => SpecValue::MacosAcl(v),
            _ => SpecValue::Nil,
        },
{
    match acl {
        Some(AnyAcl::Posix(v)) => create_posix_acl(Some(v)),
        Some(AnyAcl::Nfs4(v)) => create_nfs4_acl(Some(v)),
        Some(AnyAcl::Macos(v)) => create_macos_acl(Some(v)),
        _ => SpecValue::Nil,
    }
}

/// The list that a value is, if it is one.
pub open spec fn built(value: SpecValue) -> Option<(AclKind, AnyAclView)> {
    match value {
        SpecValue::PosixAcl(v) => Some((AclKind::Posix, AnyAclView::Posix(v@))),
        SpecValue::Nfs4Acl(v) => Some((AclKind::Nfs4, AnyAclView::Nfs4(v@))),
        SpecValue::MacosAcl(v) => Some((AclKind::Macos, AnyAclView::Macos(v@))),
        _ => None,
    }
}

/// The list that a value is, if it is one.
pub fn built_acl_from_value(value: &SpecValue) -> (r: Option<(AclKind, AnyAcl)>)
    ensures
        match r {
            Some((kind, acl)) => built(*value) == Some((kind, acl@)),
            None => built(*value) is None,
        },
{
    match value {
        SpecValue::PosixAcl(v) => Some((AclKind::Posix, AnyAcl::Posix(copy_list(v)))),
        SpecValue::Nfs4Acl(v) => Some((AclKind::Nfs4, AnyAcl::Nfs4(copy_list(v)))),
        SpecValue::MacosAcl(v) => Some((AclKind::Macos, AnyAcl::Macos(copy_list(v)))),
        _ => None,
    }
}

/// The kind that a symbol names; a Unix list if there is none.
pub open spec fn kind_result(value: Option<SpecValue>) -> Result<AclKind, ErrorView> {
    match value {
        None => Ok(AclKind::Posix),
        Some(SpecValue::Sym(name)) => if name@ == "POSIX"@ {
            Ok(AclKind::Posix)
        } else if name@ == "NFS4"@ {
            Ok(AclKind::Nfs4)
        } else if name@ == "MACOS"@ {
            Ok(AclKind::Macos)
        } else {
            Err(ErrorView::Value("kind: expected :POSIX:, :NFS4:, or :MACOS:"@))
        },
        Some(_) => Err(ErrorView::Type("kind: expected :POSIX:, :NFS4:, or :MACOS:"@)),
    }
}

/// The kind that a symbol names.
pub fn acl_kind_sym(value: &Option<SpecValue>) -> (r: Result<AclKind, Error>)
    ensures
        outcome(r) == kind_result(*value),
{
    match value {
        None => Ok(AclKind::Posix),
        Some(SpecValue::Sym(name)) => {
            let name = name.as_str();
            if str_eq(name, "POSIX") {
                Ok(AclKind::Posix)
            } else if str_eq(name, "NFS4") {
                Ok(AclKind::Nfs4)
            } else if str_eq(name, "MACOS") {
                Ok(AclKind::Macos)
            } else {
                Err(Error::Value("kind: expected :POSIX:, :NFS4:, or :MACOS:".to_owned()))
            }
        },
        Some(_) => Err(Error::Type("kind: expected :POSIX:, :NFS4:, or :MACOS:".to_owned())),
    }
}

/// A list that a file is to get, and its kind. The entries of a Unix list that
/// came from a specification have still to be checked together.
#[derive(Debug)]
pub struct AclInput {
    pub kind: AclKind,
    pub acl: Option<AnyAcl>,
    pub unchecked: bool,
}

/// The content of an [`AclInput`].
pub struct AclInputView {
    pub kind: AclKind,
    pub acl: Option<AnyAclView>,
    pub unchecked: bool,
}

impl View for AclInput {
    type V = AclInputView;

    open spec fn view(&self) -> AclInputView {
        AclInputView {
            kind: self.kind,
            acl: match self.acl {
                Some(acl) => Some(acl@),
                None => None,
            },
            unchecked: self.unchecked,
        }
    }
}

/// The list of the kind `kind` that a specification stands for.
pub open spec fn specified(kind: AclKind, value: SpecValue, path: Seq<char>) -> Result<
    AclInputView,
    ErrorView,
> {
    match kind {
        AclKind::Posix => match unix::acl_result(value, path) {
            Err(e) => Err(e),
            Ok(v) => Ok(
                AclInputView { kind, acl: Some(AnyAclView::Posix(v)), unchecked: true },
            ),
        },
        AclKind::Nfs4 => match nfs4::acl_result(value, path) {
            Err(e) => Err(e),
            Ok(v) => Ok(
                AclInputView { kind, acl: Some(AnyAclView::Nfs4(v)), unchecked: false },
            ),
        },
        AclKind::Macos => match macos::acl_result(value, path) {
            Err(e) => Err(e),
            Ok(v) => Ok(
                AclInputView { kind, acl: Some(AnyAclView::Macos(v)), unchecked: false },
            ),
        },
    }
}

/// The list that a value stands for, with the kind given or found in it.
pub open spec fn input_result(value: SpecValue, kind: Option<SpecValue>, path: Seq<char>) -> Result<
    AclInputView,
    ErrorView,
> {
    match kind_result(kind) {
        Err(e) => Err(e),
        Ok(named) => if value is Nil {
            Ok(AclInputView { kind: named, acl: None, unchecked: false })
        } else {
            match built(value) {
                Some((actual, acl)) => if kind is Some && named != actual {
                    Err(ErrorView::Value(path + ": ACL kind does not match kind:"@))
                } else {
                    Ok(AclInputView { kind: actual, acl: Some(acl), unchecked: false })
                },
                None => if kind is None {
                    Err(
                        ErrorView::Type(
                            path + ": kind: is required for an ACL specification"@,
                        ),
                    )
                } else {
                    specified(named, value, path)
                },
            }
        },
    }
}

/// The content of a list that was resolved.
pub open spec fn input_view(r: Result<AclInput, Error>) -> Result<AclInputView, ErrorView> {
    match r {
        Ok(input) => Ok(input@),
        Err(e) => Err(e@),
    }
}

/// The list that a value stands for, with the kind given or found in it.
pub fn resolve_acl_input(value: &SpecValue, kind: &Option<SpecValue>, path: &SpecPath) -> (r: Result<
    AclInput,
    Error,
>)
    ensures
        input_view(r) == input_result(*value, *kind, path@),
{
    let named = match acl_kind_sym(kind) {
        Ok(kind) => kind,
        Err(e) => return Err(e),
    };
    match value {
        SpecValue::Nil => return Ok(AclInput { kind: named, acl: None, unchecked: false }),
        _ => {},
    }
    if let Some((actual, acl)) = built_acl_from_value(value) {
        if kind.is_some() && named != actual {
            return Err(path.value_error(": ACL kind does not match kind:"));
        }
        return Ok(AclInput { kind: actual, acl: Some(acl), unchecked: false });
    }
    if kind.is_none() {
        return Err(path.type_error(": kind: is required for an ACL specification"));
    }
    match named {
        AclKind::Posix => match unix::coerce_acl(value, path) {
            Err(e) => Err(e),
            Ok(v) => Ok(AclInput { kind: named, acl: Some(AnyAcl::Posix(v)), unchecked: true }),
        },
        AclKind::Nfs4 => match nfs4::coerce_acl(value, path) {
            Err(e) => Err(e),
            Ok(v) => Ok(AclInput { kind: named, acl: Some(AnyAcl::Nfs4(v)), unchecked: false }),
        },
        AclKind::Macos => match macos::coerce_acl(value, path) {
            Err(e) => Err(e),
            Ok(v) => Ok(AclInput { kind: named, acl: Some(AnyAcl::Macos(v)), unchecked: false }),
        },
    }
}

/// A list that was read can be written back as it is, with its kind or
/// without.
pub proof fn lists_round_trip(acl: AnyAcl, value: SpecValue, path: Seq<char>)
    requires
        !(acl is Other),
        value == match acl {
            AnyAcl::Posix(v) => SpecValue::PosixAcl(v),
            AnyAcl::Nfs4(v) => SpecValue::Nfs4Acl(v),
            AnyAcl::Macos(v) => SpecValue::MacosAcl(v),
            AnyAcl::Other => SpecValue::Nil,
        },
    ensures
        ({
            let r = input_result(value, None, path);
            &&& r is Ok
            &&& r->Ok_0.acl == Some(acl@)
            &&& !r->Ok_0.unchecked
        }),
{
}

} // verus!

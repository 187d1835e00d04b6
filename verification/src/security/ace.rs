//! Entries of Windows access control lists, as programs describe them.

use vstd::prelude::*;
use crate::console::data::copy_bytes;
use crate::error::{outcome, Error, ErrorView};
use crate::security::coerce::{
    ace_bool, ace_u32, ace_u8, as_flags, bool_result, cast_flags, coerce_at, coerced_at, id_result,
};
use crate::security::model::{FlagClass, Sid, SidView, SpecValue};
use crate::security::path::{duplicate_key, symbol_keys, under_key, unknown_key, SpecPath};
use crate::security::sid::{
    as_sid, as_windows_sid, coerce_sid, sid_option, sid_result,
};
use crate::security::windows_flags::{AccessMask, AceFlags};
use crate::sqlite::failure::bytes_option;
use crate::text::str_eq;

verus! {

broadcast use vstd::string::group_string_axioms;

/// A number of flags, as the bits that they are.
pub open spec fn as_bits(r: Result<int, ErrorView>) -> Result<u32, ErrorView> {
    match r {
        Ok(n) => Ok(n as u32),
        Err(e) => Err(e),
    }
}

/// The access rights that a value stands for.
pub open spec fn mask_result(value: SpecValue, path: Seq<char>) -> Result<u32, ErrorView> {
    match value {
        SpecValue::Rights(number) => as_bits(id_result(*number, path, u32::MAX as int)),
        SpecValue::Int(_) => as_bits(id_result(value, path, u32::MAX as int)),
        _ => coerced_at(
            FlagClass::AccessMask,
            value,
            path,
            ": expected security.windows.AccessMask (or a subtype), Int, Sym, or iterable of Sym"@,
        ),
    }
}

/// The access rights that a value stands for: flags, flags of a kind that
/// stands for rights, symbols, or a number.
pub fn ace_mask(value: &SpecValue, path: &SpecPath) -> (r: Result<u32, Error>)
    ensures
        outcome(r) == mask_result(*value, path@),
{
    match value {
        SpecValue::Rights(number) => ace_u32(number, path),
        SpecValue::Int(_) => ace_u32(value, path),
        _ => coerce_at(
            FlagClass::AccessMask,
            value,
            path,
            ": expected security.windows.AccessMask (or a subtype), Int, Sym, or iterable of Sym",
        ),
    }
}

/// The flags of an entry that a value stands for.
pub open spec fn flags_result(value: SpecValue, path: Seq<char>) -> Result<u32, ErrorView> {
    match value {
        SpecValue::Int(_) => as_bits(id_result(value, path, u8::MAX as int)),
        _ => coerced_at(
            FlagClass::AceFlags,
            value,
            path,
            ": expected security.windows.AceFlags, Int, Sym, or iterable of Sym"@,
        ),
    }
}

/// The flags of an entry that a value stands for: flags, symbols, or a number.
pub fn ace_flags(value: &SpecValue, path: &SpecPath) -> (r: Result<u32, Error>)
    ensures
        outcome(r) == flags_result(*value, path@),
{
    match value {
        SpecValue::Int(_) => match ace_u8(value, path) {
            Ok(n) => Ok(n as u32),
            Err(e) => Err(e),
        },
        _ => coerce_at(
            FlagClass::AceFlags,
            value,
            path,
            ": expected security.windows.AceFlags, Int, Sym, or iterable of Sym",
        ),
    }
}

/// The GUID that a value reads as. The message about a value of another kind
/// is this library's own.
pub open spec fn guid_result(value: SpecValue) -> Result<u128, ErrorView> {
    match value {
        SpecValue::Guid(n) => Ok(n),
        SpecValue::Str(_, readings) => match readings.uuid {
            Ok(n) => Ok(n),
            Err(e) => Err(ErrorView::Value(e@)),
        },
        SpecValue::Bin(_, readings) => match readings.uuid {
            Ok(n) => Ok(n),
            Err(e) => Err(ErrorView::Value(e@)),
        },
        _ => Err(ErrorView::Type("expected uuid.Guid, Str, or Bin"@)),
    }
}

/// The GUID that a value reads as.
pub fn value_to_guid(value: &SpecValue) -> (r: Result<u128, Error>)
    ensures
        outcome(r) == guid_result(*value),
{
    match value {
        SpecValue::Guid(n) => Ok(*n),
        SpecValue::Str(_, readings) => match &readings.uuid {
            Ok(n) => Ok(*n),
            Err(e) => Err(Error::Value(e.clone())),
        },
        SpecValue::Bin(_, readings) => match &readings.uuid {
            Ok(n) => Ok(*n),
            Err(e) => Err(Error::Value(e.clone())),
        },
        _ => Err(Error::Type("expected uuid.Guid, Str, or Bin".to_owned())),
    }
}

/// Binary data at a position.
pub open spec fn bin_result(value: SpecValue, path: Seq<char>) -> Result<Seq<u8>, ErrorView> {
    match value {
        SpecValue::Bin(bytes, _) => Ok(bytes@),
        _ => Err(ErrorView::Type(path + ": expected Bin"@)),
    }
}

/// Binary data at a position.
pub fn ace_bin(value: &SpecValue, path: &SpecPath) -> (r: Result<Vec<u8>, Error>)
    ensures
        match r {
            Ok(v) => bin_result(*value, path@) == Ok::<Seq<u8>, ErrorView>(v@),
            Err(e) => bin_result(*value, path@) == Err::<Seq<u8>, ErrorView>(e@),
        },
{
    match value {
        SpecValue::Bin(bytes, _) => Ok(copy_bytes(bytes)),
        _ => Err(path.type_error(": expected Bin")),
    }
}

/// What was read of an entry's specification.
#[derive(Debug)]
pub struct AceComponents {
    pub allow: Option<Sid>,
    pub deny: Option<Sid>,
    pub audit: Option<Sid>,
    pub mask: Option<u32>,
    pub flags: Option<u32>,
    pub object_type: Option<u128>,
    pub inherited_object_type: Option<u128>,
    pub callback: Option<bool>,
    pub application_data: Option<Vec<u8>>,
    pub successful: Option<bool>,
    pub failed: Option<bool>,
}

/// The content of [`AceComponents`].
pub struct AceComponentsView {
    pub allow: Option<SidView>,
    pub deny: Option<SidView>,
    pub audit: Option<SidView>,
    pub mask: Option<u32>,
    pub flags: Option<u32>,
    pub object_type: Option<u128>,
    pub inherited_object_type: Option<u128>,
    pub callback: Option<bool>,
    pub application_data: Option<Seq<u8>>,
    pub successful: Option<bool>,
    pub failed: Option<bool>,
}

impl View for AceComponents {
    type V = AceComponentsView;

    open spec fn view(&self) -> AceComponentsView {
        AceComponentsView {
            allow: sid_option(self.allow),
            deny: sid_option(self.deny),
            audit: sid_option(self.audit),
            mask: self.mask,
            flags: self.flags,
            object_type: self.object_type,
            inherited_object_type: self.inherited_object_type,
            callback: self.callback,
            application_data: bytes_option(self.application_data),
            successful: self.successful,
            failed: self.failed,
        }
    }
}

/// Nothing.
pub open spec fn no_components() -> AceComponentsView {
    AceComponentsView {
        allow: None,
        deny: None,
        audit: None,
        mask: None,
        flags: None,
        object_type: None,
        inherited_object_type: None,
        callback: None,
        application_data: None,
        successful: None,
        failed: None,
    }
}

impl AceComponents {
    /// Nothing.
    pub fn new() -> (c: AceComponents)
        ensures
            c@ == no_components(),
    {
        AceComponents {
            allow: None,
            deny: None,
            audit: None,
            mask: None,
            flags: None,
            object_type: None,
            inherited_object_type: None,
            callback: None,
            application_data: None,
            successful: None,
            failed: None,
        }
    }
}

/// What one key of a specification adds.
pub open spec fn key_step(
    c: AceComponentsView,
    name: Seq<char>,
    entry: SpecValue,
    path: Seq<char>,
) -> Result<AceComponentsView, ErrorView> {
    let at = under_key(path, name);
    if name == "allow"@ {
        if c.allow is Some {
            Err(duplicate_key(path, name))
        } else {
            match sid_result(entry, at) {
                Err(e) => Err(e),
                Ok(v) => Ok(AceComponentsView { allow: Some(v), ..c }),
            }
        }
    } else if name == "deny"@ {
        if c.deny is Some {
            Err(duplicate_key(path, name))
        } else {
            match sid_result(entry, at) {
                Err(e) => Err(e),
                Ok(v) => Ok(AceComponentsView { deny: Some(v), ..c }),
            }
        }
    } else if name == "audit"@ {
        if c.audit is Some {
            Err(duplicate_key(path, name))
        } else {
            match sid_result(entry, at) {
                Err(e) => Err(e),
                Ok(v) => Ok(AceComponentsView { audit: Some(v), ..c }),
            }
        }
    } else if name == "mask"@ {
        if c.mask is Some {
            Err(duplicate_key(path, name))
        } else {
            match mask_result(entry, at) {
                Err(e) => Err(e),
                Ok(v) => Ok(AceComponentsView { mask: Some(v), ..c }),
            }
        }
    } else if name == "flags"@ {
        if c.flags is Some {
            Err(duplicate_key(path, name))
        } else {
            match flags_result(entry, at) {
                Err(e) => Err(e),
                Ok(v) => Ok(AceComponentsView { flags: Some(v), ..c }),
            }
        }
    } else if name == "object_type"@ {
        if c.object_type is Some {
            Err(duplicate_key(path, name))
        } else {
            match guid_result(entry) {
                Err(e) => Err(e),
                Ok(v) => Ok(AceComponentsView { object_type: Some(v), ..c }),
            }
        }
    } else if name == "inherited_object_type"@ {
        if c.inherited_object_type is Some {
            Err(duplicate_key(path, name))
        } else {
            match guid_result(entry) {
                Err(e) => Err(e),
                Ok(v) => Ok(AceComponentsView { inherited_object_type: Some(v), ..c }),
            }
        }
    } else if name == "callback"@ {
        if c.callback is Some {
            Err(duplicate_key(path, name))
        } else {
            match bool_result(entry, at) {
                Err(e) => Err(e),
                Ok(v) => Ok(AceComponentsView { callback: Some(v), ..c }),
            }
        }
    } else if name == "application_data"@ {
        if c.application_data is Some {
            Err(duplicate_key(path, name))
        } else {
            match bin_result(entry, at) {
                Err(e) => Err(e),
                Ok(v) => Ok(AceComponentsView { application_data: Some(v), ..c }),
            }
        }
    } else if name == "successful"@ {
        if c.successful is Some {
            Err(duplicate_key(path, name))
        } else {
            match bool_result(entry, at) {
                Err(e) => Err(e),
                Ok(v) => Ok(AceComponentsView { successful: Some(v), ..c }),
            }
        }
    } else if name == "failed"@ {
        if c.failed is Some {
            Err(duplicate_key(path, name))
        } else {
            match bool_result(entry, at) {
                Err(e) => Err(e),
                Ok(v) => Ok(AceComponentsView { failed: Some(v), ..c }),
            }
        }
    } else {
        Err(unknown_key(path, name))
    }
}

/// What one key of a specification adds.
fn take_key(components: AceComponents, name: &str, entry: &SpecValue, path: &SpecPath) -> (r: Result<
    AceComponents,
    Error,
>)
    ensures
        components_view(r) == key_step(components@, name@, *entry, path@),
{
    let at = path.key(name);
    let mut c = components;
    if str_eq(name, "allow") {
        if c.allow.is_some() {
            return Err(path.duplicate_key(name));
        }
        return match coerce_sid(entry, &at) {
            Err(e) => Err(e),
            Ok(v) => {
                c.allow = Some(v);
                Ok(c)
            },
        };
    }
    if str_eq(name, "deny") {
        if c.deny.is_some() {
            return Err(path.duplicate_key(name));
        }
        return match coerce_sid(entry, &at) {
            Err(e) => Err(e),
            Ok(v) => {
                c.deny = Some(v);
                Ok(c)
            },
        };
    }
    if str_eq(name, "audit") {
        if c.audit.is_some() {
            return Err(path.duplicate_key(name));
        }
        return match coerce_sid(entry, &at) {
            Err(e) => Err(e),
            Ok(v) => {
                c.audit = Some(v);
                Ok(c)
            },
        };
    }
    if str_eq(name, "mask") {
        if c.mask.is_some() {
            return Err(path.duplicate_key(name));
        }
        return match ace_mask(entry, &at) {
            Err(e) => Err(e),
            Ok(v) => {
                c.mask = Some(v);
                Ok(c)
            },
        };
    }
    if str_eq(name, "flags") {
        if c.flags.is_some() {
            return Err(path.duplicate_key(name));
        }
        return match ace_flags(entry, &at) {
            Err(e) => Err(e),
            Ok(v) => {
                c.flags = Some(v);
                Ok(c)
            },
        };
    }
    if str_eq(name, "object_type") {
        if c.object_type.is_some() {
            return Err(path.duplicate_key(name));
        }
        return match value_to_guid(entry) {
            Err(e) => Err(e),
            Ok(v) => {
                c.object_type = Some(v);
                Ok(c)
            },
        };
    }
    if str_eq(name, "inherited_object_type") {
        if c.inherited_object_type.is_some() {
            return Err(path.duplicate_key(name));
        }
        return match value_to_guid(entry) {
            Err(e) => Err(e),
            Ok(v) => {
                c.inherited_object_type = Some(v);
                Ok(c)
            },
        };
    }
    if str_eq(name, "callback") {
        if c.callback.is_some() {
            return Err(path.duplicate_key(name));
        }
        return match ace_bool(entry, &at) {
            Err(e) => Err(e),
            Ok(v) => {
                c.callback = Some(v);
                Ok(c)
            },
        };
    }
    if str_eq(name, "application_data") {
        if c.application_data.is_some() {
            return Err(path.duplicate_key(name));
        }
        return match ace_bin(entry, &at) {
            Err(e) => Err(e),
            Ok(v) => {
                c.application_data = Some(v);
                Ok(c)
            },
        };
    }
    if str_eq(name, "successful") {
        if c.successful.is_some() {
            return Err(path.duplicate_key(name));
        }
        return match ace_bool(entry, &at) {
            Err(e) => Err(e),
            Ok(v) => {
                c.successful = Some(v);
                Ok(c)
            },
        };
    }
    if str_eq(name, "failed") {
        if c.failed.is_some() {
            return Err(path.duplicate_key(name));
        }
        return match ace_bool(entry, &at) {
            Err(e) => Err(e),
            Ok(v) => {
                c.failed = Some(v);
                Ok(c)
            },
        };
    }
    Err(path.unknown_key(name))
}

/// What was read, by its content.
pub open spec fn components_view(r: Result<AceComponents, Error>) -> Result<
    AceComponentsView,
    ErrorView,
> {
    match r {
        Ok(c) => Ok(c@),
        Err(e) => Err(e@),
    }
}

/// What the first `n` keys of a specification say.
pub open spec fn components_of(pairs: Seq<(SpecValue, SpecValue)>, n: nat, path: Seq<char>) -> Result<
    AceComponentsView,
    ErrorView,
>
    decreases n,
{
    if n == 0 {
        Ok(no_components())
    } else {
        match components_of(pairs, (n - 1) as nat, path) {
            Err(e) => Err(e),
            Ok(c) => match pairs[n - 1].0 {
                SpecValue::Sym(name) => key_step(c, name@, pairs[n - 1].1, path),
                _ => Err(symbol_keys(path)),
            },
        }
    }
}

proof fn lemma_components_error(pairs: Seq<(SpecValue, SpecValue)>, n: nat, m: nat, path: Seq<char>)
    requires
        n <= m,
        components_of(pairs, n, path) is Err,
    ensures
        components_of(pairs, m, path) == components_of(pairs, n, path),
    decreases m,
{
    if n < m {
        lemma_components_error(pairs, n, (m - 1) as nat, path);
    }
}

/// What the keys of a specification say.
pub fn ace_components_from_spec(pairs: &Vec<(SpecValue, SpecValue)>, path: &SpecPath) -> (r: Result<
    AceComponents,
    Error,
>)
    ensures
        components_view(r) == components_of(pairs@, pairs@.len(), path@),
{
    let mut c = AceComponents::new();
    let mut i: usize = 0;
    while i < pairs.len()
        invariant
            i <= pairs@.len(),
            components_of(pairs@, i as nat, path@) == Ok::<AceComponentsView, ErrorView>(c@),
        decreases pairs@.len() - i,
    {
        let step = match &pairs[i].0 {
            SpecValue::Sym(name) => take_key(c, name.as_str(), &pairs[i].1, path),
            _ => Err(path.value_error(": keys must be symbols")),
        };
        assert(components_view(step) == components_of(pairs@, (i + 1) as nat, path@));
        match step {
            Ok(next) => {
                c = next;
            },
            Err(e) => {
                proof {
                    lemma_components_error(pairs@, (i + 1) as nat, pairs@.len(), path@);
                }
                return Err(e);
            },
        }
        i = i + 1;
    }
    Ok(c)
}

/// What an entry does.
#[derive(Clone, Copy, Debug, PartialEq, Eq, Structural)]
pub enum Action {
    Allow,
    Deny,
    /// Records successful or failed access.
    Audit { successful: bool, failed: bool },
}

/// An entry to be packed.
#[derive(Debug)]
pub struct AceRequest {
    pub action: Action,
    pub sid: Sid,
    pub mask: u32,
    pub flags: Option<u32>,
    pub object_type: Option<u128>,
    pub inherited_object_type: Option<u128>,
    pub callback: bool,
    pub application_data: Option<Vec<u8>>,
}

/// The content of an [`AceRequest`].
pub struct AceRequestView {
    pub action: Action,
    pub sid: SidView,
    pub mask: u32,
    pub flags: Option<u32>,
    pub object_type: Option<u128>,
    pub inherited_object_type: Option<u128>,
    pub callback: bool,
    pub application_data: Option<Seq<u8>>,
}

impl View for AceRequest {
    type V = AceRequestView;

    open spec fn view(&self) -> AceRequestView {
        AceRequestView {
            action: self.action,
            sid: self.sid@,
            mask: self.mask,
            flags: self.flags,
            object_type: self.object_type,
            inherited_object_type: self.inherited_object_type,
            callback: self.callback,
            application_data: bytes_option(self.application_data),
        }
    }
}

/// A truth value that need not be given.
pub open spec fn or_false(b: Option<bool>) -> bool {
    match b {
        Some(b) => b,
        None => false,
    }
}

/// Which of the three actions it is, if it is only one, and about whom.
pub open spec fn only_trustee(
    allow: Option<SidView>,
    deny: Option<SidView>,
    audit: Option<SidView>,
    none: Seq<char>,
    many: Seq<char>,
) -> Result<(Action, SidView), ErrorView> {
    match (allow, deny, audit) {
        (Some(sid), None, None) => Ok((Action::Allow, sid)),
        (None, Some(sid), None) => Ok((Action::Deny, sid)),
        (None, None, Some(sid)) => Ok(
            (Action::Audit { successful: false, failed: false }, sid),
        ),
        (None, None, None) => Err(ErrorView::Value(none)),
        _ => Err(ErrorView::Value(many)),
    }
}

/// The action with what it records: only an audit records, and an audit has to
/// record something.
pub open spec fn recorded(
    action: Action,
    successful: Option<bool>,
    failed: Option<bool>,
    only: Seq<char>,
    needs: Seq<char>,
) -> Result<Action, ErrorView> {
    if !(action is Audit) {
        if successful is Some || failed is Some {
            Err(ErrorView::Value(only))
        } else {
            Ok(action)
        }
    } else if successful is None && failed is None {
        Err(ErrorView::Value(needs))
    } else {
        Ok(Action::Audit { successful: or_false(successful), failed: or_false(failed) })
    }
}

/// The entry that the components make.
pub open spec fn components_request(c: AceComponentsView, path: Seq<char>) -> Result<
    AceRequestView,
    ErrorView,
> {
    match only_trustee(
        c.allow,
        c.deny,
        c.audit,
        path + ": expected one of allow, deny, audit"@,
        path + ": multiple keys name conflicting ACE types"@,
    ) {
        Err(e) => Err(e),
        Ok((action, sid)) => match c.mask {
            None => Err(ErrorView::Value(path + ": missing key `mask`"@)),
            Some(mask) => match recorded(
                action,
                c.successful,
                c.failed,
                path + ": successful and failed apply only to audit"@,
                path + ": audit requires successful or failed"@,
            ) {
                Err(e) => Err(e),
                Ok(action) => Ok(
                    AceRequestView {
                        action,
                        sid,
                        mask,
                        flags: c.flags,
                        object_type: c.object_type,
                        inherited_object_type: c.inherited_object_type,
                        callback: or_false(c.callback),
                        application_data: c.application_data,
                    },
                ),
            },
        },
    }
}

/// An entry to be packed, by its content.
pub open spec fn request_view(r: Result<AceRequest, Error>) -> Result<AceRequestView, ErrorView> {
    match r {
        Ok(request) => Ok(request@),
        Err(e) => Err(e@),
    }
}

/// The action with what it records.
fn record(
    action: Action,
    successful: Option<bool>,
    failed: Option<bool>,
    path: &SpecPath,
) -> (r: Result<Action, Error>)
    ensures
        outcome(r) == recorded(
            action,
            successful,
            failed,
            path@ + ": successful and failed apply only to audit"@,
            path@ + ": audit requires successful or failed"@,
        ),
{
    match action {
        Action::Audit { .. } => {
            if successful.is_none() && failed.is_none() {
                return Err(path.value_error(": audit requires successful or failed"));
            }
            let successful = match successful {
                Some(b) => b,
                None => false,
            };
            let failed = match failed {
                Some(b) => b,
                None => false,
            };
            Ok(Action::Audit { successful, failed })
        },
        _ => {
            if successful.is_some() || failed.is_some() {
                return Err(path.value_error(": successful and failed apply only to audit"));
            }
            Ok(action)
        },
    }
}

/// The entry that the components make.
pub fn ace_from_components(components: AceComponents, path: &SpecPath) -> (r: Result<
    AceRequest,
    Error,
>)
    ensures
        request_view(r) == components_request(components@, path@),
{
    let (action, sid) = match (components.allow, components.deny, components.audit) {
        (Some(sid), None, None) => (Action::Allow, sid),
        (None, Some(sid), None) => (Action::Deny, sid),
        (None, None, Some(sid)) => (Action::Audit { successful: false, failed: false }, sid),
        (None, None, None) => return Err(
            path.value_error(": expected one of allow, deny, audit"),
        ),
        _ => return Err(path.value_error(": multiple keys name conflicting ACE types")),
    };
    let mask: u32 = match components.mask {
        Some(mask) => mask,
        None => return Err(path.value_error(": missing key `mask`")),
    };
    let action = match record(action, components.successful, components.failed, path) {
        Ok(action) => action,
        Err(e) => return Err(e),
    };
    let callback = match components.callback {
        Some(b) => b,
        None => false,
    };
    Ok(
        AceRequest {
            action,
            sid,
            mask,
            flags: components.flags,
            object_type: components.object_type,
            inherited_object_type: components.inherited_object_type,
            callback,
            application_data: components.application_data,
        },
    )
}

/// An entry for a list: one that is packed, or one to be packed.
#[derive(Debug)]
pub enum AceItem {
    Packed(Vec<u8>),
    Request(AceRequest),
}

/// The content of an [`AceItem`].
pub enum AceItemView {
    Packed(Seq<u8>),
    Request(AceRequestView),
}

impl View for AceItem {
    type V = AceItemView;

    open spec fn view(&self) -> AceItemView {
        match self {
            AceItem::Packed(bytes) => AceItemView::Packed(bytes@),
            AceItem::Request(request) => AceItemView::Request(request@),
        }
    }
}

/// The entry that a value stands for.
pub open spec fn item_result(value: SpecValue, path: Seq<char>) -> Result<AceItemView, ErrorView> {
    match value {
        SpecValue::Ace(ace) => Ok(AceItemView::Packed(ace.packet@)),
        SpecValue::Dict(pairs) => match components_of(pairs@, pairs@.len(), path) {
            Err(e) => Err(e),
            Ok(c) => match components_request(c, path) {
                Err(e) => Err(e),
                Ok(request) => Ok(AceItemView::Request(request)),
            },
        },
        _ => Err(ErrorView::Type(path + ": expected a dictionary"@)),
    }
}

/// An entry for a list, by its content.
pub open spec fn item_view(r: Result<AceItem, Error>) -> Result<AceItemView, ErrorView> {
    match r {
        Ok(item) => Ok(item@),
        Err(e) => Err(e@),
    }
}

/// The entry that a value stands for: an entry, or its specification.
pub fn coerce_ace(value: &SpecValue, path: &SpecPath) -> (r: Result<AceItem, Error>)
    ensures
        item_view(r) == item_result(*value, path@),
{
    match value {
        SpecValue::Ace(ace) => Ok(AceItem::Packed(copy_bytes(&ace.packet))),
        SpecValue::Dict(pairs) => match ace_components_from_spec(pairs, path) {
            Err(e) => Err(e),
            Ok(components) => match ace_from_components(components, path) {
                Err(e) => Err(e),
                Ok(request) => Ok(AceItem::Request(request)),
            },
        },
        _ => Err(path.type_error(": expected a dictionary")),
    }
}

/// The named arguments of an entry.
#[derive(Debug)]
pub struct AceArgs {
    pub mask: SpecValue,
    pub allow: Option<SpecValue>,
    pub deny: Option<SpecValue>,
    pub audit: Option<SpecValue>,
    pub flags: Option<SpecValue>,
    pub object_type: Option<SpecValue>,
    pub inherited_object_type: Option<SpecValue>,
    pub callback: Option<SpecValue>,
    pub application_data: Option<SpecValue>,
    pub successful: Option<SpecValue>,
    pub failed: Option<SpecValue>,
}

impl AceArgs {
    /// What the arguments say, read one by one.
    pub open spec fn components(self, path: Seq<char>) -> Result<AceComponentsView, ErrorView> {
        let c = Ok(no_components());
        let c = match (c, self.allow) {
            (Ok(c), Some(v)) => match sid_result(v, under_key(path, "allow"@)) {
                Err(e) => Err(e),
                Ok(v) => Ok(AceComponentsView { allow: Some(v), ..c }),
            },
            _ => c,
        };
        let c = match (c, self.deny) {
            (Ok(c), Some(v)) => match sid_result(v, under_key(path, "deny"@)) {
                Err(e) => Err(e),
                Ok(v) => Ok(AceComponentsView { deny: Some(v), ..c }),
            },
            _ => c,
        };
        let c = match (c, self.audit) {
            (Ok(c), Some(v)) => match sid_result(v, under_key(path, "audit"@)) {
                Err(e) => Err(e),
                Ok(v) => Ok(AceComponentsView { audit: Some(v), ..c }),
            },
            _ => c,
        };
        let c = match (c, Some(self.mask)) {
            (Ok(c), Some(v)) => match mask_result(v, under_key(path, "mask"@)) {
                Err(e) => Err(e),
                Ok(v) => Ok(AceComponentsView { mask: Some(v), ..c }),
            },
            _ => c,
        };
        let c = match (c, self.flags) {
            (Ok(c), Some(v)) => match flags_result(v, under_key(path, "flags"@)) {
                Err(e) => Err(e),
                Ok(v) => Ok(AceComponentsView { flags: Some(v), ..c }),
            },
            _ => c,
        };
        let c = match (c, self.object_type) {
            (Ok(c), Some(v)) => match guid_result(v) {
                Err(e) => Err(e),
                Ok(v) => Ok(AceComponentsView { object_type: Some(v), ..c }),
            },
            _ => c,
        };
        let c = match (c, self.inherited_object_type) {
            (Ok(c), Some(v)) => match guid_result(v) {
                Err(e) => Err(e),
                Ok(v) => Ok(AceComponentsView { inherited_object_type: Some(v), ..c }),
            },
            _ => c,
        };
        let c = match (c, self.callback) {
            (Ok(c), Some(v)) => match bool_result(v, under_key(path, "callback"@)) {
                Err(e) => Err(e),
                Ok(v) => Ok(AceComponentsView { callback: Some(v), ..c }),
            },
            _ => c,
        };
        let c = match (c, self.application_data) {
            (Ok(c), Some(v)) => match bin_result(v, under_key(path, "application_data"@)) {
                Err(e) => Err(e),
                Ok(v) => Ok(AceComponentsView { application_data: Some(v), ..c }),
            },
            _ => c,
        };
        let c = match (c, self.successful) {
            (Ok(c), Some(v)) => match bool_result(v, under_key(path, "successful"@)) {
                Err(e) => Err(e),
                Ok(v) => Ok(AceComponentsView { successful: Some(v), ..c }),
            },
            _ => c,
        };
        let c = match (c, self.failed) {
            (Ok(c), Some(v)) => match bool_result(v, under_key(path, "failed"@)) {
                Err(e) => Err(e),
                Ok(v) => Ok(AceComponentsView { failed: Some(v), ..c }),
            },
            _ => c,
        };
        c
    }
}

/// What the arguments of an entry say.
fn components_from_args(args: &AceArgs, path: &SpecPath) -> (r: Result<AceComponents, Error>)
    ensures
        components_view(r) == args.components(path@),
{
    let mut c = AceComponents::new();
    if let Some(v) = &args.allow {
        match coerce_sid(v, &path.key("allow")) {
            Err(e) => return Err(e),
            Ok(v) => {
                c.allow = Some(v);
            },
        }
    }
    if let Some(v) = &args.deny {
        match coerce_sid(v, &path.key("deny")) {
            Err(e) => return Err(e),
            Ok(v) => {
                c.deny = Some(v);
            },
        }
    }
    if let Some(v) = &args.audit {
        match coerce_sid(v, &path.key("audit")) {
            Err(e) => return Err(e),
            Ok(v) => {
                c.audit = Some(v);
            },
        }
    }
    match ace_mask(&args.mask, &path.key("mask")) {
        Err(e) => return Err(e),
        Ok(v) => {
            c.mask = Some(v);
        },
    }
    if let Some(v) = &args.flags {
        match ace_flags(v, &path.key("flags")) {
            Err(e) => return Err(e),
            Ok(v) => {
                c.flags = Some(v);
            },
        }
    }
    if let Some(v) = &args.object_type {
        match value_to_guid(v) {
            Err(e) => return Err(e),
            Ok(v) => {
                c.object_type = Some(v);
            },
        }
    }
    if let Some(v) = &args.inherited_object_type {
        match value_to_guid(v) {
            Err(e) => return Err(e),
            Ok(v) => {
                c.inherited_object_type = Some(v);
            },
        }
    }
    if let Some(v) = &args.callback {
        match ace_bool(v, &path.key("callback")) {
            Err(e) => return Err(e),
            Ok(v) => {
                c.callback = Some(v);
            },
        }
    }
    if let Some(v) = &args.application_data {
        match ace_bin(v, &path.key("application_data")) {
            Err(e) => return Err(e),
            Ok(v) => {
                c.application_data = Some(v);
            },
        }
    }
    if let Some(v) = &args.successful {
        match ace_bool(v, &path.key("successful")) {
            Err(e) => return Err(e),
            Ok(v) => {
                c.successful = Some(v);
            },
        }
    }
    if let Some(v) = &args.failed {
        match ace_bool(v, &path.key("failed")) {
            Err(e) => return Err(e),
            Ok(v) => {
                c.failed = Some(v);
            },
        }
    }
    Ok(c)
}

impl AceArgs {
    /// The entry that the arguments say, each of them read as in a
    /// specification.
    pub open spec fn declarative(self, path: Seq<char>) -> Result<AceRequestView, ErrorView> {
        match self.components(path) {
            Err(e) => Err(e),
            Ok(c) => components_request(c, path),
        }
    }
}

/// The entry that named arguments say.
pub fn ace_from_args(args: &AceArgs, path: &SpecPath) -> (r: Result<AceRequest, Error>)
    ensures
        request_view(r) == args.declarative(path@),
{
    match components_from_args(args, path) {
        Err(e) => Err(e),
        Ok(components) => ace_from_components(components, path),
    }
}

/// An identifier that has to be one.
pub open spec fn rigid_sid(value: SpecValue, what: Seq<char>) -> Result<SidView, ErrorView> {
    match as_sid(value) {
        Some(sid) => Ok(sid),
        None => Err(ErrorView::Type(what)),
    }
}

impl AceArgs {
    /// What the entry does and about whom, where the arguments have to be of
    /// the right kind.
    pub open spec fn rigid_trustee(self) -> Result<(Action, SidView), ErrorView> {
        match (self.allow, self.deny, self.audit) {
            (Some(v), None, None) => match rigid_sid(
                v,
                "Ace.allow: expected security.windows.Sid"@,
            ) {
                Ok(sid) => Ok((Action::Allow, sid)),
                Err(e) => Err(e),
            },
            (None, Some(v), None) => match rigid_sid(
                v,
                "Ace.deny: expected security.windows.Sid"@,
            ) {
                Ok(sid) => Ok((Action::Deny, sid)),
                Err(e) => Err(e),
            },
            (None, None, Some(v)) => match rigid_sid(
                v,
                "Ace.audit: expected security.windows.Sid"@,
            ) {
                Ok(sid) => Ok((Action::Audit { successful: false, failed: false }, sid)),
                Err(e) => Err(e),
            },
            (None, None, None) => Err(ErrorView::Value("Ace: expected one of allow, deny, audit"@)),
            _ => Err(ErrorView::Value("Ace: multiple arguments name conflicting ACE types"@)),
        }
    }

    /// The flags, if they are given.
    pub open spec fn rigid_flags(self) -> Result<Option<u32>, ErrorView> {
        match self.flags {
            None => Ok(None),
            Some(v) => match as_flags(FlagClass::AceFlags, v) {
                Some(bits) => Ok(Some(bits)),
                None => Err(ErrorView::Type("Ace.flags: expected security.windows.AceFlags"@)),
            },
        }
    }

    /// The entry that the arguments say, where they have to be of the right
    /// kind.
    pub open spec fn rigid(self) -> Result<AceRequestView, ErrorView> {
        let trustee = self.rigid_trustee();
        let mask = as_flags(FlagClass::AccessMask, self.mask);
        let flags = self.rigid_flags();
        let object_type = rigid_guid(self.object_type, "Ace.object_type: expected uuid.Guid"@);
        let inherited = rigid_guid(
            self.inherited_object_type,
            "Ace.inherited_object_type: expected uuid.Guid"@,
        );
        let callback = rigid_bool(self.callback, "Ace.callback"@);
        let data = rigid_bin(self.application_data, "Ace.application_data"@);
        let successful = rigid_bool(self.successful, "Ace.successful"@);
        let failed = rigid_bool(self.failed, "Ace.failed"@);
        if trustee is Err {
            Err(trustee->Err_0)
        } else if mask is None {
            Err(ErrorView::Type("Ace.mask: expected security.windows.AccessMask"@))
        } else if flags is Err {
            Err(flags->Err_0)
        } else if object_type is Err {
            Err(object_type->Err_0)
        } else if inherited is Err {
            Err(inherited->Err_0)
        } else if callback is Err {
            Err(callback->Err_0)
        } else if data is Err {
            Err(data->Err_0)
        } else if successful is Err {
            Err(successful->Err_0)
        } else if failed is Err {
            Err(failed->Err_0)
        } else {
            match recorded(
                trustee->Ok_0.0,
                successful->Ok_0,
                failed->Ok_0,
                "Ace: successful and failed apply only to audit"@,
                "Ace: audit requires successful or failed"@,
            ) {
                Err(e) => Err(e),
                Ok(action) => Ok(
                    AceRequestView {
                        action,
                        sid: trustee->Ok_0.1,
                        mask: mask->0,
                        flags: flags->Ok_0,
                        object_type: object_type->Ok_0,
                        inherited_object_type: inherited->Ok_0,
                        callback: or_false(callback->Ok_0),
                        application_data: data->Ok_0,
                    },
                ),
            }
        }
    }
}

/// A GUID that has to be one, if it is given.
pub open spec fn rigid_guid(value: Option<SpecValue>, what: Seq<char>) -> Result<
    Option<u128>,
    ErrorView,
> {
    match value {
        None => Ok(None),
        Some(SpecValue::Guid(n)) => Ok(Some(n)),
        Some(_) => Err(ErrorView::Type(what)),
    }
}

/// A truth value, if it is given.
pub open spec fn rigid_bool(value: Option<SpecValue>, path: Seq<char>) -> Result<
    Option<bool>,
    ErrorView,
> {
    match value {
        None => Ok(None),
        Some(v) => match bool_result(v, path) {
            Ok(b) => Ok(Some(b)),
            Err(e) => Err(e),
        },
    }
}

/// Binary data, if it is given.
pub open spec fn rigid_bin(value: Option<SpecValue>, path: Seq<char>) -> Result<
    Option<Seq<u8>>,
    ErrorView,
> {
    match value {
        None => Ok(None),
        Some(v) => match bin_result(v, path) {
            Ok(b) => Ok(Some(b)),
            Err(e) => Err(e),
        },
    }
}

fn take_sid(value: &SpecValue, what: &str) -> (r: Result<Sid, Error>)
    ensures
        crate::security::sid::sid_view(r) == rigid_sid(*value, what@),
{
    match as_windows_sid(value) {
        Some(sid) => Ok(sid),
        None => Err(Error::Type(what.to_owned())),
    }
}

fn take_guid(value: &Option<SpecValue>, what: &str) -> (r: Result<Option<u128>, Error>)
    ensures
        outcome(r) == rigid_guid(*value, what@),
{
    match value {
        None => Ok(None),
        Some(SpecValue::Guid(n)) => Ok(Some(*n)),
        Some(_) => Err(Error::Type(what.to_owned())),
    }
}

fn take_bool(value: &Option<SpecValue>, path: &SpecPath) -> (r: Result<Option<bool>, Error>)
    ensures
        outcome(r) == rigid_bool(*value, path@),
{
    match value {
        None => Ok(None),
        Some(v) => match ace_bool(v, path) {
            Ok(b) => Ok(Some(b)),
            Err(e) => Err(e),
        },
    }
}

/// The entry that its constructor makes, which takes only arguments of the
/// right kind.
pub fn new_ace(args: &AceArgs) -> (r: Result<AceRequest, Error>)
    ensures
        request_view(r) == args.rigid(),
{
    let (action, sid) = match (&args.allow, &args.deny, &args.audit) {
        (Some(v), None, None) => match take_sid(v, "Ace.allow: expected security.windows.Sid") {
            Ok(sid) => (Action::Allow, sid),
            Err(e) => return Err(e),
        },
        (None, Some(v), None) => match take_sid(v, "Ace.deny: expected security.windows.Sid") {
            Ok(sid) => (Action::Deny, sid),
            Err(e) => return Err(e),
        },
        (None, None, Some(v)) => match take_sid(v, "Ace.audit: expected security.windows.Sid") {
            Ok(sid) => (Action::Audit { successful: false, failed: false }, sid),
            Err(e) => return Err(e),
        },
        (None, None, None) => return Err(
            Error::Value("Ace: expected one of allow, deny, audit".to_owned()),
        ),
        _ => return Err(
            Error::Value("Ace: multiple arguments name conflicting ACE types".to_owned()),
        ),
    };
    let path = SpecPath::root("Ace");
    proof {
        reveal_strlit("Ace");
        reveal_strlit(".");
        reveal_strlit("callback");
        reveal_strlit("application_data");
        reveal_strlit("successful");
        reveal_strlit("failed");
        reveal_strlit("Ace.callback");
        reveal_strlit("Ace.application_data");
        reveal_strlit("Ace.successful");
        reveal_strlit("Ace.failed");
        assert(under_key("Ace"@, "callback"@) =~= "Ace.callback"@);
        assert(under_key("Ace"@, "application_data"@) =~= "Ace.application_data"@);
        assert(under_key("Ace"@, "successful"@) =~= "Ace.successful"@);
        assert(under_key("Ace"@, "failed"@) =~= "Ace.failed"@);
    }
    let mask: u32 = match cast_flags(FlagClass::AccessMask, &args.mask) {
        Some(bits) => bits,
        None => return Err(
            Error::Type("Ace.mask: expected security.windows.AccessMask".to_owned()),
        ),
    };
    let flags: Option<u32> = match &args.flags {
        None => None,
        Some(v) => match cast_flags(FlagClass::AceFlags, v) {
            Some(bits) => Some(bits),
            None => return Err(
                Error::Type("Ace.flags: expected security.windows.AceFlags".to_owned()),
            ),
        },
    };
    let object_type: Option<u128> = match take_guid(
        &args.object_type,
        "Ace.object_type: expected uuid.Guid",
    ) {
        Ok(guid) => guid,
        Err(e) => return Err(e),
    };
    let inherited_object_type: Option<u128> = match take_guid(
        &args.inherited_object_type,
        "Ace.inherited_object_type: expected uuid.Guid",
    ) {
        Ok(guid) => guid,
        Err(e) => return Err(e),
    };
    let callback = match take_bool(&args.callback, &path.key("callback")) {
        Ok(b) => match b {
            Some(b) => b,
            None => false,
        },
        Err(e) => return Err(e),
    };
    let application_data = match &args.application_data {
        None => None,
        Some(v) => match ace_bin(v, &path.key("application_data")) {
            Ok(bytes) => Some(bytes),
            Err(e) => return Err(e),
        },
    };
    let successful = match take_bool(&args.successful, &path.key("successful")) {
        Ok(b) => b,
        Err(e) => return Err(e),
    };
    let failed = match take_bool(&args.failed, &path.key("failed")) {
        Ok(b) => b,
        Err(e) => return Err(e),
    };
    proof {
        reveal_strlit(": successful and failed apply only to audit");
        reveal_strlit("Ace: successful and failed apply only to audit");
        reveal_strlit(": audit requires successful or failed");
        reveal_strlit("Ace: audit requires successful or failed");
        assert("Ace"@ + ": successful and failed apply only to audit"@
            =~= "Ace: successful and failed apply only to audit"@);
        assert("Ace"@ + ": audit requires successful or failed"@
            =~= "Ace: audit requires successful or failed"@);
    }
    let action = match record(action, successful, failed, &path) {
        Ok(action) => action,
        Err(e) => return Err(e),
    };
    Ok(
        AceRequest {
            action,
            sid,
            mask,
            flags,
            object_type,
            inherited_object_type,
            callback,
            application_data,
        },
    )
}

/// What the constructor of an entry accepts, the function that reads
/// specifications accepts too, and means the same.
pub proof fn declarations_extend_the_constructor(args: AceArgs, path: Seq<char>)
    requires
        args.rigid() is Ok,
    ensures
        args.declarative(path) == args.rigid(),
{
}

/// The access rights with a number.
pub fn access_mask_from_int(value: &SpecValue) -> (r: Result<AccessMask, Error>)
    ensures
        outcome(r) == match id_result(*value, "value"@, u32::MAX as int) {
            Ok(n) => Ok(AccessMask(n as u32)),
            Err(e) => Err(e),
        },
{
    match ace_u32(value, &SpecPath::root("value")) {
        Ok(n) => Ok(AccessMask(n)),
        Err(e) => Err(e),
    }
}

/// The flags of an entry with a number.
pub fn ace_flags_from_int(value: &SpecValue) -> (r: Result<AceFlags, Error>)
    ensures
        outcome(r) == match id_result(*value, "value"@, u8::MAX as int) {
            Ok(n) => Ok(AceFlags(n as u32)),
            Err(e) => Err(e),
        },
{
    match ace_u8(value, &SpecPath::root("value")) {
        Ok(n) => Ok(AceFlags(n as u32)),
        Err(e) => Err(e),
    }
}

/// Whether a key was read.
pub open spec fn was_read(c: AceComponentsView, name: Seq<char>) -> bool {
    if name == "allow"@ {
        c.allow is Some
    } else if name == "deny"@ {
        c.deny is Some
    } else if name == "audit"@ {
        c.audit is Some
    } else if name == "mask"@ {
        c.mask is Some
    } else if name == "flags"@ {
        c.flags is Some
    } else if name == "object_type"@ {
        c.object_type is Some
    } else if name == "inherited_object_type"@ {
        c.inherited_object_type is Some
    } else if name == "callback"@ {
        c.callback is Some
    } else if name == "application_data"@ {
        c.application_data is Some
    } else if name == "successful"@ {
        c.successful is Some
    } else if name == "failed"@ {
        c.failed is Some
    } else {
        false
    }
}

/// A key that is accepted was read, what was read stays read, and what was
/// read is not accepted again.
proof fn lemma_reading(
    c: AceComponentsView,
    name: Seq<char>,
    entry: SpecValue,
    path: Seq<char>,
    other: Seq<char>,
)
    ensures
        was_read(c, name) ==> key_step(c, name, entry, path) is Err,
        key_step(c, name, entry, path) matches Ok(after) ==> was_read(after, name) && (was_read(
            c,
            other,
        ) ==> was_read(after, other)),
{
}

/// What was read of the first keys is still read when more were.
proof fn lemma_read_stays(
    pairs: Seq<(SpecValue, SpecValue)>,
    n: nat,
    m: nat,
    path: Seq<char>,
    name: Seq<char>,
)
    requires
        n <= m,
        components_of(pairs, m, path) is Ok,
    ensures
        components_of(pairs, n, path) is Ok,
        was_read(components_of(pairs, n, path)->Ok_0, name) ==> was_read(
            components_of(pairs, m, path)->Ok_0,
            name,
        ),
    decreases m,
{
    if n < m {
        lemma_read_stays(pairs, n, (m - 1) as nat, path, name);
        let before = components_of(pairs, (m - 1) as nat, path)->Ok_0;
        if let SpecValue::Sym(key) = pairs[m - 1].0 {
            lemma_reading(before, key@, pairs[m - 1].1, path, name);
        }
    }
}

/// A specification that gives a key twice is refused.
pub proof fn repeated_keys_are_refused(
    pairs: Seq<(SpecValue, SpecValue)>,
    i: int,
    j: int,
    first: String,
    second: String,
    path: Seq<char>,
)
    requires
        0 <= i < j < pairs.len(),
        pairs[i].0 == SpecValue::Sym(first),
        pairs[j].0 == SpecValue::Sym(second),
        first@ == second@,
    ensures
        components_of(pairs, pairs.len(), path) is Err,
{
    let n = pairs.len();
    if components_of(pairs, n, path) is Ok {
        lemma_read_stays(pairs, (j + 1) as nat, n, path, first@);
        lemma_read_stays(pairs, j as nat, n, path, first@);
        lemma_read_stays(pairs, (i + 1) as nat, j as nat, path, first@);
        lemma_read_stays(pairs, i as nat, j as nat, path, first@);
        let before = components_of(pairs, i as nat, path)->Ok_0;
        lemma_reading(before, first@, pairs[i].1, path, first@);
        let at = components_of(pairs, j as nat, path)->Ok_0;
        lemma_reading(at, second@, pairs[j].1, path, first@);
    }
}

} // verus!

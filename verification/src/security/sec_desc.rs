//! Windows security descriptors, as programs describe and read them.

use vstd::prelude::*;
use crate::console::data::copy_bytes;
use crate::error::{outcome, Error, ErrorView};
use crate::security::acl::{acl_result, coerce_acl, error_option, AclItem, AclItemView};
use crate::security::coerce::{ace_bool, ace_u8, bool_result, id_result};
use crate::security::model::{AclRecord, SecDescRecord, Sid, SidView, SpecValue};
use crate::security::path::{
    duplicate_key, reported, symbol_keys, under_key, unknown_key, SpecPath,
};
use crate::security::sid::{
    as_windows_sid, coerce_sid_option, sid_option, sid_option_result,
};
use crate::text::str_eq;

verus! {

broadcast use vstd::string::group_string_axioms;

/// A part that may be left alone, given, or taken away.
#[derive(Debug)]
pub enum NullableComponent<T> {
    Unspecified,
    Given(T),
    Clear,
}

/// The part that an optional value stands for.
pub open spec fn component<T>(value: Option<T>) -> NullableComponent<T> {
    match value {
        Some(value) => NullableComponent::Given(value),
        None => NullableComponent::Clear,
    }
}

impl<T> NullableComponent<T> {
    /// The part that an optional value stands for.
    pub fn from_option(value: Option<T>) -> (c: NullableComponent<T>)
        ensures
            c == component(value),
    {
        match value {
            Some(value) => NullableComponent::Given(value),
            None => NullableComponent::Clear,
        }
    }

    /// Whether the part is left alone.
    pub fn is_unspecified(&self) -> (r: bool)
        ensures
            r == (self is Unspecified),
    {
        match self {
            NullableComponent::Unspecified => true,
            _ => false,
        }
    }
}

/// The change that a part asks for.
pub open spec fn change<T>(c: NullableComponent<T>) -> Option<Option<T>> {
    match c {
        NullableComponent::Unspecified => None,
        NullableComponent::Given(value) => Some(Some(value)),
        NullableComponent::Clear => Some(None),
    }
}

/// The change that a part asks for.
fn into_change<T>(c: NullableComponent<T>) -> (r: Option<Option<T>>)
    ensures
        r == change(c),
{
    match c {
        NullableComponent::Unspecified => None,
        NullableComponent::Given(value) => Some(Some(value)),
        NullableComponent::Clear => Some(None),
    }
}

/// A part that is an identifier, by its content.
pub open spec fn sid_component(c: NullableComponent<Sid>) -> NullableComponent<SidView> {
    match c {
        NullableComponent::Unspecified => NullableComponent::Unspecified,
        NullableComponent::Given(sid) => NullableComponent::Given(sid@),
        NullableComponent::Clear => NullableComponent::Clear,
    }
}

/// A part that is a list, by its content.
pub open spec fn acl_component(c: NullableComponent<AclItem>) -> NullableComponent<AclItemView> {
    match c {
        NullableComponent::Unspecified => NullableComponent::Unspecified,
        NullableComponent::Given(item) => NullableComponent::Given(item@),
        NullableComponent::Clear => NullableComponent::Clear,
    }
}

/// A change of an identifier, by its content.
pub open spec fn sid_change(c: Option<Option<Sid>>) -> Option<Option<SidView>> {
    match c {
        None => None,
        Some(sid) => Some(sid_option(sid)),
    }
}

/// A change of a list, by its content.
pub open spec fn acl_change(c: Option<Option<AclItem>>) -> Option<Option<AclItemView>> {
    match c {
        None => None,
        Some(None) => Some(None),
        Some(Some(item)) => Some(Some(item@)),
    }
}

/// What a descriptor says of its parts.
#[derive(Clone, Copy, Debug, PartialEq, Eq, Structural)]
pub enum Control {
    OwnerDefaulted,
    GroupDefaulted,
    DaclPresent,
    DaclDefaulted,
    DaclAutoInheritRequired,
    DaclAutoInherited,
    DaclProtected,
    SaclPresent,
    SaclDefaulted,
    SaclAutoInheritRequired,
    SaclAutoInherited,
    SaclProtected,
}

/// The things that a descriptor says of its parts, in order.
pub open spec fn controls() -> Seq<Control> {
    seq![
        Control::OwnerDefaulted,
        Control::GroupDefaulted,
        Control::DaclPresent,
        Control::DaclDefaulted,
        Control::DaclAutoInheritRequired,
        Control::DaclAutoInherited,
        Control::DaclProtected,
        Control::SaclPresent,
        Control::SaclDefaulted,
        Control::SaclAutoInheritRequired,
        Control::SaclAutoInherited,
        Control::SaclProtected,
    ]
}

impl Control {
    /// The place in the order.
    pub open spec fn place(self) -> int {
        match self {
            Control::OwnerDefaulted => 0,
            Control::GroupDefaulted => 1,
            Control::DaclPresent => 2,
            Control::DaclDefaulted => 3,
            Control::DaclAutoInheritRequired => 4,
            Control::DaclAutoInherited => 5,
            Control::DaclProtected => 6,
            Control::SaclPresent => 7,
            Control::SaclDefaulted => 8,
            Control::SaclAutoInheritRequired => 9,
            Control::SaclAutoInherited => 10,
            Control::SaclProtected => 11,
        }
    }

    /// The key by which programs give it.
    pub open spec fn key(self) -> Seq<char> {
        match self {
            Control::OwnerDefaulted => "owner_defaulted"@,
            Control::GroupDefaulted => "group_defaulted"@,
            Control::DaclPresent => "dacl_present"@,
            Control::DaclDefaulted => "dacl_defaulted"@,
            Control::DaclAutoInheritRequired => "dacl_auto_inherit_required"@,
            Control::DaclAutoInherited => "dacl_auto_inherited"@,
            Control::DaclProtected => "dacl_protected"@,
            Control::SaclPresent => "sacl_present"@,
            Control::SaclDefaulted => "sacl_defaulted"@,
            Control::SaclAutoInheritRequired => "sacl_auto_inherit_required"@,
            Control::SaclAutoInherited => "sacl_auto_inherited"@,
            Control::SaclProtected => "sacl_protected"@,
        }
    }

    /// The part that it speaks of.
    pub open spec fn part(self) -> u32 {
        match self {
            Control::OwnerDefaulted => 0x1,
            Control::GroupDefaulted => 0x2,
            Control::DaclPresent => 0x4,
            Control::DaclDefaulted => 0x4,
            Control::DaclAutoInheritRequired => 0x4,
            Control::DaclAutoInherited => 0x4,
            Control::DaclProtected => 0x4,
            Control::SaclPresent => 0x8,
            Control::SaclDefaulted => 0x8,
            Control::SaclAutoInheritRequired => 0x8,
            Control::SaclAutoInherited => 0x8,
            Control::SaclProtected => 0x8,
        }
    }

    /// The bit that says it.
    pub open spec fn bit(self) -> u32 {
        match self {
            Control::OwnerDefaulted => 0x1,
            Control::GroupDefaulted => 0x2,
            Control::DaclPresent => 0x4,
            Control::DaclDefaulted => 0x8,
            Control::DaclAutoInheritRequired => 0x100,
            Control::DaclAutoInherited => 0x400,
            Control::DaclProtected => 0x1000,
            Control::SaclPresent => 0x10,
            Control::SaclDefaulted => 0x20,
            Control::SaclAutoInheritRequired => 0x200,
            Control::SaclAutoInherited => 0x800,
            Control::SaclProtected => 0x2000,
        }
    }

    /// The place in the order.
    pub fn index(self) -> (i: usize)
        ensures
            i == self.place(),
            i < 12,
    {
        match self {
            Control::OwnerDefaulted => 0,
            Control::GroupDefaulted => 1,
            Control::DaclPresent => 2,
            Control::DaclDefaulted => 3,
            Control::DaclAutoInheritRequired => 4,
            Control::DaclAutoInherited => 5,
            Control::DaclProtected => 6,
            Control::SaclPresent => 7,
            Control::SaclDefaulted => 8,
            Control::SaclAutoInheritRequired => 9,
            Control::SaclAutoInherited => 10,
            Control::SaclProtected => 11,
        }
    }

    /// What stands at a place in the order.
    pub fn at(i: usize) -> (c: Control)
        requires
            i < 12,
        ensures
            c == controls()[i as int],
            c.place() == i,
    {
        match i {
            0 => Control::OwnerDefaulted,
            1 => Control::GroupDefaulted,
            2 => Control::DaclPresent,
            3 => Control::DaclDefaulted,
            4 => Control::DaclAutoInheritRequired,
            5 => Control::DaclAutoInherited,
            6 => Control::DaclProtected,
            7 => Control::SaclPresent,
            8 => Control::SaclDefaulted,
            9 => Control::SaclAutoInheritRequired,
            10 => Control::SaclAutoInherited,
            _ => Control::SaclProtected,
        }
    }

    /// The key by which programs give it.
    pub fn name(self) -> (s: &'static str)
        ensures
            s@ == self.key(),
    {
        match self {
            Control::OwnerDefaulted => "owner_defaulted",
            Control::GroupDefaulted => "group_defaulted",
            Control::DaclPresent => "dacl_present",
            Control::DaclDefaulted => "dacl_defaulted",
            Control::DaclAutoInheritRequired => "dacl_auto_inherit_required",
            Control::DaclAutoInherited => "dacl_auto_inherited",
            Control::DaclProtected => "dacl_protected",
            Control::SaclPresent => "sacl_present",
            Control::SaclDefaulted => "sacl_defaulted",
            Control::SaclAutoInheritRequired => "sacl_auto_inherit_required",
            Control::SaclAutoInherited => "sacl_auto_inherited",
            Control::SaclProtected => "sacl_protected",
        }
    }

    /// The part that it speaks of, and the bit that says it.
    fn bits(self) -> (r: (u32, u32))
        ensures
            r == (self.part(), self.bit()),
    {
        match self {
            Control::OwnerDefaulted => (0x1, 0x1),
            Control::GroupDefaulted => (0x2, 0x2),
            Control::DaclPresent => (0x4, 0x4),
            Control::DaclDefaulted => (0x4, 0x8),
            Control::DaclAutoInheritRequired => (0x4, 0x100),
            Control::DaclAutoInherited => (0x4, 0x400),
            Control::DaclProtected => (0x4, 0x1000),
            Control::SaclPresent => (0x8, 0x10),
            Control::SaclDefaulted => (0x8, 0x20),
            Control::SaclAutoInheritRequired => (0x8, 0x200),
            Control::SaclAutoInherited => (0x8, 0x800),
            Control::SaclProtected => (0x8, 0x2000),
        }
    }
}

/// The first of the things from the place `from` on that goes by a key.
pub open spec fn control_named(name: Seq<char>, from: int) -> Option<Control>
    decreases 12 - from,
{
    if from < 0 || from >= 12 {
        None
    } else if controls()[from].key() == name {
        Some(controls()[from])
    } else {
        control_named(name, from + 1)
    }
}

/// What goes by a key.
pub fn find_control(name: &str) -> (r: Option<Control>)
    ensures
        r == control_named(name@, 0),
{
    let mut i: usize = 0;
    while i < 12
        invariant
            i <= 12,
            control_named(name@, 0) == control_named(name@, i as int),
        decreases 12 - i,
    {
        let c = Control::at(i);
        if str_eq(c.name(), name) {
            return Some(c);
        }
        i = i + 1;
    }
    None
}

/// The parts of a security descriptor that a program gives.
#[derive(Debug)]
pub struct SecDescComponents {
    pub owner: NullableComponent<Sid>,
    pub group: NullableComponent<Sid>,
    pub dacl: NullableComponent<AclItem>,
    pub sacl: NullableComponent<AclItem>,
    pub controls: [Option<bool>; 12],
    pub rm_control: NullableComponent<u8>,
}

/// The content of [`SecDescComponents`].
#[verifier::ext_equal]
pub struct SecDescComponentsView {
    pub owner: NullableComponent<SidView>,
    pub group: NullableComponent<SidView>,
    pub dacl: NullableComponent<AclItemView>,
    pub sacl: NullableComponent<AclItemView>,
    pub controls: Seq<Option<bool>>,
    pub rm_control: NullableComponent<u8>,
}

impl View for SecDescComponents {
    type V = SecDescComponentsView;

    open spec fn view(&self) -> SecDescComponentsView {
        SecDescComponentsView {
            owner: sid_component(self.owner),
            group: sid_component(self.group),
            dacl: acl_component(self.dacl),
            sacl: acl_component(self.sacl),
            controls: self.controls@,
            rm_control: self.rm_control,
        }
    }
}

/// No part.
pub open spec fn no_components() -> SecDescComponentsView {
    SecDescComponentsView {
        owner: NullableComponent::Unspecified,
        group: NullableComponent::Unspecified,
        dacl: NullableComponent::Unspecified,
        sacl: NullableComponent::Unspecified,
        controls: Seq::new(12, |i: int| None),
        rm_control: NullableComponent::Unspecified,
    }
}

/// A change to a security descriptor: what is not mentioned stays.
#[derive(Debug)]
pub struct SecDescUpdate {
    pub owner: Option<Option<Sid>>,
    pub group: Option<Option<Sid>>,
    pub dacl: Option<Option<AclItem>>,
    pub sacl: Option<Option<AclItem>>,
    pub controls: [Option<bool>; 12],
    pub rm_control: Option<Option<u8>>,
}

/// The content of a [`SecDescUpdate`].
pub struct SecDescUpdateView {
    pub owner: Option<Option<SidView>>,
    pub group: Option<Option<SidView>>,
    pub dacl: Option<Option<AclItemView>>,
    pub sacl: Option<Option<AclItemView>>,
    pub controls: Seq<Option<bool>>,
    pub rm_control: Option<Option<u8>>,
}

impl View for SecDescUpdate {
    type V = SecDescUpdateView;

    open spec fn view(&self) -> SecDescUpdateView {
        SecDescUpdateView {
            owner: sid_change(self.owner),
            group: sid_change(self.group),
            dacl: acl_change(self.dacl),
            sacl: acl_change(self.sacl),
            controls: self.controls@,
            rm_control: self.rm_control,
        }
    }
}

/// The change that changes nothing.
pub open spec fn no_change() -> SecDescUpdateView {
    SecDescUpdateView {
        owner: None,
        group: None,
        dacl: None,
        sacl: None,
        controls: Seq::new(12, |i: int| None),
        rm_control: None,
    }
}

/// The change that the components ask for.
pub open spec fn updated(c: SecDescComponentsView) -> SecDescUpdateView {
    SecDescUpdateView {
        owner: change(c.owner),
        group: change(c.group),
        dacl: change(c.dacl),
        sacl: change(c.sacl),
        controls: c.controls,
        rm_control: change(c.rm_control),
    }
}

impl SecDescComponents {
    /// No part.
    pub fn new() -> (c: SecDescComponents)
        ensures
            c@ == no_components(),
    {
        let c = SecDescComponents {
            owner: NullableComponent::Unspecified,
            group: NullableComponent::Unspecified,
            dacl: NullableComponent::Unspecified,
            sacl: NullableComponent::Unspecified,
            controls: [None; 12],
            rm_control: NullableComponent::Unspecified,
        };
        assert(c@ =~= no_components());
        c
    }

    /// Whether no part is given.
    pub fn is_empty(&self) -> (r: bool)
        ensures
            r == (self@ == no_components()),
    {
        let mut i: usize = 0;
        while i < 12
            invariant
                i <= 12,
                forall|j: int| 0 <= j < i ==> (#[trigger] self.controls@[j]) is None,
            decreases 12 - i,
        {
            if self.controls[i].is_some() {
                assert(self@.controls[i as int] != no_components().controls[i as int]);
                return false;
            }
            i = i + 1;
        }
        assert(self@.controls =~= no_components().controls);
        self.owner.is_unspecified() && self.group.is_unspecified() && self.dacl.is_unspecified()
            && self.sacl.is_unspecified() && self.rm_control.is_unspecified()
    }

    /// The change that the parts ask for.
    pub fn into_update(self) -> (update: SecDescUpdate)
        ensures
            update@ == updated(self@),
    {
        SecDescUpdate {
            owner: into_change(self.owner),
            group: into_change(self.group),
            dacl: into_change(self.dacl),
            sacl: into_change(self.sacl),
            controls: self.controls,
            rm_control: into_change(self.rm_control),
        }
    }
}

/// The parts ask for a change exactly if one of them is given.
pub proof fn empty_components_change_nothing(c: SecDescComponentsView)
    ensures
        c == no_components() <==> updated(c) == no_change(),
{
    if updated(c) == no_change() {
        assert(c =~= no_components());
    }
}

/// A list of a descriptor.
#[derive(Clone, Copy, Debug, PartialEq, Eq, Structural)]
pub enum AclSlot {
    Dacl,
    Sacl,
}

/// The parts of a descriptor as far as they were understood, the order in which
/// their lists are to be packed, and the error that stopped them, which is
/// reported once the lists before it are packed.
#[derive(Debug)]
pub struct PartialDesc {
    pub components: SecDescComponents,
    pub order: Vec<AclSlot>,
    pub error: Option<Error>,
}

/// The content of a [`PartialDesc`].
#[verifier::ext_equal]
pub struct PartialDescView {
    pub components: SecDescComponentsView,
    pub order: Seq<AclSlot>,
    pub error: Option<ErrorView>,
}

impl View for PartialDesc {
    type V = PartialDescView;

    open spec fn view(&self) -> PartialDescView {
        PartialDescView {
            components: self.components@,
            order: self.order@,
            error: error_option(self.error),
        }
    }
}

impl PartialDescView {
    /// The same, stopped by an error.
    pub open spec fn stopped(self, e: ErrorView) -> PartialDescView {
        PartialDescView { error: Some(e), ..self }
    }

    /// The same with other parts.
    pub open spec fn with(self, components: SecDescComponentsView) -> PartialDescView {
        PartialDescView { components, ..self }
    }
}

/// No part.
pub open spec fn nothing() -> PartialDescView {
    PartialDescView { components: no_components(), order: Seq::empty(), error: None }
}

impl PartialDesc {
    /// No part.
    pub fn new() -> (p: PartialDesc)
        ensures
            p@ == nothing(),
    {
        let p = PartialDesc {
            components: SecDescComponents::new(),
            order: Vec::new(),
            error: None,
        };
        assert(p@ =~= nothing());
        p
    }
}

/// What a value says about resource management; nil for nothing.
pub open spec fn rm_result(value: SpecValue, path: Seq<char>) -> Result<
    NullableComponent<u8>,
    ErrorView,
> {
    if value is Nil {
        Ok(NullableComponent::Clear)
    } else {
        match id_result(value, path, u8::MAX as int) {
            Ok(n) => Ok(NullableComponent::Given(n as u8)),
            Err(e) => Err(e),
        }
    }
}

/// What a value says about resource management.
pub fn parse_rm_control(value: &SpecValue, path: &SpecPath) -> (r: Result<
    NullableComponent<u8>,
    Error,
>)
    ensures
        outcome(r) == rm_result(*value, path@),
{
    match value {
        SpecValue::Nil => Ok(NullableComponent::Clear),
        _ => match ace_u8(value, path) {
            Ok(n) => Ok(NullableComponent::Given(n)),
            Err(e) => Err(e),
        },
    }
}

/// What the key `owner` adds.
pub open spec fn owner_step(p: PartialDescView, entry: SpecValue, path: Seq<char>) -> PartialDescView {
    let at = under_key(path, "owner"@);
    if p.error is Some {
        p
    } else if !(p.components.owner is Unspecified) {
        p.stopped(duplicate_key(path, "owner"@))
    } else {
        match sid_option_result(entry, at) {
            Err(e) => p.stopped(e),
            Ok(v) => p.with(SecDescComponentsView { owner: component(v), ..p.components }),
        }
    }
}

fn take_owner(partial: PartialDesc, entry: &SpecValue, path: &SpecPath) -> (r: PartialDesc)
    ensures
        r@ == owner_step(partial@, *entry, path@),
{
    let mut p = partial;
    if p.error.is_some() {
        return p;
    }
    if !p.components.owner.is_unspecified() {
        p.error = Some(path.duplicate_key("owner"));
        return p;
    }
    match coerce_sid_option(entry, &path.key("owner")) {
        Err(e) => {
            p.error = Some(e);
        },
        Ok(v) => {
            p.components.owner = NullableComponent::from_option(v);
        },
    }
    p
}

/// What the key `group` adds.
pub open spec fn group_step(p: PartialDescView, entry: SpecValue, path: Seq<char>) -> PartialDescView {
    let at = under_key(path, "group"@);
    if p.error is Some {
        p
    } else if !(p.components.group is Unspecified) {
        p.stopped(duplicate_key(path, "group"@))
    } else {
        match sid_option_result(entry, at) {
            Err(e) => p.stopped(e),
            Ok(v) => p.with(SecDescComponentsView { group: component(v), ..p.components }),
        }
    }
}

fn take_group(partial: PartialDesc, entry: &SpecValue, path: &SpecPath) -> (r: PartialDesc)
    ensures
        r@ == group_step(partial@, *entry, path@),
{
    let mut p = partial;
    if p.error.is_some() {
        return p;
    }
    if !p.components.group.is_unspecified() {
        p.error = Some(path.duplicate_key("group"));
        return p;
    }
    match coerce_sid_option(entry, &path.key("group")) {
        Err(e) => {
            p.error = Some(e);
        },
        Ok(v) => {
            p.components.group = NullableComponent::from_option(v);
        },
    }
    p
}

/// What the key `dacl` adds.
pub open spec fn dacl_step(p: PartialDescView, entry: SpecValue, path: Seq<char>) -> PartialDescView {
    let at = under_key(path, "dacl"@);
    if p.error is Some {
        p
    } else if !(p.components.dacl is Unspecified) {
        p.stopped(duplicate_key(path, "dacl"@))
    } else if entry is Nil {
        p.with(SecDescComponentsView { dacl: NullableComponent::Clear, ..p.components })
    } else {
        let (item, error) = acl_result(entry, at);
        PartialDescView {
            components: SecDescComponentsView {
                dacl: NullableComponent::Given(item),
                ..p.components
            },
            order: p.order.push(AclSlot::Dacl),
            error,
        }
    }
}

fn take_dacl(partial: PartialDesc, entry: &SpecValue, path: &SpecPath) -> (r: PartialDesc)
    ensures
        r@ == dacl_step(partial@, *entry, path@),
{
    let mut p = partial;
    if p.error.is_some() {
        return p;
    }
    if !p.components.dacl.is_unspecified() {
        p.error = Some(path.duplicate_key("dacl"));
        return p;
    }
    match entry {
        SpecValue::Nil => {
            p.components.dacl = NullableComponent::Clear;
        },
        _ => {
            let (item, error) = coerce_acl(entry, &path.key("dacl"));
            p.components.dacl = NullableComponent::Given(item);
            p.order.push(AclSlot::Dacl);
            p.error = error;
        },
    }
    p
}

/// What the key `sacl` adds.
pub open spec fn sacl_step(p: PartialDescView, entry: SpecValue, path: Seq<char>) -> PartialDescView {
    let at = under_key(path, "sacl"@);
    if p.error is Some {
        p
    } else if !(p.components.sacl is Unspecified) {
        p.stopped(duplicate_key(path, "sacl"@))
    } else if entry is Nil {
        p.with(SecDescComponentsView { sacl: NullableComponent::Clear, ..p.components })
    } else {
        let (item, error) = acl_result(entry, at);
        PartialDescView {
            components: SecDescComponentsView {
                sacl: NullableComponent::Given(item),
                ..p.components
            },
            order: p.order.push(AclSlot::Sacl),
            error,
        }
    }
}

fn take_sacl(partial: PartialDesc, entry: &SpecValue, path: &SpecPath) -> (r: PartialDesc)
    ensures
        r@ == sacl_step(partial@, *entry, path@),
{
    let mut p = partial;
    if p.error.is_some() {
        return p;
    }
    if !p.components.sacl.is_unspecified() {
        p.error = Some(path.duplicate_key("sacl"));
        return p;
    }
    match entry {
        SpecValue::Nil => {
            p.components.sacl = NullableComponent::Clear;
        },
        _ => {
            let (item, error) = coerce_acl(entry, &path.key("sacl"));
            p.components.sacl = NullableComponent::Given(item);
            p.order.push(AclSlot::Sacl);
            p.error = error;
        },
    }
    p
}

/// What the key of a control adds.
pub open spec fn control_step(
    p: PartialDescView,
    control: Control,
    entry: SpecValue,
    path: Seq<char>,
) -> PartialDescView {
    let at = under_key(path, control.key());
    if p.error is Some {
        p
    } else if p.components.controls[control.place()] is Some {
        p.stopped(duplicate_key(path, control.key()))
    } else {
        match bool_result(entry, at) {
            Err(e) => p.stopped(e),
            Ok(v) => p.with(
                SecDescComponentsView {
                    controls: p.components.controls.update(control.place(), Some(v)),
                    ..p.components
                },
            ),
        }
    }
}

fn take_control(partial: PartialDesc, control: Control, entry: &SpecValue, path: &SpecPath) -> (r:
    PartialDesc)
    ensures
        r@ == control_step(partial@, control, *entry, path@),
{
    let mut p = partial;
    if p.error.is_some() {
        return p;
    }
    let i: usize = control.index();
    if p.components.controls[i].is_some() {
        p.error = Some(path.duplicate_key(control.name()));
        return p;
    }
    match ace_bool(entry, &path.key(control.name())) {
        Err(e) => {
            p.error = Some(e);
        },
        Ok(v) => {
            p.components.controls[i] = Some(v);
        },
    }
    p
}

/// What the key `rm_control` adds.
pub open spec fn rm_control_step(p: PartialDescView, entry: SpecValue, path: Seq<char>) -> PartialDescView {
    let at = under_key(path, "rm_control"@);
    if p.error is Some {
        p
    } else if !(p.components.rm_control is Unspecified) {
        p.stopped(duplicate_key(path, "rm_control"@))
    } else {
        match rm_result(entry, at) {
            Err(e) => p.stopped(e),
            Ok(v) => p.with(SecDescComponentsView { rm_control: v, ..p.components }),
        }
    }
}

fn take_rm_control(partial: PartialDesc, entry: &SpecValue, path: &SpecPath) -> (r: PartialDesc)
    ensures
        r@ == rm_control_step(partial@, *entry, path@),
{
    let mut p = partial;
    if p.error.is_some() {
        return p;
    }
    if !p.components.rm_control.is_unspecified() {
        p.error = Some(path.duplicate_key("rm_control"));
        return p;
    }
    match parse_rm_control(entry, &path.key("rm_control")) {
        Err(e) => {
            p.error = Some(e);
        },
        Ok(v) => {
            p.components.rm_control = v;
        },
    }
    p
}

/// What one key of a specification adds.
pub open spec fn key_step(
    p: PartialDescView,
    name: Seq<char>,
    entry: SpecValue,
    path: Seq<char>,
) -> PartialDescView {
    if name == "owner"@ {
        owner_step(p, entry, path)
    } else if name == "group"@ {
        group_step(p, entry, path)
    } else if name == "dacl"@ {
        dacl_step(p, entry, path)
    } else if name == "sacl"@ {
        sacl_step(p, entry, path)
    } else if name == "rm_control"@ {
        rm_control_step(p, entry, path)
    } else {
        match control_named(name, 0) {
            Some(control) => control_step(p, control, entry, path),
            None => p.stopped(unknown_key(path, name)),
        }
    }
}

/// What one key of a specification adds.
fn take_key(p: PartialDesc, name: &str, entry: &SpecValue, path: &SpecPath) -> (r: PartialDesc)
    ensures
        r@ == key_step(p@, name@, *entry, path@),
{
    if str_eq(name, "owner") {
        take_owner(p, entry, path)
    } else if str_eq(name, "group") {
        take_group(p, entry, path)
    } else if str_eq(name, "dacl") {
        take_dacl(p, entry, path)
    } else if str_eq(name, "sacl") {
        take_sacl(p, entry, path)
    } else if str_eq(name, "rm_control") {
        take_rm_control(p, entry, path)
    } else {
        match find_control(name) {
            Some(control) => take_control(p, control, entry, path),
            None => {
                let mut p = p;
                p.error = Some(path.unknown_key(name));
                p
            },
        }
    }
}

/// What the first `n` keys of a specification say.
pub open spec fn pairs_desc(pairs: Seq<(SpecValue, SpecValue)>, n: nat, path: Seq<char>) -> PartialDescView
    decreases n,
{
    if n == 0 {
        nothing()
    } else {
        let p = pairs_desc(pairs, (n - 1) as nat, path);
        if p.error is Some {
            p
        } else {
            match pairs[n - 1].0 {
                SpecValue::Sym(name) => key_step(p, name@, pairs[n - 1].1, path),
                _ => p.stopped(symbol_keys(path)),
            }
        }
    }
}

proof fn lemma_pairs_stopped(pairs: Seq<(SpecValue, SpecValue)>, n: nat, m: nat, path: Seq<char>)
    requires
        n <= m,
        pairs_desc(pairs, n, path).error is Some,
    ensures
        pairs_desc(pairs, m, path) == pairs_desc(pairs, n, path),
    decreases m,
{
    if n < m {
        lemma_pairs_stopped(pairs, n, (m - 1) as nat, path);
    }
}

/// What the keys of a specification of a descriptor say.
pub fn sec_desc_components_from_spec(pairs: &Vec<(SpecValue, SpecValue)>, path: &SpecPath) -> (p:
    PartialDesc)
    ensures
        p@ == pairs_desc(pairs@, pairs@.len(), path@),
{
    let mut p = PartialDesc::new();
    let mut i: usize = 0;
    while i < pairs.len()
        invariant
            i <= pairs@.len(),
            p@ == pairs_desc(pairs@, i as nat, path@),
            p.error is None,
        decreases pairs@.len() - i,
    {
        match &pairs[i].0 {
            SpecValue::Sym(name) => {
                p = take_key(p, name.as_str(), &pairs[i].1, path);
            },
            _ => {
                p.error = Some(path.value_error(": keys must be symbols"));
            },
        }
        assert(p@ =~= pairs_desc(pairs@, (i + 1) as nat, path@));
        if p.error.is_some() {
            proof {
                lemma_pairs_stopped(pairs@, (i + 1) as nat, pairs@.len(), path@);
            }
            return p;
        }
        i = i + 1;
    }
    p
}

/// What a descriptor is made from.
#[derive(Debug)]
pub enum Base {
    /// Nothing.
    Empty,
    /// The descriptor that was given.
    Given,
    /// A packet.
    Packet(Vec<u8>),
    /// A specification.
    Spec { components: SecDescComponents, order: Vec<AclSlot> },
}

/// The content of a [`Base`].
pub enum BaseView {
    Empty,
    Given,
    Packet(Seq<u8>),
    Spec { components: SecDescComponentsView, order: Seq<AclSlot> },
}

impl View for Base {
    type V = BaseView;

    open spec fn view(&self) -> BaseView {
        match self {
            Base::Empty => BaseView::Empty,
            Base::Given => BaseView::Given,
            Base::Packet(bytes) => BaseView::Packet(bytes@),
            Base::Spec { components, order } => BaseView::Spec {
                components: components@,
                order: order@,
            },
        }
    }
}

/// An optional base, by its content.
pub open spec fn base_option(base: Option<Base>) -> Option<BaseView> {
    match base {
        Some(base) => Some(base@),
        None => None,
    }
}

/// What descriptor a value stands for, as far as it was understood.
pub open spec fn desc_result(value: SpecValue, path: Seq<char>) -> (
    Option<BaseView>,
    Option<ErrorView>,
) {
    match value {
        SpecValue::SecDesc(_) => (Some(BaseView::Given), None),
        SpecValue::Bin(bytes, _) => (Some(BaseView::Packet(bytes@)), None),
        SpecValue::Dict(pairs) => {
            let p = pairs_desc(pairs@, pairs@.len(), path);
            (Some(BaseView::Spec { components: p.components, order: p.order }), p.error)
        },
        _ => (None, Some(ErrorView::Type(path + ": expected a dictionary"@))),
    }
}

/// What descriptor a value stands for: a descriptor, a packet, or a
/// specification.
pub fn coerce_sec_desc(value: &SpecValue, path: &SpecPath) -> (r: (Option<Base>, Option<Error>))
    ensures
        (base_option(r.0), error_option(r.1)) == desc_result(*value, path@),
{
    match value {
        SpecValue::SecDesc(_) => (Some(Base::Given), None),
        SpecValue::Bin(bytes, _) => (Some(Base::Packet(copy_bytes(bytes))), None),
        SpecValue::Dict(pairs) => {
            let p = sec_desc_components_from_spec(pairs, path);
            (Some(Base::Spec { components: p.components, order: p.order }), p.error)
        },
        _ => (None, Some(path.type_error(": expected a dictionary"))),
    }
}

/// What descriptor a value named `name` stands for.
pub fn sec_desc_from_value(value: &SpecValue, name: &str) -> (r: (Option<Base>, Option<Error>))
    ensures
        (base_option(r.0), error_option(r.1)) == desc_result(*value, name@),
{
    coerce_sec_desc(value, &SpecPath::root(name))
}

/// The named arguments of a descriptor, and the one that stands before them.
/// The controls are in their order.
#[derive(Debug)]
pub struct SecDescArgs {
    pub value: Option<SpecValue>,
    pub owner: Option<SpecValue>,
    pub group: Option<SpecValue>,
    pub dacl: Option<SpecValue>,
    pub sacl: Option<SpecValue>,
    pub controls: [Option<SpecValue>; 12],
    pub rm_control: Option<SpecValue>,
}

/// What the first `n` controls of the arguments add.
pub open spec fn controls_step(
    p: PartialDescView,
    args: Seq<Option<SpecValue>>,
    n: nat,
    path: Seq<char>,
) -> PartialDescView
    decreases n,
{
    if n == 0 {
        p
    } else {
        let before = controls_step(p, args, (n - 1) as nat, path);
        match args[n - 1] {
            Some(v) => control_step(before, controls()[n - 1], v, path),
            None => before,
        }
    }
}

/// The first `n` controls of the arguments, each of which has to be a truth
/// value.
pub open spec fn rigid_controls(args: Seq<Option<SpecValue>>, n: nat) -> Result<
    Seq<Option<bool>>,
    ErrorView,
>
    decreases n,
{
    if n == 0 {
        Ok(Seq::empty())
    } else {
        match rigid_controls(args, (n - 1) as nat) {
            Err(e) => Err(e),
            Ok(v) => match rigid_bool(args[n - 1], controls()[n - 1].key()) {
                Err(e) => Err(e),
                Ok(b) => Ok(v.push(b)),
            },
        }
    }
}

proof fn lemma_rigid_controls(args: Seq<Option<SpecValue>>, n: nat, m: nat)
    requires
        n <= m,
    ensures
        rigid_controls(args, n) is Err ==> rigid_controls(args, m) == rigid_controls(args, n),
        rigid_controls(args, m) matches Ok(v) ==> v.len() == m && rigid_controls(args, n) == Ok::<
            Seq<Option<bool>>,
            ErrorView,
        >(v.take(n as int)),
    decreases m,
{
    if n < m {
        lemma_rigid_controls(args, n, (m - 1) as nat);
        if let Ok(v) = rigid_controls(args, m) {
            let before = rigid_controls(args, (m - 1) as nat)->Ok_0;
            assert(v.take(n as int) =~= before.take(n as int));
        }
    } else if let Ok(v) = rigid_controls(args, m) {
        if m > 0 {
            lemma_rigid_controls(args, (m - 1) as nat, (m - 1) as nat);
        }
        assert(v.take(n as int) =~= v);
    }
}

impl SecDescArgs {
    /// Whether any part is given by name.
    pub open spec fn supplied(self) -> bool {
        self.owner is Some || self.group is Some || self.dacl is Some || self.sacl is Some
            || self.rm_control is Some || exists|i: int|
            0 <= i < 12 && (#[trigger] self.controls@[i]) is Some
    }

    /// The parts that are given by name, each read as in a specification.
    pub open spec fn components(self, path: Seq<char>) -> PartialDescView {
        let p = nothing();
        let p = match self.owner {
            Some(v) => owner_step(p, v, path),
            None => p,
        };
        let p = match self.group {
            Some(v) => group_step(p, v, path),
            None => p,
        };
        let p = match self.dacl {
            Some(v) => dacl_step(p, v, path),
            None => p,
        };
        let p = match self.sacl {
            Some(v) => sacl_step(p, v, path),
            None => p,
        };
        let p = match self.rm_control {
            Some(v) => rm_control_step(p, v, path),
            None => p,
        };
        controls_step(p, self.controls@, 12, path)
    }

    /// The parts that are given by name, where each has to be of the right
    /// kind.
    pub open spec fn rigid(self) -> Result<SecDescComponentsView, ErrorView> {
        let rm_control = rigid_rm(self.rm_control);
        let owner = rigid_sid(self.owner, "owner"@);
        let group = rigid_sid(self.group, "group"@);
        let dacl = rigid_acl(self.dacl, "dacl"@);
        let sacl = rigid_acl(self.sacl, "sacl"@);
        let controls = rigid_controls(self.controls@, 12);
        if rm_control is Err {
            Err(rm_control->Err_0)
        } else if owner is Err {
            Err(owner->Err_0)
        } else if group is Err {
            Err(group->Err_0)
        } else if dacl is Err {
            Err(dacl->Err_0)
        } else if sacl is Err {
            Err(sacl->Err_0)
        } else if controls is Err {
            Err(controls->Err_0)
        } else {
            Ok(
                SecDescComponentsView {
                    owner: owner->Ok_0,
                    group: group->Ok_0,
                    dacl: dacl->Ok_0,
                    sacl: sacl->Ok_0,
                    controls: controls->Ok_0,
                    rm_control: rm_control->Ok_0,
                },
            )
        }
    }
}

/// Whether any part is given by name.
fn is_supplied(args: &SecDescArgs) -> (r: bool)
    ensures
        r == args.supplied(),
{
    let mut i: usize = 0;
    while i < 12
        invariant
            i <= 12,
            forall|j: int| 0 <= j < i ==> (#[trigger] args.controls@[j]) is None,
        decreases 12 - i,
    {
        if args.controls[i].is_some() {
            assert(args.controls@[i as int] is Some);
            return true;
        }
        i = i + 1;
    }
    args.owner.is_some() || args.group.is_some() || args.dacl.is_some() || args.sacl.is_some()
        || args.rm_control.is_some()
}

/// The parts that are given by name, each read as in a specification.
pub fn components_from_args(args: &SecDescArgs, path: &SpecPath) -> (p: PartialDesc)
    ensures
        p@ == args.components(path@),
{
    let p = PartialDesc::new();
    let p = match &args.owner {
        Some(v) => take_owner(p, v, path),
        None => p,
    };
    let p = match &args.group {
        Some(v) => take_group(p, v, path),
        None => p,
    };
    let p = match &args.dacl {
        Some(v) => take_dacl(p, v, path),
        None => p,
    };
    let p = match &args.sacl {
        Some(v) => take_sacl(p, v, path),
        None => p,
    };
    let p = match &args.rm_control {
        Some(v) => take_rm_control(p, v, path),
        None => p,
    };
    let ghost start = p@;
    let mut p = p;
    let mut i: usize = 0;
    while i < 12
        invariant
            i <= 12,
            p@ == controls_step(start, args.controls@, i as nat, path@),
        decreases 12 - i,
    {
        if let Some(v) = &args.controls[i] {
            p = take_control(p, Control::at(i), v, path);
        }
        i = i + 1;
    }
    p
}

/// The parts that are given by name, where each has to be of the right kind.
pub fn rigid_components(args: &SecDescArgs) -> (r: Result<SecDescComponents, Error>)
    ensures
        components_view(r) == args.rigid(),
{
    let rm_control = match downcast_rm_control(&args.rm_control) {
        Ok(v) => v,
        Err(e) => return Err(e),
    };
    let owner = match downcast_sid_component(&args.owner, "owner") {
        Ok(v) => v,
        Err(e) => return Err(e),
    };
    let group = match downcast_sid_component(&args.group, "group") {
        Ok(v) => v,
        Err(e) => return Err(e),
    };
    let dacl = match downcast_acl_component(&args.dacl, "dacl") {
        Ok(v) => v,
        Err(e) => return Err(e),
    };
    let sacl = match downcast_acl_component(&args.sacl, "sacl") {
        Ok(v) => v,
        Err(e) => return Err(e),
    };
    let mut found: [Option<bool>; 12] = [None; 12];
    let mut i: usize = 0;
    assert(found@.take(0) =~= Seq::empty());
    while i < 12
        invariant
            i <= 12,
            rigid_controls(args.controls@, i as nat) == Ok::<Seq<Option<bool>>, ErrorView>(
                found@.take(i as int),
            ),
            rigid_rm(args.rm_control) is Ok,
            rigid_sid(args.owner, "owner"@) is Ok,
            rigid_sid(args.group, "group"@) is Ok,
            rigid_acl(args.dacl, "dacl"@) is Ok,
            rigid_acl(args.sacl, "sacl"@) is Ok,
        decreases 12 - i,
    {
        let ghost before = found@;
        match parse_bool_component(&args.controls[i], Control::at(i).name()) {
            Err(e) => {
                proof {
                    lemma_rigid_controls(args.controls@, (i + 1) as nat, 12);
                }
                return Err(e);
            },
            Ok(b) => {
                found[i] = b;
                assert(found@.take(i + 1) =~= before.take(i as int).push(b));
            },
        }
        i = i + 1;
    }
    assert(found@.take(12) =~= found@);
    Ok(SecDescComponents { owner, group, dacl, sacl, controls: found, rm_control })
}

/// Parts, by their content.
pub open spec fn components_view(r: Result<SecDescComponents, Error>) -> Result<
    SecDescComponentsView,
    ErrorView,
> {
    match r {
        Ok(c) => Ok(c@),
        Err(e) => Err(e@),
    }
}

/// A part that has to be an identifier or nil.
pub open spec fn rigid_sid(value: Option<SpecValue>, name: Seq<char>) -> Result<
    NullableComponent<SidView>,
    ErrorView,
> {
    match value {
        None => Ok(NullableComponent::Unspecified),
        Some(SpecValue::Nil) => Ok(NullableComponent::Clear),
        Some(SpecValue::Sid(sid)) => Ok(NullableComponent::Given(sid@)),
        Some(_) => Err(ErrorView::Type(name + ": expected security.windows.Sid or nil"@)),
    }
}

/// A part that has to be a list or nil.
pub open spec fn rigid_acl(value: Option<SpecValue>, name: Seq<char>) -> Result<
    NullableComponent<AclItemView>,
    ErrorView,
> {
    match value {
        None => Ok(NullableComponent::Unspecified),
        Some(SpecValue::Nil) => Ok(NullableComponent::Clear),
        Some(SpecValue::Acl(acl)) => Ok(NullableComponent::Given(AclItemView::Packed(acl.packet@))),
        Some(_) => Err(ErrorView::Type(name + ": expected security.windows.Acl or nil"@)),
    }
}

/// A part that has to be a truth value.
pub open spec fn rigid_bool(value: Option<SpecValue>, name: Seq<char>) -> Result<
    Option<bool>,
    ErrorView,
> {
    match value {
        None => Ok(None),
        Some(v) => match bool_result(v, name) {
            Ok(b) => Ok(Some(b)),
            Err(e) => Err(e),
        },
    }
}

/// What is said about resource management.
pub open spec fn rigid_rm(value: Option<SpecValue>) -> Result<NullableComponent<u8>, ErrorView> {
    match value {
        None => Ok(NullableComponent::Unspecified),
        Some(v) => rm_result(v, "rm_control"@),
    }
}

/// An identifier part, by its content.
pub open spec fn sid_component_view(r: Result<NullableComponent<Sid>, Error>) -> Result<
    NullableComponent<SidView>,
    ErrorView,
> {
    match r {
        Ok(c) => Ok(sid_component(c)),
        Err(e) => Err(e@),
    }
}

/// A list part, by its content.
pub open spec fn acl_component_view(r: Result<NullableComponent<AclItem>, Error>) -> Result<
    NullableComponent<AclItemView>,
    ErrorView,
> {
    match r {
        Ok(c) => Ok(acl_component(c)),
        Err(e) => Err(e@),
    }
}

/// A part that has to be an identifier or nil.
pub fn downcast_sid_component(value: &Option<SpecValue>, name: &str) -> (r: Result<
    NullableComponent<Sid>,
    Error,
>)
    ensures
        sid_component_view(r) == rigid_sid(*value, name@),
{
    match value {
        None => Ok(NullableComponent::Unspecified),
        Some(SpecValue::Nil) => Ok(NullableComponent::Clear),
        Some(v) => match as_windows_sid(v) {
            Some(sid) => Ok(NullableComponent::Given(sid)),
            None => {
                let path = SpecPath::root(name);
                Err(path.type_error(": expected security.windows.Sid or nil"))
            },
        },
    }
}

/// A part that has to be a list or nil.
pub fn downcast_acl_component(value: &Option<SpecValue>, name: &str) -> (r: Result<
    NullableComponent<AclItem>,
    Error,
>)
    ensures
        acl_component_view(r) == rigid_acl(*value, name@),
{
    match value {
        None => Ok(NullableComponent::Unspecified),
        Some(SpecValue::Nil) => Ok(NullableComponent::Clear),
        Some(SpecValue::Acl(acl)) => Ok(
            NullableComponent::Given(AclItem::Packed(copy_bytes(&acl.packet))),
        ),
        Some(_) => {
            let path = SpecPath::root(name);
            Err(path.type_error(": expected security.windows.Acl or nil"))
        },
    }
}

/// A part that has to be a truth value.
pub fn parse_bool_component(value: &Option<SpecValue>, name: &str) -> (r: Result<
    Option<bool>,
    Error,
>)
    ensures
        outcome(r) == rigid_bool(*value, name@),
{
    match value {
        None => Ok(None),
        Some(v) => match ace_bool(v, &SpecPath::root(name)) {
            Ok(b) => Ok(Some(b)),
            Err(e) => Err(e),
        },
    }
}

fn downcast_rm_control(value: &Option<SpecValue>) -> (r: Result<NullableComponent<u8>, Error>)
    ensures
        outcome(r) == rigid_rm(*value),
{
    match value {
        None => Ok(NullableComponent::Unspecified),
        Some(v) => parse_rm_control(v, &SpecPath::root("rm_control")),
    }
}

/// A descriptor to be made: from its base, changed by its parts, unless an
/// error is to be reported once the lists before it are packed.
#[derive(Debug)]
pub struct SecDescRequest {
    pub parts: PartialDesc,
    pub base: Option<Base>,
    pub error: Option<Error>,
}

impl SecDescArgs {
    /// The base that the parts change.
    pub open spec fn base(self, path: Seq<char>) -> (Option<BaseView>, Option<ErrorView>) {
        match self.value {
            Some(value) => desc_result(value, path),
            None => if self.components(path).components != no_components() {
                (Some(BaseView::Empty), None)
            } else {
                (
                    None,
                    Some(
                        ErrorView::Value(
                            path + ": expected a security descriptor or component options"@,
                        ),
                    ),
                )
            },
        }
    }
}

/// The descriptor that arguments say: the one that stands first, changed by
/// the parts given by name, or these alone.
pub fn sec_desc_from_args(args: &SecDescArgs, path: &SpecPath) -> (r: SecDescRequest)
    ensures
        r.parts@ == args.components(path@),
        r.parts@.error is Some ==> r.base is None && r.error is None,
        r.parts@.error is None ==> (base_option(r.base), error_option(r.error)) == args.base(path@),
{
    let parts = components_from_args(args, path);
    if parts.error.is_some() {
        return SecDescRequest { parts, base: None, error: None };
    }
    match &args.value {
        Some(value) => {
            let (base, error) = coerce_sec_desc(value, path);
            SecDescRequest { parts, base, error }
        },
        None => {
            if !parts.components.is_empty() {
                SecDescRequest { parts, base: Some(Base::Empty), error: None }
            } else {
                SecDescRequest {
                    parts,
                    base: None,
                    error: Some(
                        path.value_error(": expected a security descriptor or component options"),
                    ),
                }
            }
        },
    }
}

/// The descriptor that arguments say, once its base was amended: where no
/// part is given by name, the base stays as it is, whatever an amendment would
/// have made of it.
pub fn amend_outcome(
    base: SecDescRecord,
    update_is_empty: bool,
    amended: Result<SecDescRecord, String>,
    path: &SpecPath,
) -> (r: Result<SecDescRecord, Error>)
    ensures
        outcome(r) == if update_is_empty {
            Ok(base)
        } else {
            match amended {
                Ok(desc) => Ok(desc),
                Err(e) => Err(reported(path@, e@)),
            }
        },
{
    if update_is_empty {
        return Ok(base);
    }
    path.packed(amended)
}

/// A descriptor as its constructor makes it.
#[derive(Debug)]
pub enum NewSecDesc {
    Packet(Vec<u8>),
    Components(SecDescComponents),
}

/// The descriptor that its constructor makes: from a packet, or from parts of
/// the right kind.
pub fn new_sec_desc(args: &SecDescArgs) -> (r: Result<NewSecDesc, Error>)
    ensures
        match args.value {
            Some(value) => if args.supplied() {
                r is Err && r->Err_0@ == ErrorView::Value(
                    "SecDesc: packet form does not accept component options"@,
                )
            } else {
                match value {
                    SpecValue::Bin(bytes, _) => r matches Ok(NewSecDesc::Packet(b)) && b@ == bytes@,
                    _ => r is Err && r->Err_0@ == ErrorView::Type("SecDesc: expected Bin"@),
                }
            },
            None => match args.rigid() {
                Err(e) => r is Err && r->Err_0@ == e,
                Ok(c) => r matches Ok(NewSecDesc::Components(d)) && d@ == c,
            },
        },
{
    match &args.value {
        Some(value) => {
            if is_supplied(args) {
                return Err(
                    Error::Value(
                        "SecDesc: packet form does not accept component options".to_owned(),
                    ),
                );
            }
            match value {
                SpecValue::Bin(bytes, _) => Ok(NewSecDesc::Packet(copy_bytes(bytes))),
                _ => Err(Error::Type("SecDesc: expected Bin".to_owned())),
            }
        },
        None => match rigid_components(args) {
            Err(e) => Err(e),
            Ok(components) => Ok(NewSecDesc::Components(components)),
        },
    }
}

/// Controls that have to be truth values mean the same in a specification.
proof fn lemma_controls(p: PartialDescView, args: Seq<Option<SpecValue>>, n: nat, path: Seq<char>)
    requires
        n <= 12,
        p.error is None,
        p.components.controls == no_components().controls,
        rigid_controls(args, 12) is Ok,
    ensures
        ({
            let after = controls_step(p, args, n, path);
            let found = rigid_controls(args, 12)->Ok_0;
            &&& after.error is None
            &&& after.components == SecDescComponentsView {
                controls: after.components.controls,
                ..p.components
            }
            &&& after.components.controls == Seq::new(
                12,
                |i: int|
                    if i < n {
                        found[i]
                    } else {
                        None
                    },
            )
        }),
    decreases n,
{
    let found = rigid_controls(args, 12)->Ok_0;
    let after = controls_step(p, args, n, path);
    if n > 0 {
        let m = (n - 1) as nat;
        lemma_controls(p, args, m, path);
        lemma_rigid_controls(args, n, 12);
        lemma_rigid_controls(args, m, 12);
        assert(controls()[m as int].place() == m);
        assert(found.take(n as int)[m as int] == found[m as int]);
    }
    assert(after.components.controls =~= Seq::new(
        12,
        |i: int|
            if i < n {
                found[i]
            } else {
                None
            },
    ));
}

/// What the constructor of a descriptor accepts by name, the function that
/// reads specifications accepts too, and means the same.
pub proof fn declarations_extend_the_constructor(args: SecDescArgs, path: Seq<char>)
    requires
        args.rigid() is Ok,
    ensures
        args.components(path).error is None,
        args.components(path).components == args.rigid()->Ok_0,
{
    let r = args.rigid()->Ok_0;
    let p = nothing();
    let c = no_components();
    let p = match args.owner {
        Some(v) => owner_step(p, v, path),
        None => p,
    };
    let c = SecDescComponentsView { owner: r.owner, ..c };
    assert(p.error is None && p.components == c);
    let p = match args.group {
        Some(v) => group_step(p, v, path),
        None => p,
    };
    let c = SecDescComponentsView { group: r.group, ..c };
    assert(p.error is None && p.components == c);
    let p = match args.dacl {
        Some(v) => dacl_step(p, v, path),
        None => p,
    };
    let c = SecDescComponentsView { dacl: r.dacl, ..c };
    assert(p.error is None && p.components == c);
    let p = match args.sacl {
        Some(v) => sacl_step(p, v, path),
        None => p,
    };
    let c = SecDescComponentsView { sacl: r.sacl, ..c };
    assert(p.error is None && p.components == c);
    let p = match args.rm_control {
        Some(v) => rm_control_step(p, v, path),
        None => p,
    };
    let c = SecDescComponentsView { rm_control: r.rm_control, ..c };
    assert(p.error is None && p.components == c);
    lemma_controls(p, args.controls@, 12, path);
    lemma_rigid_controls(args.controls@, 12, 12);
    assert(args.components(path) == controls_step(p, args.controls@, 12, path));
    assert(args.components(path).components.controls =~= r.controls);
    assert(args.components(path).components =~= r);
}

/// A descriptor with nothing in it, of the only revision that Windows has.
pub fn empty_sec_desc() -> (d: SecDescRecord)
    ensures
        d.revision == 1,
        d.mask == 0,
        d.control == 0,
        d.rm_control == 0,
        d.owner is None,
        d.group is None,
        d.dacl is None,
        d.sacl is None,
{
    SecDescRecord {
        revision: 1,
        mask: 0,
        control: 0,
        rm_control: 0,
        owner: None,
        group: None,
        dacl: None,
        sacl: None,
    }
}

/// A descriptor as a program sees it.
pub fn create_sec_desc(sec_desc: SecDescRecord) -> (value: SpecValue)
    ensures
        value == SpecValue::SecDesc(sec_desc),
{
    SpecValue::SecDesc(sec_desc)
}

/// What a control bit says, if the part that it speaks of was loaded.
pub open spec fn control_result(d: SecDescRecord, control: Control) -> Result<bool, ErrorView> {
    if d.mask & control.part() == control.part() {
        Ok(d.control & control.bit() == control.bit())
    } else {
        Err(ErrorView::Field(control.key()))
    }
}

/// A list that a descriptor has, if it was loaded and is present.
pub open spec fn list_result(
    d: SecDescRecord,
    list: Option<AclRecord>,
    part: u32,
    bit: u32,
    name: Seq<char>,
) -> Result<Option<AclRecord>, ErrorView> {
    if d.mask & part == part && d.control & bit == bit {
        Ok(list)
    } else {
        Err(ErrorView::Field(name))
    }
}

/// A list that was read, by its content.
pub open spec fn list_view(r: Result<Option<&AclRecord>, Error>) -> Result<
    Option<AclRecord>,
    ErrorView,
> {
    match r {
        Ok(Some(acl)) => Ok(Some(*acl)),
        Ok(None) => Ok(None),
        Err(e) => Err(e@),
    }
}

/// An identifier that was read, by its content.
pub open spec fn field_view(r: Result<Sid, Error>) -> Result<SidView, ErrorView> {
    match r {
        Ok(sid) => Ok(sid@),
        Err(e) => Err(e@),
    }
}

impl SecDescRecord {
    /// Whether all of some parts were loaded.
    fn loaded(&self, part: u32) -> (r: bool)
        ensures
            r == (self.mask & part == part),
    {
        self.mask & part == part
    }

    /// Whether all of some control bits are set.
    fn says(&self, bit: u32) -> (r: bool)
        ensures
            r == (self.control & bit == bit),
    {
        self.control & bit == bit
    }

    /// What the descriptor says of a part, if that part was loaded.
    pub fn control(&self, control: Control) -> (r: Result<bool, Error>)
        ensures
            outcome(r) == control_result(*self, control),
    {
        let (part, bit) = control.bits();
        if !self.loaded(part) {
            return Err(Error::Field(control.name().to_owned()));
        }
        Ok(self.says(bit))
    }

    /// Whether the descriptor says something about resource management.
    pub fn rm_control_valid(&self) -> (r: bool)
        ensures
            r == (self.control & 0x4000 == 0x4000),
    {
        self.says(0x4000)
    }

    /// What the descriptor says about resource management, if it does.
    pub fn rm_control(&self) -> (r: Result<u8, Error>)
        ensures
            outcome(r) == if self.control & 0x4000 == 0x4000 {
                Ok(self.rm_control)
            } else {
                Err(ErrorView::Field("rm_control"@))
            },
    {
        if self.says(0x4000) {
            Ok(self.rm_control)
        } else {
            Err(Error::Field("rm_control".to_owned()))
        }
    }

    /// The owner, if it was loaded and there is one.
    pub fn owner(&self) -> (r: Result<Sid, Error>)
        ensures
            field_view(r) == match self.owner {
                Some(sid) if self.mask & 0x1 == 0x1 => Ok(sid@),
                _ => Err(ErrorView::Field("owner"@)),
            },
    {
        match &self.owner {
            Some(sid) if self.loaded(0x1) => Ok(sid.copy()),
            _ => Err(Error::Field("owner".to_owned())),
        }
    }

    /// The group, if it was loaded and there is one.
    pub fn group(&self) -> (r: Result<Sid, Error>)
        ensures
            field_view(r) == match self.group {
                Some(sid) if self.mask & 0x2 == 0x2 => Ok(sid@),
                _ => Err(ErrorView::Field("group"@)),
            },
    {
        match &self.group {
            Some(sid) if self.loaded(0x2) => Ok(sid.copy()),
            _ => Err(Error::Field("group".to_owned())),
        }
    }

    /// The list that decides on access, if it was loaded and is present; it
    /// may be null.
    pub fn dacl(&self) -> (r: Result<Option<&AclRecord>, Error>)
        ensures
            list_view(r) == list_result(*self, self.dacl, 0x4, 0x4, "dacl"@),
    {
        if !self.loaded(0x4) || !self.says(0x4) {
            return Err(Error::Field("dacl".to_owned()));
        }
        match &self.dacl {
            Some(acl) => Ok(Some(acl)),
            None => Ok(None),
        }
    }

    /// The list that decides on auditing, if it was loaded and is present; it
    /// may be null.
    pub fn sacl(&self) -> (r: Result<Option<&AclRecord>, Error>)
        ensures
            list_view(r) == list_result(*self, self.sacl, 0x8, 0x10, "sacl"@),
    {
        if !self.loaded(0x8) || !self.says(0x10) {
            return Err(Error::Field("sacl".to_owned()));
        }
        match &self.sacl {
            Some(acl) => Ok(Some(acl)),
            None => Ok(None),
        }
    }
}

/// Whether a part that goes by a key is given.
pub open spec fn is_given(c: SecDescComponentsView, name: Seq<char>) -> bool {
    if name == "owner"@ {
        !(c.owner is Unspecified)
    } else if name == "group"@ {
        !(c.group is Unspecified)
    } else if name == "dacl"@ {
        !(c.dacl is Unspecified)
    } else if name == "sacl"@ {
        !(c.sacl is Unspecified)
    } else if name == "rm_control"@ {
        !(c.rm_control is Unspecified)
    } else {
        match control_named(name, 0) {
            Some(control) => c.controls[control.place()] is Some,
            None => false,
        }
    }
}

proof fn lemma_control_named(name: Seq<char>, from: int)
    ensures
        control_named(name, from) matches Some(control) ==> 0 <= control.place() < 12,
    decreases 12 - from,
{
    if 0 <= from < 12 && controls()[from].key() != name {
        lemma_control_named(name, from + 1);
    }
}

/// A key that is accepted is given, what is given stays given, and what is
/// given is not accepted again.
proof fn lemma_giving(
    p: PartialDescView,
    name: Seq<char>,
    entry: SpecValue,
    path: Seq<char>,
    other: Seq<char>,
)
    requires
        p.components.controls.len() == 12,
        key_step(p, name, entry, path).error is None,
    ensures
        p.error is None,
        !is_given(p.components, name),
        is_given(key_step(p, name, entry, path).components, name),
        is_given(p.components, other) ==> is_given(
            key_step(p, name, entry, path).components,
            other,
        ),
        key_step(p, name, entry, path).components.controls.len() == 12,
{
    lemma_control_named(name, 0);
    lemma_control_named(other, 0);
}

/// What was given by the first keys is still given when more were read.
proof fn lemma_given_stays(
    pairs: Seq<(SpecValue, SpecValue)>,
    n: nat,
    m: nat,
    path: Seq<char>,
    name: Seq<char>,
)
    requires
        n <= m,
        pairs_desc(pairs, m, path).error is None,
    ensures
        pairs_desc(pairs, n, path).error is None,
        pairs_desc(pairs, n, path).components.controls.len() == 12,
        pairs_desc(pairs, m, path).components.controls.len() == 12,
        is_given(pairs_desc(pairs, n, path).components, name) ==> is_given(
            pairs_desc(pairs, m, path).components,
            name,
        ),
    decreases m,
{
    if m > 0 {
        let k = (m - 1) as nat;
        lemma_given_stays(pairs, if n < m { n } else { k }, k, path, name);
        if let SpecValue::Sym(key) = pairs[m - 1].0 {
            lemma_giving(pairs_desc(pairs, k, path), key@, pairs[m - 1].1, path, name);
        }
    }
}

/// A specification that gives a key twice is refused.
pub proof fn repeated_keys_are_refused(
    pairs: Seq<(SpecValue, SpecValue)>,
    i: int,
    j: int,
    first: String,
    second: String,
    path: Seq<char>,
)
    requires
        0 <= i < j < pairs.len(),
        pairs[i].0 == SpecValue::Sym(first),
        pairs[j].0 == SpecValue::Sym(second),
        first@ == second@,
    ensures
        pairs_desc(pairs, pairs.len(), path).error is Some,
{
    let n = pairs.len();
    if pairs_desc(pairs, n, path).error is None {
        lemma_given_stays(pairs, (j + 1) as nat, n, path, first@);
        lemma_given_stays(pairs, j as nat, n, path, first@);
        lemma_given_stays(pairs, (i + 1) as nat, j as nat, path, first@);
        lemma_given_stays(pairs, i as nat, j as nat, path, first@);
        lemma_giving(pairs_desc(pairs, i as nat, path), first@, pairs[i].1, path, first@);
        lemma_giving(pairs_desc(pairs, j as nat, path), second@, pairs[j].1, path, first@);
    }
}

} // verus!

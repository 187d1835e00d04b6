//! What Windows access control lists and security descriptors say, in terms of
//! the values that they were described by.

use vstd::prelude::*;
use crate::error::ErrorView;
use crate::security::ace::{item_result, AceItemView};
use crate::security::ace_laws::{given, key_at};
use crate::security::acl::{
    acl_result, args_acl, entries_acl, items_acl, pairs_acl, revision_result, AclItemView,
};
use crate::security::coerce::{bool_result, id_result};
use crate::security::meaning::{
    identifiers_mean_themselves, means_bool, means_number, means_sid, values_mean_themselves,
};
use crate::security::model::{AclRevision, SecDescRecord, SpecValue};
use crate::security::path::{at_index, under_key};
use crate::security::sec_desc::{
    control_named, control_result, controls, is_given, key_step, pairs_desc, updated, Control,
    NullableComponent, PartialDescView, SecDescComponentsView,
};
use crate::security::sid::sid_option_result;
use crate::security::unix::AclArg;
use crate::security::windows_flags::{sec_desc_control_names, sec_info_names};

verus! {

broadcast use vstd::string::group_string_axioms;

/// A list made of entries and their specifications has them in their order,
/// each as it stands for itself, and fails with the first that fails.
pub proof fn lists_keep_their_entries(
    items: Seq<SpecValue>,
    n: nat,
    revision: Option<AclRevision>,
    path: Seq<char>,
)
    requires
        n <= items.len(),
    ensures
        ({
            let p = items_acl(items, n, revision, path);
            &&& p.plan.revision == revision
            &&& p.plan.aces.len() <= n
            &&& forall|i: int|
                0 <= i < p.plan.aces.len() ==> item_result(items[i], at_index(path, i as nat))
                    == Ok::<AceItemView, ErrorView>(#[trigger] p.plan.aces[i])
            &&& p.error is None <==> p.plan.aces.len() == n
            &&& p.error matches Some(e) ==> item_result(
                items[p.plan.aces.len() as int],
                at_index(path, p.plan.aces.len()),
            ) == Err::<AceItemView, ErrorView>(e)
        }),
    decreases n,
{
    if n > 0 {
        lists_keep_their_entries(items, (n - 1) as nat, revision, path);
    }
}

/// Whether an argument is in its place and stands for an entry.
pub open spec fn positional(arg: AclArg, i: nat, path: Seq<char>, ace: AceItemView) -> bool {
    arg matches AclArg::Pos(value) && item_result(value, at_index(path, i)) == Ok::<
        AceItemView,
        ErrorView,
    >(ace)
}

/// The same of a list that is made of arguments; a list has no other keywords.
pub proof fn argument_lists_keep_their_entries(
    args: Seq<AclArg>,
    n: nat,
    revision: Option<AclRevision>,
    path: Seq<char>,
)
    requires
        n <= args.len(),
    ensures
        ({
            let p = args_acl(args, n, revision, path);
            &&& p.plan.revision == revision
            &&& p.plan.aces.len() <= n
            &&& forall|i: int|
                0 <= i < p.plan.aces.len() ==> positional(args[i], i as nat, path, #[trigger] p.plan.aces[i])
            &&& p.error is None <==> p.plan.aces.len() == n
        }),
    decreases n,
{
    if n > 0 {
        argument_lists_keep_their_entries(args, (n - 1) as nat, revision, path);
        let before = args_acl(args, (n - 1) as nat, revision, path);
        let p = args_acl(args, n, revision, path);
        if before.error is None {
            assert(before.plan.aces.len() == n - 1);
        }
        assert forall|i: int| 0 <= i < p.plan.aces.len() implies positional(
            args[i],
            i as nat,
            path,
            #[trigger] p.plan.aces[i],
        ) by {
            if i < before.plan.aces.len() {
                assert(p.plan.aces[i] == before.plan.aces[i]);
            }
        }
    }
}

/// The same of a list that is made of entries alone.
pub proof fn packed_lists_keep_their_entries(
    items: Seq<SpecValue>,
    n: nat,
    revision: Option<AclRevision>,
)
    requires
        n <= items.len(),
    ensures
        ({
            let p = entries_acl(items, n, revision);
            &&& p.plan.revision == revision
            &&& p.plan.aces.len() <= n
            &&& forall|i: int|
                0 <= i < p.plan.aces.len() ==> (items[i] matches SpecValue::Ace(ace)
                    && #[trigger] p.plan.aces[i] == AceItemView::Packed(ace.packet@))
            &&& p.error is None <==> p.plan.aces.len() == n
            &&& p.error is Some ==> !(items[p.plan.aces.len() as int] is Ace)
        }),
    decreases n,
{
    if n > 0 {
        packed_lists_keep_their_entries(items, (n - 1) as nat, revision);
    }
}

/// How many of the first `n` keys are numbers.
pub open spec fn numbered(pairs: Seq<(SpecValue, SpecValue)>, n: nat) -> nat
    decreases n,
{
    if n == 0 {
        0
    } else {
        numbered(pairs, (n - 1) as nat) + if pairs[n - 1].0 is Int {
            1nat
        } else {
            0nat
        }
    }
}

/// A list that is specified by numbers has under each number the entry given
/// there, as many as there are numbers, and the revision that is given.
pub proof fn specified_lists_keep_their_entries(
    pairs: Seq<(SpecValue, SpecValue)>,
    n: nat,
    path: Seq<char>,
)
    requires
        n <= pairs.len(),
        pairs_acl(pairs, n, path).error is None,
    ensures
        ({
            let p = pairs_acl(pairs, n, path);
            &&& p.plan.aces.len() == numbered(pairs, n)
            &&& forall|i: int|
                0 <= i < n && (#[trigger] pairs[i]).0 is Int ==> 0 <= pairs[i].0->Int_0
                    < p.plan.aces.len() && item_result(
                    pairs[i].1,
                    at_index(path, pairs[i].0->Int_0 as nat),
                ) == Ok::<AceItemView, ErrorView>(p.plan.aces[pairs[i].0->Int_0 as int])
            &&& forall|i: int|
                0 <= i < n && !((#[trigger] pairs[i]).0 is Int) ==> (pairs[i].0 matches SpecValue::Sym(
                    key,
                ) && key@ == "revision"@ && revision_result(pairs[i].1, under_key(path, key@))
                    == Ok::<AclRevision, ErrorView>(p.plan.revision->0) && p.plan.revision is Some)
            &&& p.plan.revision is Some ==> exists|i: int| 0 <= i < n && (#[trigger] pairs[i]).0 is Sym
        }),
    decreases n,
{
    if n > 0 {
        let m = (n - 1) as nat;
        let before = pairs_acl(pairs, m, path);
        assert(before.error is None);
        specified_lists_keep_their_entries(pairs, m, path);
        let p = pairs_acl(pairs, n, path);
        assert forall|i: int| 0 <= i < n && (#[trigger] pairs[i]).0 is Int implies 0
            <= pairs[i].0->Int_0 < p.plan.aces.len() && item_result(
            pairs[i].1,
            at_index(path, pairs[i].0->Int_0 as nat),
        ) == Ok::<AceItemView, ErrorView>(p.plan.aces[pairs[i].0->Int_0 as int]) by {
            if i < m {
                assert(p.plan.aces[pairs[i].0->Int_0 as int]
                    == before.plan.aces[pairs[i].0->Int_0 as int]);
            }
        }
        assert(p.plan.revision is Some ==> exists|i: int| 0 <= i < n && (#[trigger] pairs[i]).0
            is Sym) by {
            if before.plan.revision is Some {
                let i = choose|i: int| 0 <= i < m && (#[trigger] pairs[i]).0 is Sym;
                assert(0 <= i < n && pairs[i].0 is Sym);
            } else if p.plan.revision is Some {
                assert(pairs[m as int].0 is Sym);
            }
        }
    }
}

/// A list stands for itself, a specification and a series for the lists that
/// they specify, and nothing else for a list.
pub proof fn lists_stand_for_themselves(value: SpecValue, path: Seq<char>)
    ensures
        value matches SpecValue::Acl(acl) ==> acl_result(value, path) == (
            AclItemView::Packed(acl.packet@),
            None::<ErrorView>,
        ),
        value matches SpecValue::Items(items) ==> acl_result(value, path) == (
            AclItemView::Plan(items_acl(items@, items@.len(), None, path).plan),
            items_acl(items@, items@.len(), None, path).error,
        ),
        value matches SpecValue::Dict(pairs) ==> acl_result(value, path) == (
            AclItemView::Plan(pairs_acl(pairs@, pairs@.len(), path).plan),
            pairs_acl(pairs@, pairs@.len(), path).error,
        ),
        !(value is Acl) && !(value is Items) && !(value is Dict) ==> acl_result(value, path).1 is Some,
{
}

/// A revision is given by its symbol, or by its number: two for the basic one
/// and four for that of a directory service.
pub proof fn revisions_are_named_or_numbered(value: SpecValue, path: Seq<char>)
    ensures
        revision_result(value, path) == Ok::<AclRevision, ErrorView>(AclRevision::Basic) <==> (
        value matches SpecValue::Sym(s) && s@ == "BASIC"@) || value == SpecValue::Int(2),
        revision_result(value, path) == Ok::<AclRevision, ErrorView>(AclRevision::DirectoryService)
            <==> (value matches SpecValue::Sym(s) && s@ == "DIRECTORY_SERVICE"@) || value
            == SpecValue::Int(4),
        revision_result(value, path) matches Ok(AclRevision::Unknown(n)) ==> value
            == SpecValue::Int(n as i128),
{
    reveal_strlit("BASIC");
    reveal_strlit("DIRECTORY_SERVICE");
    assert("BASIC"@[0] == 'B' && "DIRECTORY_SERVICE"@[0] == 'D');
}

/// The keys of a descriptor differ.
proof fn lemma_keys_differ()
    ensures
        "owner"@ != "group"@,
        "owner"@ != "dacl"@,
        "owner"@ != "sacl"@,
        "owner"@ != "rm_control"@,
        "group"@ != "dacl"@,
        "group"@ != "sacl"@,
        "group"@ != "rm_control"@,
        "dacl"@ != "sacl"@,
        "dacl"@ != "rm_control"@,
        "sacl"@ != "rm_control"@,
        forall|c: Control|
            #![trigger c.key()]
            c.key() != "owner"@ && c.key() != "group"@ && c.key() != "dacl"@ && c.key() != "sacl"@
                && c.key() != "rm_control"@,
        forall|c: Control, d: Control| #![trigger c.key(), d.key()] c.key() == d.key() ==> c == d,
{
    reveal_strlit("owner");
    reveal_strlit("group");
    reveal_strlit("dacl");
    reveal_strlit("sacl");
    reveal_strlit("rm_control");
    reveal_strlit("owner_defaulted");
    reveal_strlit("group_defaulted");
    reveal_strlit("dacl_present");
    reveal_strlit("dacl_defaulted");
    reveal_strlit("dacl_auto_inherit_required");
    reveal_strlit("dacl_auto_inherited");
    reveal_strlit("dacl_protected");
    reveal_strlit("sacl_present");
    reveal_strlit("sacl_defaulted");
    reveal_strlit("sacl_auto_inherit_required");
    reveal_strlit("sacl_auto_inherited");
    reveal_strlit("sacl_protected");
    assert("owner"@.len() == 5 && "owner"@[0] == 'o');
    assert("group"@.len() == 5 && "group"@[0] == 'g');
    assert("dacl"@.len() == 4 && "dacl"@[0] == 'd');
    assert("sacl"@.len() == 4 && "sacl"@[0] == 's');
    assert("rm_control"@.len() == 10);
    assert("owner_defaulted"@.len() == 15 && "owner_defaulted"@[0] == 'o');
    assert("group_defaulted"@.len() == 15 && "group_defaulted"@[0] == 'g');
    assert("dacl_present"@.len() == 12 && "dacl_present"@[0] == 'd');
    assert("sacl_present"@.len() == 12 && "sacl_present"@[0] == 's');
    assert("dacl_defaulted"@.len() == 14 && "dacl_defaulted"@[0] == 'd' && "dacl_defaulted"@[5]
        == 'd');
    assert("sacl_defaulted"@.len() == 14 && "sacl_defaulted"@[0] == 's' && "sacl_defaulted"@[5]
        == 'd');
    assert("dacl_protected"@.len() == 14 && "dacl_protected"@[0] == 'd' && "dacl_protected"@[5]
        == 'p');
    assert("sacl_protected"@.len() == 14 && "sacl_protected"@[0] == 's' && "sacl_protected"@[5]
        == 'p');
    assert("dacl_auto_inherit_required"@.len() == 26 && "dacl_auto_inherit_required"@[0] == 'd');
    assert("sacl_auto_inherit_required"@.len() == 26 && "sacl_auto_inherit_required"@[0] == 's');
    assert("dacl_auto_inherited"@.len() == 19 && "dacl_auto_inherited"@[0] == 'd');
    assert("sacl_auto_inherited"@.len() == 19 && "sacl_auto_inherited"@[0] == 's');
}

/// Every control goes by its own key.
proof fn lemma_named(c: Control, from: int)
    requires
        0 <= from <= c.place(),
    ensures
        control_named(c.key(), from) == Some(c),
        controls()[c.place()] == c,
    decreases 12 - from,
{
    lemma_keys_differ();
    assert(controls()[c.place()] == c);
    if from < c.place() {
        assert(controls()[from].key() == c.key() ==> controls()[from] == c);
        assert(controls()[from].place() == from);
        lemma_named(c, from + 1);
    }
}

/// What is found by a key has it.
proof fn lemma_found(name: Seq<char>, from: int)
    requires
        0 <= from,
    ensures
        control_named(name, from) matches Some(c) ==> c.key() == name,
    decreases 12 - from,
{
    if from < 12 {
        lemma_found(name, from + 1);
    }
}

/// Whether the parts of a descriptor say what is given under a key: nil takes
/// a part away, and anything else is the part that it means.
pub open spec fn part_answers(
    c: SecDescComponentsView,
    name: Seq<char>,
    value: SpecValue,
    path: Seq<char>,
) -> bool {
    &&& name == "owner"@ ==> if value is Nil {
        c.owner is Clear
    } else {
        c.owner matches NullableComponent::Given(sid) && means_sid(value, sid)
    }
    &&& name == "group"@ ==> if value is Nil {
        c.group is Clear
    } else {
        c.group matches NullableComponent::Given(sid) && means_sid(value, sid)
    }
    &&& name == "dacl"@ ==> if value is Nil {
        c.dacl is Clear
    } else {
        c.dacl == NullableComponent::Given(acl_result(value, under_key(path, "dacl"@)).0)
    }
    &&& name == "sacl"@ ==> if value is Nil {
        c.sacl is Clear
    } else {
        c.sacl == NullableComponent::Given(acl_result(value, under_key(path, "sacl"@)).0)
    }
    &&& name == "rm_control"@ ==> if value is Nil {
        c.rm_control is Clear
    } else {
        c.rm_control matches NullableComponent::Given(n) && means_number(
            value,
            n as int,
            u8::MAX as int,
        )
    }
    &&& forall|k: Control|
        name == #[trigger] k.key() ==> (c.controls[k.place()] matches Some(b) && means_bool(value, b))
}

proof fn lemma_step(
    p: PartialDescView,
    name: Seq<char>,
    entry: SpecValue,
    path: Seq<char>,
    key: Seq<char>,
    value: SpecValue,
)
    requires
        p.error is None,
        p.components.controls.len() == 12,
        key_step(p, name, entry, path).error is None,
    ensures
        ({
            let after = key_step(p, name, entry, path);
            &&& after.components.controls.len() == 12
            &&& !is_given(p.components, name)
            &&& is_given(after.components, key) <==> is_given(p.components, key) || key == name
            &&& part_answers(after.components, name, entry, path)
            &&& key != name && part_answers(p.components, key, value, path) ==> part_answers(
                after.components,
                key,
                value,
                path,
            )
        }),
{
    lemma_keys_differ();
    lemma_found(name, 0);
    lemma_found(key, 0);
    let at = under_key(path, name);
    values_mean_themselves(entry, at, u8::MAX as int);
    if let Ok(Some(sid)) = sid_option_result(entry, at) {
        identifiers_mean_themselves(entry, at, sid);
    }
    if let Ok(b) = bool_result(entry, at) {
        assert(means_bool(entry, b));
    }
    if let Ok(n) = id_result(entry, at, u8::MAX as int) {
        assert(means_number(entry, n, u8::MAX as int));
    }
    let after = key_step(p, name, entry, path);
    assert forall|k: Control| name == #[trigger] k.key() implies (after.components.controls[k.place()]
        matches Some(b) && means_bool(entry, b)) by {
        lemma_named(k, 0);
    }
    if key != name && part_answers(p.components, key, value, path) {
        assert forall|k: Control| key == #[trigger] k.key() implies (
        after.components.controls[k.place()] matches Some(b) && means_bool(value, b)) by {
            lemma_named(k, 0);
            if let Some(c) = control_named(name, 0) {
                if c.place() == k.place() {
                    lemma_named(c, 0);
                    assert(c == k);
                }
            }
        }
    }
    if let Some(c) = control_named(key, 0) {
        lemma_named(c, 0);
        if let Some(d) = control_named(name, 0) {
            lemma_named(d, 0);
            if c.place() == d.place() {
                assert(c == d);
            }
        }
    }
}

proof fn lemma_read(pairs: Seq<(SpecValue, SpecValue)>, n: nat, path: Seq<char>)
    requires
        n <= pairs.len(),
        pairs_desc(pairs, n, path).error is None,
    ensures
        ({
            let c = pairs_desc(pairs, n, path).components;
            &&& c.controls.len() == 12
            &&& forall|name: Seq<char>|
                #![trigger is_given(c, name)]
                #![trigger given(pairs, n as int, name)]
                is_given(c, name) <==> given(pairs, n as int, name)
            &&& forall|i: int, name: Seq<char>|
                0 <= i < n && #[trigger] key_at(pairs, i, name) ==> part_answers(
                    c,
                    name,
                    pairs[i].1,
                    path,
                )
        }),
    decreases n,
{
    let p = pairs_desc(pairs, n, path);
    let c = p.components;
    if n > 0 {
        let m = (n - 1) as nat;
        let before = pairs_desc(pairs, m, path);
        assert(before.error is None);
        lemma_read(pairs, m, path);
        let key = pairs[m as int].0->Sym_0@;
        assert(key_at(pairs, m as int, key));
        lemma_step(before, key, pairs[m as int].1, path, key, SpecValue::Nil);
        assert forall|name: Seq<char>| #[trigger] is_given(c, name) <==> given(
            pairs,
            n as int,
            name,
        ) by {
            lemma_step(before, key, pairs[m as int].1, path, name, SpecValue::Nil);
            assert(is_given(before.components, name) <==> given(pairs, m as int, name));
            if given(pairs, m as int, name) {
                let i = choose|i: int| 0 <= i < m && #[trigger] key_at(pairs, i, name);
                assert(0 <= i < n && key_at(pairs, i, name));
            }
            if given(pairs, n as int, name) && name != key {
                let i = choose|i: int| 0 <= i < n && #[trigger] key_at(pairs, i, name);
                assert(i < m);
            }
        }
        assert forall|i: int, name: Seq<char>|
            0 <= i < n && #[trigger] key_at(pairs, i, name) implies part_answers(
            c,
            name,
            pairs[i].1,
            path,
        ) by {
            lemma_step(before, key, pairs[m as int].1, path, name, pairs[i].1);
            if i < m {
                assert(given(pairs, m as int, name));
                assert(is_given(before.components, name));
                assert(name != key);
            } else {
                assert(name == key);
            }
        }
    } else {
        lemma_found_places();
        assert forall|name: Seq<char>| #[trigger] is_given(c, name) <==> given(
            pairs,
            n as int,
            name,
        ) by {
            if let Some(k) = control_named(name, 0) {
                assert(0 <= k.place() < 12);
            }
        }
    }
}

proof fn lemma_found_places()
    ensures
        forall|k: Control| 0 <= #[trigger] k.place() < 12,
{
}

/// A descriptor that is specified has exactly the parts that are specified,
/// and each is the one that its key and value say: the owner is not the group,
/// the list that decides on access is not the one that decides on auditing,
/// and what is said of the parts is said of those that the keys name.
pub proof fn descriptors_say_what_is_specified(
    pairs: Seq<(SpecValue, SpecValue)>,
    path: Seq<char>,
    i: int,
    name: Seq<char>,
)
    requires
        pairs_desc(pairs, pairs.len(), path).error is None,
    ensures
        ({
            let c = pairs_desc(pairs, pairs.len(), path).components;
            &&& key_at(pairs, i, name) ==> part_answers(c, name, pairs[i].1, path)
            &&& !given(pairs, pairs.len() as int, "owner"@) ==> c.owner is Unspecified
            &&& !given(pairs, pairs.len() as int, "group"@) ==> c.group is Unspecified
            &&& !given(pairs, pairs.len() as int, "dacl"@) ==> c.dacl is Unspecified
            &&& !given(pairs, pairs.len() as int, "sacl"@) ==> c.sacl is Unspecified
            &&& !given(pairs, pairs.len() as int, "rm_control"@) ==> c.rm_control is Unspecified
            &&& forall|k: Control|
                !given(pairs, pairs.len() as int, #[trigger] k.key()) ==> c.controls[k.place()]
                    is None
        }),
{
    lemma_keys_differ();
    lemma_read(pairs, pairs.len(), path);
    let c = pairs_desc(pairs, pairs.len(), path).components;
    assert(is_given(c, "owner"@) <==> given(pairs, pairs.len() as int, "owner"@));
    assert(is_given(c, "group"@) <==> given(pairs, pairs.len() as int, "group"@));
    assert(is_given(c, "dacl"@) <==> given(pairs, pairs.len() as int, "dacl"@));
    assert(is_given(c, "sacl"@) <==> given(pairs, pairs.len() as int, "sacl"@));
    assert(is_given(c, "rm_control"@) <==> given(pairs, pairs.len() as int, "rm_control"@));
    assert forall|k: Control|
        !given(pairs, pairs.len() as int, #[trigger] k.key()) implies c.controls[k.place()] is None by {
        lemma_named(k, 0);
        assert(is_given(c, k.key()) <==> given(pairs, pairs.len() as int, k.key()));
    }
}

/// What components ask to be changed is what they give, part by part: what is
/// not mentioned stays, what is cleared goes.
pub proof fn updates_change_what_is_given(c: SecDescComponentsView, i: int)
    ensures
        c.owner is Unspecified <==> updated(c).owner is None,
        c.owner is Clear <==> updated(c).owner == Some(None::<crate::security::model::SidView>),
        c.owner matches NullableComponent::Given(sid) ==> updated(c).owner == Some(Some(sid)),
        c.group is Unspecified <==> updated(c).group is None,
        c.group is Clear <==> updated(c).group == Some(None::<crate::security::model::SidView>),
        c.group matches NullableComponent::Given(sid) ==> updated(c).group == Some(Some(sid)),
        c.dacl is Unspecified <==> updated(c).dacl is None,
        c.dacl is Clear <==> updated(c).dacl == Some(None::<AclItemView>),
        c.dacl matches NullableComponent::Given(acl) ==> updated(c).dacl == Some(Some(acl)),
        c.sacl is Unspecified <==> updated(c).sacl is None,
        c.sacl is Clear <==> updated(c).sacl == Some(None::<AclItemView>),
        c.sacl matches NullableComponent::Given(acl) ==> updated(c).sacl == Some(Some(acl)),
        c.rm_control is Unspecified <==> updated(c).rm_control is None,
        c.rm_control is Clear <==> updated(c).rm_control == Some(None::<u8>),
        c.rm_control matches NullableComponent::Given(n) ==> updated(c).rm_control == Some(Some(n)),
        updated(c).controls[i] == c.controls[i],
{
}

/// The name of the flag that says a control.
pub open spec fn control_flag(c: Control) -> Seq<char> {
    match c {
        Control::OwnerDefaulted => "OWNER_DEFAULTED"@,
        Control::GroupDefaulted => "GROUP_DEFAULTED"@,
        Control::DaclPresent => "DACL_PRESENT"@,
        Control::DaclDefaulted => "DACL_DEFAULTED"@,
        Control::DaclAutoInheritRequired => "DACL_AUTO_INHERIT_REQUIRED"@,
        Control::DaclAutoInherited => "DACL_AUTO_INHERITED"@,
        Control::DaclProtected => "DACL_PROTECTED"@,
        Control::SaclPresent => "SACL_PRESENT"@,
        Control::SaclDefaulted => "SACL_DEFAULTED"@,
        Control::SaclAutoInheritRequired => "SACL_AUTO_INHERIT_REQUIRED"@,
        Control::SaclAutoInherited => "SACL_AUTO_INHERITED"@,
        Control::SaclProtected => "SACL_PROTECTED"@,
    }
}

/// What a descriptor says of a part is what the flag of that name says, and
/// can be asked exactly where the part was loaded, as the flags for parts have
/// it.
pub proof fn controls_are_the_flags_of_their_names(d: SecDescRecord, c: Control)
    ensures
        exists|i: int|
            0 <= i < sec_desc_control_names().len() && #[trigger] sec_desc_control_names()[i] == (
                control_flag(c),
                c.bit(),
            ),
        exists|i: int|
            0 <= i < sec_info_names().len() && #[trigger] sec_info_names()[i] == (
                match c {
                    Control::OwnerDefaulted => "OWNER"@,
                    Control::GroupDefaulted => "GROUP"@,
                    Control::DaclPresent => "DACL"@,
                    Control::DaclDefaulted => "DACL"@,
                    Control::DaclAutoInheritRequired => "DACL"@,
                    Control::DaclAutoInherited => "DACL"@,
                    Control::DaclProtected => "DACL"@,
                    _ => "SACL"@,
                },
                c.part(),
            ),
        control_result(d, c) is Ok <==> d.mask & c.part() == c.part(),
        control_result(d, c) matches Ok(b) ==> (b <==> d.control & c.bit() == c.bit()),
{
    let flags = sec_desc_control_names();
    assert(flags[0] == ("OWNER_DEFAULTED"@, 0x1u32) && flags[1] == ("GROUP_DEFAULTED"@, 0x2u32)
        && flags[2] == ("DACL_PRESENT"@, 0x4u32) && flags[3] == ("DACL_DEFAULTED"@, 0x8u32)
        && flags[4] == ("SACL_PRESENT"@, 0x10u32) && flags[5] == ("SACL_DEFAULTED"@, 0x20u32)
        && flags[6] == ("DACL_AUTO_INHERIT_REQUIRED"@, 0x100u32) && flags[7] == (
        "SACL_AUTO_INHERIT_REQUIRED"@,
        0x200u32,
    ) && flags[8] == ("DACL_AUTO_INHERITED"@, 0x400u32) && flags[9] == (
        "SACL_AUTO_INHERITED"@,
        0x800u32,
    ) && flags[10] == ("DACL_PROTECTED"@, 0x1000u32) && flags[11] == ("SACL_PROTECTED"@, 0x2000u32));
    let parts = sec_info_names();
    assert(parts[0] == ("OWNER"@, 0x1u32) && parts[1] == ("GROUP"@, 0x2u32) && parts[2] == (
        "DACL"@,
        0x4u32,
    ) && parts[3] == ("SACL"@, 0x8u32));
}

} // verus!

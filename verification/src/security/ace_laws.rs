//! What entries of Windows access control lists say, in terms of the keys and
//! arguments that they were described by.

use vstd::prelude::*;
use crate::error::ErrorView;
use crate::security::ace::{
    bin_result, components_of, components_request, flags_result, guid_result, item_result,
    key_step, mask_result, was_read, AceArgs, AceComponentsView, AceItemView, AceRequestView,
    Action,
};
use crate::security::coerce::bool_result;
use crate::security::meaning::{
    identifiers_mean_themselves, means_ace_flags, means_bin, means_bool, means_guid, means_rights,
    means_sid, rights_mean_their_bits, values_mean_themselves,
};
use crate::security::model::SpecValue;
use crate::security::path::under_key;
use crate::security::sid::sid_result;

verus! {

broadcast use vstd::string::group_string_axioms;

/// Whether the key `i` of a specification is `name`.
pub open spec fn key_at(pairs: Seq<(SpecValue, SpecValue)>, i: int, name: Seq<char>) -> bool {
    0 <= i < pairs.len() && (pairs[i].0 matches SpecValue::Sym(key) && key@ == name)
}

/// Whether one of the first `n` keys of a specification is `name`.
pub open spec fn given(pairs: Seq<(SpecValue, SpecValue)>, n: int, name: Seq<char>) -> bool {
    exists|i: int| 0 <= i < n && #[trigger] key_at(pairs, i, name)
}

/// Whether an entry says what is given under a key: who is allowed, denied or
/// recorded something, which rights it is about, and so on.
pub open spec fn ace_answers(r: AceRequestView, name: Seq<char>, value: SpecValue) -> bool {
    &&& name == "allow"@ ==> r.action is Allow && means_sid(value, r.sid)
    &&& name == "deny"@ ==> r.action is Deny && means_sid(value, r.sid)
    &&& name == "audit"@ ==> r.action is Audit && means_sid(value, r.sid)
    &&& name == "mask"@ ==> means_rights(value, r.mask)
    &&& name == "flags"@ ==> (r.flags matches Some(bits) && means_ace_flags(value, bits))
    &&& name == "object_type"@ ==> (r.object_type matches Some(n) && means_guid(value, n))
    &&& name == "inherited_object_type"@ ==> (r.inherited_object_type matches Some(n) && means_guid(
        value,
        n,
    ))
    &&& name == "callback"@ ==> means_bool(value, r.callback)
    &&& name == "application_data"@ ==> (r.application_data matches Some(b) && means_bin(value, b))
    &&& name == "successful"@ ==> (r.action matches Action::Audit { successful, .. } && means_bool(
        value,
        successful,
    ))
    &&& name == "failed"@ ==> (r.action matches Action::Audit { failed, .. } && means_bool(
        value,
        failed,
    ))
}

/// Whether an entry says nothing of a key that is not given.
pub open spec fn ace_is_silent(r: AceRequestView, name: Seq<char>) -> bool {
    &&& name == "allow"@ ==> !(r.action is Allow)
    &&& name == "deny"@ ==> !(r.action is Deny)
    &&& name == "audit"@ ==> !(r.action is Audit)
    &&& name != "mask"@
    &&& name == "flags"@ ==> r.flags is None
    &&& name == "object_type"@ ==> r.object_type is None
    &&& name == "inherited_object_type"@ ==> r.inherited_object_type is None
    &&& name == "callback"@ ==> !r.callback
    &&& name == "application_data"@ ==> r.application_data is None
    &&& name == "successful"@ ==> (r.action matches Action::Audit { successful, .. } ==> !successful)
    &&& name == "failed"@ ==> (r.action matches Action::Audit { failed, .. } ==> !failed)
}

/// Whether what was read says what is given under a key.
spec fn read_as(c: AceComponentsView, name: Seq<char>, value: SpecValue) -> bool {
    &&& name == "allow"@ ==> (c.allow matches Some(sid) && means_sid(value, sid))
    &&& name == "deny"@ ==> (c.deny matches Some(sid) && means_sid(value, sid))
    &&& name == "audit"@ ==> (c.audit matches Some(sid) && means_sid(value, sid))
    &&& name == "mask"@ ==> (c.mask matches Some(bits) && means_rights(value, bits))
    &&& name == "flags"@ ==> (c.flags matches Some(bits) && means_ace_flags(value, bits))
    &&& name == "object_type"@ ==> (c.object_type matches Some(n) && means_guid(value, n))
    &&& name == "inherited_object_type"@ ==> (c.inherited_object_type matches Some(n) && means_guid(
        value,
        n,
    ))
    &&& name == "callback"@ ==> (c.callback matches Some(b) && means_bool(value, b))
    &&& name == "application_data"@ ==> (c.application_data matches Some(b) && means_bin(value, b))
    &&& name == "successful"@ ==> (c.successful matches Some(b) && means_bool(value, b))
    &&& name == "failed"@ ==> (c.failed matches Some(b) && means_bool(value, b))
}

/// The keys differ.
proof fn lemma_keys_differ()
    ensures
        "allow"@ != "deny"@,
        "allow"@ != "audit"@,
        "allow"@ != "mask"@,
        "allow"@ != "flags"@,
        "allow"@ != "object_type"@,
        "allow"@ != "inherited_object_type"@,
        "allow"@ != "callback"@,
        "allow"@ != "application_data"@,
        "allow"@ != "successful"@,
        "allow"@ != "failed"@,
        "deny"@ != "audit"@,
        "deny"@ != "mask"@,
        "deny"@ != "flags"@,
        "deny"@ != "object_type"@,
        "deny"@ != "inherited_object_type"@,
        "deny"@ != "callback"@,
        "deny"@ != "application_data"@,
        "deny"@ != "successful"@,
        "deny"@ != "failed"@,
        "audit"@ != "mask"@,
        "audit"@ != "flags"@,
        "audit"@ != "object_type"@,
        "audit"@ != "inherited_object_type"@,
        "audit"@ != "callback"@,
        "audit"@ != "application_data"@,
        "audit"@ != "successful"@,
        "audit"@ != "failed"@,
        "mask"@ != "flags"@,
        "mask"@ != "object_type"@,
        "mask"@ != "inherited_object_type"@,
        "mask"@ != "callback"@,
        "mask"@ != "application_data"@,
        "mask"@ != "successful"@,
        "mask"@ != "failed"@,
        "flags"@ != "object_type"@,
        "flags"@ != "inherited_object_type"@,
        "flags"@ != "callback"@,
        "flags"@ != "application_data"@,
        "flags"@ != "successful"@,
        "flags"@ != "failed"@,
        "object_type"@ != "inherited_object_type"@,
        "object_type"@ != "callback"@,
        "object_type"@ != "application_data"@,
        "object_type"@ != "successful"@,
        "object_type"@ != "failed"@,
        "inherited_object_type"@ != "callback"@,
        "inherited_object_type"@ != "application_data"@,
        "inherited_object_type"@ != "successful"@,
        "inherited_object_type"@ != "failed"@,
        "callback"@ != "application_data"@,
        "callback"@ != "successful"@,
        "callback"@ != "failed"@,
        "application_data"@ != "successful"@,
        "application_data"@ != "failed"@,
        "successful"@ != "failed"@,
{
    reveal_strlit("allow");
    reveal_strlit("deny");
    reveal_strlit("audit");
    reveal_strlit("mask");
    reveal_strlit("flags");
    reveal_strlit("object_type");
    reveal_strlit("inherited_object_type");
    reveal_strlit("callback");
    reveal_strlit("application_data");
    reveal_strlit("successful");
    reveal_strlit("failed");
    assert("allow"@[0] == 'a' && "allow"@[1] == 'l');
    assert("audit"@[0] == 'a' && "audit"@[1] == 'u');
    assert("application_data"@[0] == 'a' && "application_data"@[1] == 'p');
    assert("deny"@[0] == 'd');
    assert("object_type"@[0] == 'o');
    assert("inherited_object_type"@[0] == 'i');
    assert("callback"@[0] == 'c');
    assert("successful"@[0] == 's');
    assert("mask"@[0] == 'm');
    assert("flags"@[0] == 'f' && "flags"@[1] == 'l');
    assert("failed"@[0] == 'f' && "failed"@[1] == 'a');
}

proof fn lemma_step(
    c: AceComponentsView,
    name: Seq<char>,
    entry: SpecValue,
    path: Seq<char>,
    key: Seq<char>,
    value: SpecValue,
)
    requires
        key_step(c, name, entry, path) is Ok,
    ensures
        ({
            let after = key_step(c, name, entry, path)->Ok_0;
            &&& !was_read(c, name)
            &&& was_read(after, key) <==> was_read(c, key) || key == name
            &&& read_as(after, name, entry)
            &&& key != name && read_as(c, key, value) ==> read_as(after, key, value)
        }),
{
    lemma_keys_differ();
    let at = under_key(path, name);
    let after = key_step(c, name, entry, path)->Ok_0;
    rights_mean_their_bits(entry, at);
    values_mean_themselves(entry, at, u32::MAX as int);
    if let Ok(sid) = sid_result(entry, at) {
        identifiers_mean_themselves(entry, at, sid);
    }
    if let Ok(n) = guid_result(entry) {
        assert(means_guid(entry, n));
    }
    if let Ok(b) = bool_result(entry, at) {
        assert(means_bool(entry, b));
    }
    if let Ok(b) = bin_result(entry, at) {
        assert(means_bin(entry, b));
    }
}

proof fn lemma_read(pairs: Seq<(SpecValue, SpecValue)>, n: nat, path: Seq<char>)
    requires
        n <= pairs.len(),
        components_of(pairs, n, path) is Ok,
    ensures
        ({
            let c = components_of(pairs, n, path)->Ok_0;
            &&& forall|name: Seq<char>|
                #![trigger was_read(c, name)]
                #![trigger given(pairs, n as int, name)]
                was_read(c, name) <==> given(pairs, n as int, name)
            &&& forall|i: int, name: Seq<char>|
                0 <= i < n && #[trigger] key_at(pairs, i, name) ==> read_as(c, name, pairs[i].1)
        }),
    decreases n,
{
    let c = components_of(pairs, n, path)->Ok_0;
    lemma_keys_differ();
    if n > 0 {
        let m = (n - 1) as nat;
        lemma_read(pairs, m, path);
        let before = components_of(pairs, m, path)->Ok_0;
        let key = pairs[m as int].0->Sym_0@;
        assert(key_at(pairs, m as int, key));
        assert forall|name: Seq<char>| #[trigger] was_read(c, name) <==> given(
            pairs,
            n as int,
            name,
        ) by {
            lemma_step(before, key, pairs[m as int].1, path, name, SpecValue::Nil);
            assert(was_read(before, name) <==> given(pairs, m as int, name));
            if given(pairs, m as int, name) {
                let i = choose|i: int| 0 <= i < m && #[trigger] key_at(pairs, i, name);
                assert(0 <= i < n && key_at(pairs, i, name));
            }
            if given(pairs, n as int, name) && name != key {
                let i = choose|i: int| 0 <= i < n && #[trigger] key_at(pairs, i, name);
                assert(i < m);
            }
        }
        assert forall|i: int, name: Seq<char>|
            0 <= i < n && #[trigger] key_at(pairs, i, name) implies read_as(c, name, pairs[i].1) by {
            lemma_step(before, key, pairs[m as int].1, path, name, pairs[i].1);
            if i < m {
                assert(given(pairs, m as int, name));
                assert(was_read(before, name));
                assert(name != key);
            } else {
                assert(name == key);
            }
        }
    } else {
        assert forall|name: Seq<char>| #[trigger] was_read(c, name) <==> given(
            pairs,
            n as int,
            name,
        ) by {}
    }
}

/// Components that make an entry say in it what they say.
proof fn lemma_request(c: AceComponentsView, path: Seq<char>, name: Seq<char>, value: SpecValue)
    requires
        components_request(c, path) is Ok,
    ensures
        read_as(c, name, value) && was_read(c, name) ==> ace_answers(
            components_request(c, path)->Ok_0,
            name,
            value,
        ),
        !was_read(c, name) ==> ace_is_silent(components_request(c, path)->Ok_0, name),
{
    lemma_keys_differ();
}

/// An entry that is specified says exactly what is specified: it allows, denies
/// or records access exactly where the key `allow`, `deny` or `audit` is given,
/// for who is given there, and every other key says what it means. What is not
/// given is left out.
pub proof fn entries_say_what_is_specified(
    value: SpecValue,
    path: Seq<char>,
    r: AceRequestView,
    i: int,
    name: Seq<char>,
)
    requires
        item_result(value, path) == Ok::<AceItemView, ErrorView>(AceItemView::Request(r)),
    ensures
        value matches SpecValue::Dict(pairs) && {
            &&& r.action is Allow <==> given(pairs@, pairs@.len() as int, "allow"@)
            &&& r.action is Deny <==> given(pairs@, pairs@.len() as int, "deny"@)
            &&& r.action is Audit <==> given(pairs@, pairs@.len() as int, "audit"@)
            &&& key_at(pairs@, i, name) ==> ace_answers(r, name, pairs@[i].1)
            &&& !given(pairs@, pairs@.len() as int, name) ==> ace_is_silent(r, name)
        },
{
    lemma_keys_differ();
    let pairs = value->Dict_0;
    let n = pairs@.len();
    let c = components_of(pairs@, n, path)->Ok_0;
    lemma_read(pairs@, n, path);
    assert(was_read(c, "allow"@) <==> given(pairs@, n as int, "allow"@));
    assert(was_read(c, "deny"@) <==> given(pairs@, n as int, "deny"@));
    assert(was_read(c, "audit"@) <==> given(pairs@, n as int, "audit"@));
    assert(was_read(c, name) <==> given(pairs@, n as int, name));
    if key_at(pairs@, i, name) {
        assert(given(pairs@, n as int, name));
        lemma_request(c, path, name, pairs@[i].1);
    }
    lemma_request(c, path, name, SpecValue::Nil);
}

/// An entry stands for itself.
pub proof fn packed_entries_stand_for_themselves(value: SpecValue, path: Seq<char>, packet: Seq<u8>)
    ensures
        item_result(value, path) == Ok::<AceItemView, ErrorView>(AceItemView::Packed(packet)) <==> (
        value matches SpecValue::Ace(ace) && ace.packet@ == packet),
{
}

impl AceArgs {
    /// What is given under a name.
    pub open spec fn argument(self, name: Seq<char>) -> Option<SpecValue> {
        if name == "allow"@ {
            self.allow
        } else if name == "deny"@ {
            self.deny
        } else if name == "audit"@ {
            self.audit
        } else if name == "mask"@ {
            Some(self.mask)
        } else if name == "flags"@ {
            self.flags
        } else if name == "object_type"@ {
            self.object_type
        } else if name == "inherited_object_type"@ {
            self.inherited_object_type
        } else if name == "callback"@ {
            self.callback
        } else if name == "application_data"@ {
            self.application_data
        } else if name == "successful"@ {
            self.successful
        } else if name == "failed"@ {
            self.failed
        } else {
            None
        }
    }
}

proof fn lemma_arguments(args: AceArgs, path: Seq<char>, name: Seq<char>)
    requires
        args.components(path) is Ok,
    ensures
        ({
            let c = args.components(path)->Ok_0;
            &&& was_read(c, name) <==> args.argument(name) is Some
            &&& args.argument(name) matches Some(v) ==> read_as(c, name, v)
        }),
{
    lemma_keys_differ();
    match args.argument(name) {
        Some(v) => {
            let at = under_key(path, name);
            rights_mean_their_bits(v, at);
            values_mean_themselves(v, at, u32::MAX as int);
            if let Ok(sid) = sid_result(v, at) {
                identifiers_mean_themselves(v, at, sid);
            }
            if let Ok(n) = guid_result(v) {
                assert(means_guid(v, n));
            }
            if let Ok(b) = bool_result(v, at) {
                assert(means_bool(v, b));
            }
            if let Ok(b) = bin_result(v, at) {
                assert(means_bin(v, b));
            }
        },
        None => {},
    }
}

/// An entry made of arguments says exactly what they say: it allows, denies or
/// records access exactly where that argument is given, for who is given
/// there, and every other argument says what it means.
pub proof fn entries_say_what_is_given(args: AceArgs, path: Seq<char>, r: AceRequestView, name: Seq<char>)
    requires
        args.declarative(path) == Ok::<AceRequestView, ErrorView>(r) || args.rigid() == Ok::<
            AceRequestView,
            ErrorView,
        >(r),
    ensures
        r.action is Allow <==> args.allow is Some,
        r.action is Deny <==> args.deny is Some,
        r.action is Audit <==> args.audit is Some,
        args.argument(name) matches Some(v) ==> ace_answers(r, name, v),
        args.argument(name) is None ==> ace_is_silent(r, name),
{
    lemma_keys_differ();
    if args.rigid() == Ok::<AceRequestView, ErrorView>(r) {
        crate::security::ace::declarations_extend_the_constructor(args, path);
    }
    let c = args.components(path)->Ok_0;
    lemma_arguments(args, path, "allow"@);
    lemma_arguments(args, path, "deny"@);
    lemma_arguments(args, path, "audit"@);
    lemma_arguments(args, path, name);
    match args.argument(name) {
        Some(v) => lemma_request(c, path, name, v),
        None => lemma_request(c, path, name, SpecValue::Nil),
    }
}

/// Whether an argument can be read.
pub open spec fn readable(name: Seq<char>, value: SpecValue) -> bool {
    if name == "allow"@ || name == "deny"@ || name == "audit"@ {
        exists|sid| means_sid(value, sid)
    } else if name == "mask"@ {
        exists|bits| means_rights(value, bits)
    } else if name == "flags"@ {
        exists|bits| means_ace_flags(value, bits)
    } else if name == "object_type"@ || name == "inherited_object_type"@ {
        exists|n| means_guid(value, n)
    } else if name == "application_data"@ {
        exists|b| means_bin(value, b)
    } else {
        exists|b| means_bool(value, b)
    }
}

/// Arguments that can all be read make an entry if they name one of the three
/// actions, and say what is recorded exactly where something is.
pub proof fn readable_arguments_make_an_entry(args: AceArgs, path: Seq<char>)
    requires
        forall|name: Seq<char>|
            (#[trigger] args.argument(name)) matches Some(v) ==> readable(name, v),
        args.allow is Some && args.deny is None && args.audit is None || args.allow is None
            && args.deny is Some && args.audit is None || args.allow is None && args.deny is None
            && args.audit is Some,
        args.audit is Some <==> args.successful is Some || args.failed is Some,
    ensures
        args.declarative(path) is Ok,
{
    lemma_keys_differ();
    lemma_readable(args, path, "allow"@);
    lemma_readable(args, path, "deny"@);
    lemma_readable(args, path, "audit"@);
    lemma_readable(args, path, "mask"@);
    lemma_readable(args, path, "flags"@);
    lemma_readable(args, path, "object_type"@);
    lemma_readable(args, path, "inherited_object_type"@);
    lemma_readable(args, path, "callback"@);
    lemma_readable(args, path, "application_data"@);
    lemma_readable(args, path, "successful"@);
    lemma_readable(args, path, "failed"@);
}

proof fn lemma_readable(args: AceArgs, path: Seq<char>, name: Seq<char>)
    requires
        args.argument(name) matches Some(v) ==> readable(name, v),
    ensures
        args.argument(name) matches Some(v) ==> {
            let at = under_key(path, name);
            &&& name == "allow"@ || name == "deny"@ || name == "audit"@ ==> sid_result(v, at) is Ok
            &&& name == "mask"@ ==> mask_result(v, at) is Ok
            &&& name == "flags"@ ==> flags_result(v, at) is Ok
            &&& name == "object_type"@ || name == "inherited_object_type"@ ==> guid_result(v) is Ok
            &&& name == "application_data"@ ==> bin_result(v, at) is Ok
            &&& name == "callback"@ || name == "successful"@ || name == "failed"@ ==> bool_result(
                v,
                at,
            ) is Ok
        },
{
    lemma_keys_differ();
    if let Some(v) = args.argument(name) {
        let at = under_key(path, name);
        rights_mean_their_bits(v, at);
        values_mean_themselves(v, at, u32::MAX as int);
        if name == "allow"@ || name == "deny"@ || name == "audit"@ {
            let sid = choose|sid| means_sid(v, sid);
            identifiers_mean_themselves(v, at, sid);
        }
    }
}

} // verus!

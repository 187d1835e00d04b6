//! What programs are given: their arguments, their environment and their
//! directory.

use vstd::prelude::*;
use crate::error::{Error, ErrorView};
use crate::shell::process::{
    admin_problem, cd_result, current_value, env_map, exit_result, overrides_of, program_args_of,
    text_option, CallArg, CdPlanView, EnvArg, EnvValue, Exit, ProgramArg,
};
use crate::value::Value;

verus! {

broadcast use vstd::string::group_string_axioms;

/// A program leaves with the code that it gives, and with zero if it gives
/// none.
pub proof fn programs_leave_with_their_code(code: Option<Value>, status: i32)
    ensures
        exit_result(code) == Ok::<Exit, ErrorView>(Exit { code: status }) <==> match code {
            None => status == 0,
            Some(value) => value matches Value::Int(n) && n == status as int,
        },
        exit_result(code) is Err <==> (code matches Some(value) && !(value matches Value::Int(n)
            && i32::MIN <= n <= i32::MAX)),
{
}

/// Whether an argument of a program is this text.
pub open spec fn is_text(arg: ProgramArg, text: Seq<char>) -> bool {
    arg matches ProgramArg::Pos(Ok(s)) && s@ == text
}

/// A program gets its arguments as they are, all of them and in order; they
/// are refused only if one is a keyword or could not be converted.
pub proof fn programs_get_their_arguments(args: Seq<ProgramArg>, n: nat)
    requires
        n <= args.len(),
    ensures
        program_args_of(args, n) matches Ok(all) ==> all.len() == n && forall|i: int|
            0 <= i < n ==> is_text(args[i], #[trigger] all[i]),
        (forall|i: int| 0 <= i < n ==> (#[trigger] args[i] matches ProgramArg::Pos(Ok(_))))
            ==> program_args_of(args, n) is Ok,
    decreases n,
{
    if n > 0 {
        programs_get_their_arguments(args, (n - 1) as nat);
    }
}

/// Whether a variable has a value in an environment in which the first of
/// several entries counts.
pub open spec fn stands_first(env: Seq<(String, String)>, key: Seq<char>, at: int) -> bool {
    &&& 0 <= at < env.len()
    &&& env[at].0@ == key
    &&& forall|i: int| 0 <= i < at ==> (#[trigger] env[i]).0@ != key
}

/// Whether no entry of an environment is about a variable.
pub open spec fn unset(env: Seq<(String, String)>, key: Seq<char>) -> bool {
    forall|i: int| 0 <= i < env.len() ==> (#[trigger] env[i]).0@ != key
}

/// A variable has the value of its first entry, and none without an entry.
pub proof fn the_first_entry_counts(env: Seq<(String, String)>, key: Seq<char>, at: int)
    ensures
        stands_first(env, key, at) ==> current_value(env, key, 0) == Some(env[at].1@),
        unset(env, key) ==> current_value(env, key, 0) is None,
{
    if stands_first(env, key, at) {
        lemma_current(env, key, 0, at);
    }
    if unset(env, key) {
        lemma_current(env, key, 0, env.len() as int);
    }
}

proof fn lemma_current(env: Seq<(String, String)>, key: Seq<char>, from: int, at: int)
    requires
        0 <= from <= at <= env.len(),
        at < env.len() ==> env[at].0@ == key,
        forall|i: int| 0 <= i < at ==> (#[trigger] env[i]).0@ != key,
    ensures
        current_value(env, key, from) == if at < env.len() {
            Some(env[at].1@)
        } else {
            None
        },
    decreases at - from,
{
    if from < at {
        assert(env[from].0@ != key);
        lemma_current(env, key, from + 1, at);
    }
}

/// Whether a pair is about a variable.
pub open spec fn names(key: Value, name: Seq<char>) -> bool {
    match key {
        Value::Str(s) => s@ == name,
        Value::Sym(s) => s@ == name,
        _ => false,
    }
}

/// Whether `set` is what a pair makes of the variable: a text sets it, nothing
/// removes it, and the inherited value is the one it has now.
pub open spec fn makes(
    value: EnvValue,
    env: Seq<(String, String)>,
    name: Seq<char>,
    set: Option<Seq<char>>,
) -> bool {
    match value {
        EnvValue::Nil => set is None,
        EnvValue::Inherit => (unset(env, name) ==> set is None) && forall|at: int| #[trigger]
            stands_first(env, name, at) ==> set == Some(env[at].1@),
        EnvValue::Text(text) => text matches Ok(s) && set == Some(s@),
    }
}

/// An override is about the variables that are named, and makes of each what
/// the last pair about it says.
pub proof fn the_last_override_counts(
    pairs: Seq<(Value, EnvValue)>,
    env: Seq<(String, String)>,
    n: nat,
    name: Seq<char>,
    at: int,
)
    requires
        n <= pairs.len(),
        overrides_of(pairs, env, n) is Ok,
    ensures
        0 <= at < n && names(pairs[at].0, name) && (forall|i: int|
            at < i < n ==> !names((#[trigger] pairs[i]).0, name)) ==> {
            &&& overrides_of(pairs, env, n)->Ok_0.dom().contains(name)
            &&& makes(pairs[at].1, env, name, overrides_of(pairs, env, n)->Ok_0[name])
        },
        (forall|i: int| 0 <= i < n ==> !names((#[trigger] pairs[i]).0, name)) ==> !overrides_of(
            pairs,
            env,
            n,
        )->Ok_0.dom().contains(name),
    decreases n,
{
    if n > 0 {
        let m = (n - 1) as nat;
        the_last_override_counts(pairs, env, m, name, at);
        let last = pairs[m as int];
        if names(last.0, name) {
            assert forall|i: int| #[trigger] stands_first(env, name, i) implies current_value(
                env,
                name,
                0,
            ) == Some(env[i].1@) by {
                the_first_entry_counts(env, name, i);
            }
            the_first_entry_counts(env, name, 0);
        }
    }
}

/// Of several entries about a variable the last one counts.
pub proof fn the_last_entry_counts(
    entries: Seq<(String, Option<String>)>,
    name: Seq<char>,
    at: int,
)
    ensures
        0 <= at < entries.len() && entries[at].0@ == name && (forall|i: int|
            at < i < entries.len() ==> (#[trigger] entries[i]).0@ != name) ==> env_map(
            entries,
        ).dom().contains(name) && env_map(entries)[name] == text_option(entries[at].1),
        (forall|i: int| 0 <= i < entries.len() ==> (#[trigger] entries[i]).0@ != name) ==> !env_map(
            entries,
        ).dom().contains(name),
    decreases entries.len(),
{
    if entries.len() > 0 {
        let init = entries.drop_last();
        the_last_entry_counts(init, name, at);
        assert(forall|i: int| 0 <= i < init.len() ==> #[trigger] init[i] == entries[i]);
        if at < init.len() {
            assert((forall|i: int| at < i < entries.len() ==> (#[trigger] entries[i]).0@ != name)
                ==> entries[entries.len() - 1].0@ != name);
        }
    }
}

/// Without an argument `cd` only reports; with a directory it changes to it,
/// and with a function after that it is there during the call. Keywords are
/// refused.
pub proof fn directories_are_changed_as_asked(args: Seq<CallArg>, path: Result<String, Error>)
    ensures
        args.len() == 0 <==> cd_result(args, path) == Ok::<CdPlanView, ErrorView>(
            CdPlanView::Report,
        ),
        args.len() > 0 && (args[0] is Key || args.len() > 1 && args[1] is Key) ==> cd_result(
            args,
            path,
        ) is Err,
        args.len() == 1 && args[0] is Pos && path is Ok ==> cd_result(args, path) == Ok::<
            CdPlanView,
            ErrorView,
        >(CdPlanView::Change(path->Ok_0@)),
        args.len() > 1 && args[0] is Pos && args[1] is Pos && path is Ok ==> cd_result(args, path)
            == Ok::<CdPlanView, ErrorView>(CdPlanView::During(path->Ok_0@)),
        args.len() > 0 && path is Err ==> cd_result(args, path) is Err,
{
}

/// An elevated file system is refused exactly for an argument of the wrong
/// type, a directory that could not be read, or a change of the environment
/// that is refused.
pub proof fn elevated_file_systems_are_refused_for_cause(
    elevate: Option<Value>,
    cd: Option<Result<bool, Error>>,
    env: Option<EnvArg>,
    current: Seq<(String, String)>,
)
    ensures
        admin_problem(elevate, cd, env, current) is Some <==> {
            ||| elevate matches Some(v) && !(v is Bool)
            ||| cd matches Some(r) && r is Err
            ||| env matches Some(EnvArg::Other)
            ||| env matches Some(EnvArg::Dict(pairs)) && overrides_of(
                pairs@,
                current,
                pairs@.len(),
            ) is Err
        },
{
}

} // verus!

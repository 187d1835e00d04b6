//! Programs: leaving, replacing and overriding them, and the streams and file
//! systems they are given.

use vstd::prelude::*;
use vstd::utf8::encode_utf8;
use crate::console::data::{bytes_of, copy_bytes};
use crate::error::{outcome, viewed, Error, ErrorView};
use crate::text::str_eq;
use crate::value::Value;

verus! {

broadcast use vstd::string::group_string_axioms;

/// The request to leave the program.
#[derive(Clone, Copy, Debug, PartialEq, Eq, Structural)]
pub struct Exit {
    pub code: i32,
}

/// The status code that a program leaves with: zero unless it gives one.
pub open spec fn exit_result(code: Option<Value>) -> Result<Exit, ErrorView> {
    match code {
        None => Ok(Exit { code: 0 }),
        Some(Value::Int(n)) if i64::MIN <= n <= i64::MAX => if i32::MIN <= n <= i32::MAX {
            Ok(Exit { code: n as i32 })
        } else {
            Err(ErrorView::Overflow)
        },
        Some(_) => Err(ErrorView::Type("exit: not an integer"@)),
    }
}

/// The request to leave the program.
pub fn exit(code: &Option<Value>) -> (r: Result<Exit, Error>)
    ensures
        outcome(r) == exit_result(*code),
{
    match code {
        None => Ok(Exit { code: 0 }),
        Some(Value::Int(n)) => {
            if *n < i64::MIN as i128 || *n > i64::MAX as i128 {
                return Err(Error::Type("exit: not an integer".to_owned()));
            }
            if *n < i32::MIN as i128 || *n > i32::MAX as i128 {
                return Err(Error::Overflow);
            }
            Ok(Exit { code: *n as i32 })
        },
        Some(_) => Err(Error::Type("exit: not an integer".to_owned())),
    }
}

/// A change of one environment variable.
#[derive(Debug)]
pub enum EnvEdit {
    Assign(String, String),
    Remove(String),
}

/// The mathematical content of an [`EnvEdit`].
#[verifier::ext_equal]
pub enum EnvEditView {
    Assign(Seq<char>, Seq<char>),
    Remove(Seq<char>),
}

impl View for EnvEdit {
    type V = EnvEditView;

    open spec fn view(&self) -> EnvEditView {
        match self {
            EnvEdit::Assign(k, v) => EnvEditView::Assign(k@, v@),
            EnvEdit::Remove(k) => EnvEditView::Remove(k@),
        }
    }
}

/// A command ready to be run.
#[derive(Debug)]
pub struct CommandPlan {
    pub program: String,
    pub args: Vec<String>,
    pub cwd: String,
    pub env: Vec<EnvEdit>,
}

/// The request to replace the program by another.
#[derive(Debug)]
pub struct Exec {
    program: String,
    args: Vec<String>,
    cwd: String,
    env: Vec<(String, Option<String>)>,
}

/// What each string holds.
pub open spec fn texts(v: Seq<String>) -> Seq<Seq<char>> {
    Seq::new(v.len(), |i: int| v[i]@)
}

/// What an optional string holds.
pub open spec fn text_option(s: Option<String>) -> Option<Seq<char>> {
    match s {
        Some(s) => Some(s@),
        None => None,
    }
}

/// An environment after some edits, in order.
pub open spec fn edited(
    env: Map<Seq<char>, Seq<char>>,
    edits: Seq<EnvEditView>,
) -> Map<Seq<char>, Seq<char>>
    decreases edits.len(),
{
    if edits.len() == 0 {
        env
    } else {
        let before = edited(env, edits.drop_last());
        match edits.last() {
            EnvEditView::Assign(k, v) => before.insert(k, v),
            EnvEditView::Remove(k) => before.remove(k),
        }
    }
}

/// The edit that a variable with or without a value stands for.
pub open spec fn edit_of(entry: (String, Option<String>)) -> EnvEditView {
    match entry.1 {
        Some(v) => EnvEditView::Assign(entry.0@, v@),
        None => EnvEditView::Remove(entry.0@),
    }
}

impl Exec {
    pub closed spec fn spec_program(self) -> Seq<char> {
        self.program@
    }

    pub closed spec fn spec_args(self) -> Seq<Seq<char>> {
        texts(self.args@)
    }

    pub closed spec fn spec_cwd(self) -> Seq<char> {
        self.cwd@
    }

    /// The edits of the environment.
    pub closed spec fn spec_env(self) -> Seq<EnvEditView> {
        Seq::new(self.env@.len(), |i: int| edit_of(self.env@[i]))
    }

    /// The request to run `program`.
    pub fn new(
        program: String,
        args: Vec<String>,
        cwd: String,
        env: Vec<(String, Option<String>)>,
    ) -> (exec: Exec)
        ensures
            exec.spec_program() == program@,
            exec.spec_args() == texts(args@),
            exec.spec_cwd() == cwd@,
            exec.spec_env() == Seq::new(env@.len(), |i: int| edit_of(env@[i])),
    {
        Exec { program, args, cwd, env }
    }

    /// The command to run: variables with a value are set, the others are
    /// taken away.
    pub fn command(&self) -> (plan: CommandPlan)
        ensures
            plan.program@ == self.spec_program(),
            texts(plan.args@) == self.spec_args(),
            plan.cwd@ == self.spec_cwd(),
            plan.env@.len() == self.spec_env().len(),
            forall|i: int| 0 <= i < plan.env@.len() ==> (#[trigger] plan.env@[i])@ == self.spec_env()[i],
    {
        let mut args: Vec<String> = Vec::new();
        let mut i: usize = 0;
        while i < self.args.len()
            invariant
                i <= self.args@.len(),
                args@.len() == i,
                forall|j: int| 0 <= j < i ==> (#[trigger] args@[j])@ == self.args@[j]@,
            decreases self.args@.len() - i,
        {
            args.push(self.args[i].clone());
            i = i + 1;
        }
        let mut env: Vec<EnvEdit> = Vec::new();
        let mut i: usize = 0;
        while i < self.env.len()
            invariant
                i <= self.env@.len(),
                env@.len() == i,
                forall|j: int| 0 <= j < i ==> (#[trigger] env@[j])@ == edit_of(self.env@[j]),
            decreases self.env@.len() - i,
        {
            let entry = &self.env[i];
            match &entry.1 {
                Some(value) => env.push(EnvEdit::Assign(entry.0.clone(), value.clone())),
                None => env.push(EnvEdit::Remove(entry.0.clone())),
            }
            i = i + 1;
        }
        let plan = CommandPlan { program: self.program.clone(), args, cwd: self.cwd.clone(), env };
        assert(texts(plan.args@) =~= self.spec_args());
        plan
    }
}

/// What a request to replace the program rests on: whether programs run on this
/// machine at all, where the program was found, the directory, and the changes
/// of the environment.
#[derive(Debug)]
pub struct ExecContext {
    pub direct: bool,
    pub found: Option<String>,
    pub cwd: String,
    pub env: Vec<(String, Option<String>)>,
}

/// The request to replace the program by `program`.
pub fn exec(program: &str, context: ExecContext, args: &Vec<ProgramArg>) -> (r: Result<Exec, Error>)
    ensures
        !context.direct ==> r is Err && r->Err_0@ == ErrorView::Unsupported(
            "shell.exec is only supported on the host VFS"@,
        ),
        context.direct && context.found is None ==> r is Err && r->Err_0@ == ErrorView::NotFound(
            "executable not found: "@ + program@,
        ),
        context.direct && context.found is Some ==> match program_args_of(args@, args@.len()) {
            Err(e) => r is Err && r->Err_0@ == e,
            Ok(all) => {
                &&& r is Ok
                &&& r->Ok_0.spec_program() == context.found->0@
                &&& r->Ok_0.spec_args() == all
                &&& r->Ok_0.spec_cwd() == context.cwd@
                &&& r->Ok_0.spec_env() == Seq::new(
                    context.env@.len(),
                    |i: int| edit_of(context.env@[i]),
                )
            },
        },
{
    if !context.direct {
        return Err(
            Error::Unsupported("shell.exec is only supported on the host VFS".to_owned()),
        );
    }
    match context.found {
        None => {
            let mut message = "executable not found: ".to_owned();
            message.append(program);
            Err(Error::NotFound(message))
        },
        Some(found) => match program_args(args) {
            Err(e) => Err(e),
            Ok(args) => Ok(Exec::new(found, args, context.cwd, context.env)),
        },
    }
}

/// A variable that the command removes is not in its environment, unless a
/// later edit sets it.
pub proof fn removed_variables_are_gone(
    env: Map<Seq<char>, Seq<char>>,
    edits: Seq<EnvEditView>,
    at: int,
    key: Seq<char>,
)
    requires
        0 <= at < edits.len(),
        edits[at] == EnvEditView::Remove(key),
        forall|i: int|
            at < i < edits.len() ==> match #[trigger] edits[i] {
                EnvEditView::Assign(k, _) => k != key,
                EnvEditView::Remove(_) => true,
            },
    ensures
        !edited(env, edits).dom().contains(key),
    decreases edits.len(),
{
    if at < edits.len() - 1 {
        let init = edits.drop_last();
        assert forall|i: int| at < i < init.len() implies match #[trigger] init[i] {
            EnvEditView::Assign(k, _) => k != key,
            EnvEditView::Remove(_) => true,
        } by {
            assert(init[i] == edits[i]);
        }
        removed_variables_are_gone(env, init, at, key);
        let last = edits[edits.len() - 1];
        assert(match last {
            EnvEditView::Assign(k, _) => k != key,
            EnvEditView::Remove(_) => true,
        });
    }
}

/// A variable that the command sets has that value, unless a later edit
/// changes it.
pub proof fn set_variables_are_set(
    env: Map<Seq<char>, Seq<char>>,
    edits: Seq<EnvEditView>,
    at: int,
    key: Seq<char>,
    value: Seq<char>,
)
    requires
        0 <= at < edits.len(),
        edits[at] == EnvEditView::Assign(key, value),
        forall|i: int|
            at < i < edits.len() ==> match #[trigger] edits[i] {
                EnvEditView::Assign(k, _) => k != key,
                EnvEditView::Remove(k) => k != key,
            },
    ensures
        edited(env, edits).dom().contains(key),
        edited(env, edits)[key] == value,
    decreases edits.len(),
{
    if at < edits.len() - 1 {
        let init = edits.drop_last();
        assert forall|i: int| at < i < init.len() implies match #[trigger] init[i] {
            EnvEditView::Assign(k, _) => k != key,
            EnvEditView::Remove(k) => k != key,
        } by {
            assert(init[i] == edits[i]);
        }
        set_variables_are_set(env, init, at, key, value);
        let last = edits[edits.len() - 1];
        assert(match last {
            EnvEditView::Assign(k, _) => k != key,
            EnvEditView::Remove(k) => k != key,
        });
    }
}

/// An argument of a call.
pub enum CallArg {
    Pos(Value),
    Key(String),
}

/// The first argument of a call, which has to be there and in its place.
pub fn first_positional(args: &Vec<CallArg>) -> (r: Result<&Value, Error>)
    ensures
        if args@.len() == 0 {
            r is Err && r->Err_0@ == ErrorView::MissingPositional(0)
        } else {
            match args@[0] {
                CallArg::Pos(value) => r == Ok::<&Value, Error>(&value),
                CallArg::Key(key) => r is Err && r->Err_0@ == ErrorView::UnexpectedKey(key@),
            }
        },
{
    if args.len() == 0 {
        return Err(Error::MissingPositional(0));
    }
    match &args[0] {
        CallArg::Pos(value) => Ok(value),
        CallArg::Key(key) => Err(Error::UnexpectedKey(key.clone())),
    }
}

/// A program's argument as it was converted, or a keyword.
pub enum ProgramArg {
    Pos(Result<String, Error>),
    Key(String),
}

/// The first `n` arguments of a program, or the first error among them.
pub open spec fn program_args_of(args: Seq<ProgramArg>, n: nat) -> Result<Seq<Seq<char>>, ErrorView>
    decreases n,
{
    if n == 0 {
        Ok(Seq::empty())
    } else {
        match program_args_of(args, (n - 1) as nat) {
            Err(e) => Err(e),
            Ok(before) => match args[n - 1] {
                ProgramArg::Key(key) => Err(ErrorView::UnexpectedKey(key@)),
                ProgramArg::Pos(Ok(s)) => Ok(before.push(s@)),
                ProgramArg::Pos(Err(e)) => Err(e@),
            },
        }
    }
}

proof fn lemma_program_args_error(args: Seq<ProgramArg>, n: nat, m: nat)
    requires
        n <= m,
        program_args_of(args, n) is Err,
    ensures
        program_args_of(args, m) == program_args_of(args, n),
    decreases m,
{
    if n < m {
        lemma_program_args_error(args, n, (m - 1) as nat);
    }
}

/// The arguments of a program.
pub fn program_args(args: &Vec<ProgramArg>) -> (r: Result<Vec<String>, Error>)
    ensures
        match program_args_of(args@, args@.len()) {
            Ok(all) => r is Ok && texts(r->Ok_0@) == all,
            Err(e) => r is Err && r->Err_0@ == e,
        },
{
    let mut out: Vec<String> = Vec::new();
    let mut i: usize = 0;
    assert(texts(out@) =~= Seq::<Seq<char>>::empty());
    while i < args.len()
        invariant
            i <= args@.len(),
            program_args_of(args@, i as nat) == Ok::<Seq<Seq<char>>, ErrorView>(texts(out@)),
        decreases args@.len() - i,
    {
        let ghost before = out@;
        match &args[i] {
            ProgramArg::Key(key) => {
                proof {
                    lemma_program_args_error(args@, (i + 1) as nat, args@.len());
                }
                return Err(Error::UnexpectedKey(key.clone()));
            },
            ProgramArg::Pos(Err(e)) => {
                proof {
                    lemma_program_args_error(args@, (i + 1) as nat, args@.len());
                }
                return Err(e.copy());
            },
            ProgramArg::Pos(Ok(s)) => {
                out.push(s.clone());
                assert(texts(out@) =~= texts(before).push(s@));
            },
        }
        i = i + 1;
    }
    Ok(out)
}

/// How a stream is read: by lines, or in chunks.
#[derive(Clone, Copy, Debug, PartialEq, Eq, Structural)]
pub enum IoMode {
    Line,
    Chunk,
}

/// A handle on standard input. All handles share the one stream, so two of
/// them are the same if they read it the same way.
#[derive(Clone, Copy, Debug)]
pub struct Stdin {
    mode: IoMode,
}

impl View for Stdin {
    type V = IoMode;

    closed spec fn view(&self) -> IoMode {
        self.mode
    }
}

impl Default for Stdin {
    fn default() -> (stdin: Stdin)
        ensures
            stdin@ == IoMode::Line,
    {
        Stdin::new(IoMode::Line)
    }
}

impl Stdin {
    /// A handle that reads with `mode`.
    pub fn new(mode: IoMode) -> (stdin: Stdin)
        ensures
            stdin@ == mode,
    {
        Stdin { mode }
    }

    /// The handle that reads lines.
    pub fn lines(&self) -> (stdin: Stdin)
        ensures
            stdin@ == IoMode::Line,
    {
        Stdin::new(IoMode::Line)
    }

    /// The handle that reads chunks.
    pub fn chunks(&self) -> (stdin: Stdin)
        ensures
            stdin@ == IoMode::Chunk,
    {
        Stdin::new(IoMode::Chunk)
    }

    /// Whether another value, if it is a handle at all, is the same.
    pub fn eq_to(&self, other: &Option<Stdin>) -> (r: bool)
        ensures
            r == match *other {
                Some(other) => self@ == other@,
                None => false,
            },
    {
        match other {
            Some(other) => other.mode == self.mode,
            None => false,
        }
    }
}

/// How much a read asks for; everything if it does not say.
pub fn read_size(size: &Option<Value>) -> (r: Result<Option<usize>, Error>)
    ensures
        outcome(r) == match *size {
            None => Ok(None),
            Some(Value::Int(n)) if 0 <= n <= i64::MAX && n <= usize::MAX => Ok(Some(n as usize)),
            Some(_) => Err(ErrorView::Type("size must be a non-negative integer"@)),
        },
{
    match size {
        None => Ok(None),
        Some(Value::Int(n)) => {
            if 0 <= *n && *n <= i64::MAX as i128 && *n <= usize::MAX as i128 {
                Ok(Some(*n as usize))
            } else {
                Err(Error::Type("size must be a non-negative integer".to_owned()))
            }
        },
        Some(_) => Err(Error::Type("size must be a non-negative integer".to_owned())),
    }
}

/// Where a file system comes from.
#[derive(Debug)]
pub enum VfsSource {
    Stream,
    Unix(String),
    WindowsAdmin,
}

impl VfsSource {
    /// A file system for debugging. `shown` is how the path of a socket is
    /// shown for debugging.
    pub fn debug(&self, shown: &str) -> (s: String)
        ensures
            s@ == match *self {
                VfsSource::Stream => "<shell.Vfs stream>"@,
                VfsSource::Unix(_) => "<shell.Vfs socket: "@ + shown@ + ">"@,
                VfsSource::WindowsAdmin => "<shell.Vfs windows admin>"@,
            },
    {
        match self {
            VfsSource::Stream => "<shell.Vfs stream>".to_owned(),
            VfsSource::Unix(_) => "<shell.Vfs socket: ".to_owned().concat(shown).concat(">"),
            VfsSource::WindowsAdmin => "<shell.Vfs windows admin>".to_owned(),
        }
    }

    /// Whether a launcher has to be waited for: only a stream has one.
    pub fn has_launcher(&self) -> (r: bool)
        ensures
            r == (*self is Stream),
    {
        match self {
            VfsSource::Stream => true,
            _ => false,
        }
    }
}

/// The outcome of stopping a file system: waiting for the launcher is done in
/// any case, but the error of the stop itself comes first.
pub fn stop_outcome(stop: Result<(), Error>, join: Result<(), Error>) -> (r: Result<(), Error>)
    ensures
        outcome(r) == match stop {
            Err(e) => Err(e@),
            Ok(()) => outcome(join),
        },
{
    match stop {
        Err(e) => Err(e),
        Ok(()) => join,
    }
}

/// Which end of a file system's stream is looked at: the one that is read from
/// comes first.
#[derive(Clone, Copy, Debug, PartialEq, Eq, Structural)]
pub enum StreamEnd {
    Input,
    Output,
}

/// Checks that an end of a file system's stream could be made a pipe.
pub fn check_stream_end(end: StreamEnd, is_pipe: bool) -> (r: Result<(), Error>)
    ensures
        outcome(r) == if is_pipe {
            Ok(())
        } else {
            Err(
                ErrorView::Type(
                    match end {
                        StreamEnd::Input => "Vfs: stream iterator is not a pipe channel"@,
                        StreamEnd::Output => "Vfs: stream sink is not a pipe channel"@,
                    },
                ),
            )
        },
{
    if is_pipe {
        return Ok(());
    }
    match end {
        StreamEnd::Input => Err(
            Error::Type("Vfs: stream iterator is not a pipe channel".to_owned()),
        ),
        StreamEnd::Output => Err(
            Error::Type("Vfs: stream sink is not a pipe channel".to_owned()),
        ),
    }
}

/// The error of a file system that could not be connected to: the launcher's,
/// if it failed too, since that is the cause.
pub fn connect_error(negotiation: Error, join: Result<(), Error>) -> (e: Error)
    ensures
        e@ == match join {
            Ok(()) => negotiation@,
            Err(launcher) => launcher@,
        },
{
    match join {
        Ok(()) => negotiation,
        Err(launcher) => launcher,
    }
}

/// Which of two path forms an elevated file system starts in.
#[derive(Clone, Copy, Debug, PartialEq, Eq, Structural)]
pub enum StartIn {
    Current,
    Given,
    Joined,
}

/// Where an elevated file system starts: in the directory given, joined to
/// the current one unless it is absolute.
pub fn start_in(given_is_absolute: Option<bool>) -> (r: StartIn)
    ensures
        r == match given_is_absolute {
            None => StartIn::Current,
            Some(true) => StartIn::Given,
            Some(false) => StartIn::Joined,
        },
{
    match given_is_absolute {
        None => StartIn::Current,
        Some(true) => StartIn::Given,
        Some(false) => StartIn::Joined,
    }
}

/// A variable's value as it was given: nothing, the inherited one, or a value
/// converted to text.
#[derive(Debug)]
pub enum EnvValue {
    Nil,
    Inherit,
    Text(Result<String, Error>),
}

/// Entries by key, the last one counting.
pub open spec fn env_map(entries: Seq<(String, Option<String>)>) -> Map<Seq<char>, Option<Seq<char>>>
    decreases entries.len(),
{
    if entries.len() == 0 {
        Map::empty()
    } else {
        env_map(entries.drop_last()).insert(entries.last().0@, text_option(entries.last().1))
    }
}

/// The value of a variable in the current environment: of several entries the
/// first one.
pub open spec fn current_value(env: Seq<(String, String)>, key: Seq<char>, from: int) -> Option<Seq<char>>
    decreases env.len() - from,
{
    if from < 0 || from >= env.len() {
        None
    } else if env[from].0@ == key {
        Some(env[from].1@)
    } else {
        current_value(env, key, from + 1)
    }
}

/// The overrides that the first `n` pairs make, or the first error.
pub open spec fn overrides_of(
    pairs: Seq<(Value, EnvValue)>,
    env: Seq<(String, String)>,
    n: nat,
) -> Result<Map<Seq<char>, Option<Seq<char>>>, ErrorView>
    decreases n,
{
    if n == 0 {
        Ok(Map::empty())
    } else {
        match overrides_of(pairs, env, (n - 1) as nat) {
            Err(e) => Err(e),
            Ok(before) => match override_key(pairs[n - 1].0) {
                None => Err(ErrorView::Type("env key: expected Str or Sym"@)),
                Some(key) => match pairs[n - 1].1 {
                    EnvValue::Nil => Ok(before.insert(key, None)),
                    EnvValue::Inherit => Ok(before.insert(key, current_value(env, key, 0))),
                    EnvValue::Text(Ok(s)) => Ok(before.insert(key, Some(s@))),
                    EnvValue::Text(Err(e)) => Err(e@),
                },
            },
        }
    }
}

/// The name of a variable: a string or a symbol.
pub open spec fn override_key(key: Value) -> Option<Seq<char>> {
    match key {
        Value::Str(s) => Some(s@),
        Value::Sym(s) => Some(s@),
        _ => None,
    }
}

proof fn lemma_overrides_error(pairs: Seq<(Value, EnvValue)>, env: Seq<(String, String)>, n: nat, m: nat)
    requires
        n <= m,
        overrides_of(pairs, env, n) is Err,
    ensures
        overrides_of(pairs, env, m) == overrides_of(pairs, env, n),
    decreases m,
{
    if n < m {
        lemma_overrides_error(pairs, env, n, (m - 1) as nat);
    }
}

/// The value of a variable in the current environment.
fn lookup(env: &Vec<(String, String)>, key: &str) -> (r: Option<String>)
    ensures
        text_option(r) == current_value(env@, key@, 0),
{
    let mut i: usize = 0;
    while i < env.len()
        invariant
            i <= env@.len(),
            current_value(env@, key@, 0) == current_value(env@, key@, i as int),
        decreases env@.len() - i,
    {
        let entry = &env[i];
        if str_eq(entry.0.as_str(), key) {
            return Some(entry.1.clone());
        }
        i = i + 1;
    }
    None
}

/// The overrides of the environment, by key; of several for one key the last
/// counts.
pub fn env_overrides(pairs: &Vec<(Value, EnvValue)>, env: &Vec<(String, String)>) -> (r: Result<
    Vec<(String, Option<String>)>,
    Error,
>)
    ensures
        match overrides_of(pairs@, env@, pairs@.len()) {
            Ok(map) => r is Ok && env_map(r->Ok_0@) == map,
            Err(e) => r is Err && r->Err_0@ == e,
        },
{
    let mut out: Vec<(String, Option<String>)> = Vec::new();
    let mut i: usize = 0;
    while i < pairs.len()
        invariant
            i <= pairs@.len(),
            overrides_of(pairs@, env@, i as nat) == Ok::<
                Map<Seq<char>, Option<Seq<char>>>,
                ErrorView,
            >(env_map(out@)),
        decreases pairs@.len() - i,
    {
        let ghost before = out@;
        let pair = &pairs[i];
        let key = match &pair.0 {
            Value::Str(s) => s.clone(),
            Value::Sym(s) => s.clone(),
            _ => {
                proof {
                    lemma_overrides_error(pairs@, env@, (i + 1) as nat, pairs@.len());
                }
                return Err(Error::Type("env key: expected Str or Sym".to_owned()));
            },
        };
        let value = match &pair.1 {
            EnvValue::Nil => None,
            EnvValue::Inherit => lookup(env, key.as_str()),
            EnvValue::Text(Ok(s)) => Some(s.clone()),
            EnvValue::Text(Err(e)) => {
                proof {
                    lemma_overrides_error(pairs@, env@, (i + 1) as nat, pairs@.len());
                }
                return Err(e.copy());
            },
        };
        let ghost entry = (key, value);
        out.push((key, value));
        assert(out@.drop_last() =~= before);
        i = i + 1;
    }
    Ok(out)
}

/// An environment given as an argument.
#[derive(Debug)]
pub enum EnvArg {
    Dict(Vec<(Value, EnvValue)>),
    Other,
}

/// How an elevated file system is to be started.
#[derive(Debug)]
pub struct AdminPlan {
    pub elevate: bool,
    pub start_in: StartIn,
    pub env: Vec<(String, Option<String>)>,
}

/// What the arguments of an elevated file system say is wrong, in the order in
/// which they are looked at. `cd` tells whether the directory that was given is
/// absolute, if it could be read.
pub open spec fn admin_problem(
    elevate: Option<Value>,
    cd: Option<Result<bool, Error>>,
    env: Option<EnvArg>,
    current: Seq<(String, String)>,
) -> Option<ErrorView> {
    match (elevate, cd, env) {
        (Some(v), _, _) if !(v is Bool) => Some(ErrorView::Type("elevate: expected bool"@)),
        (_, Some(Err(e)), _) => Some(e@),
        (_, _, Some(EnvArg::Other)) => Some(ErrorView::Type("env: expected Dict"@)),
        (_, _, Some(EnvArg::Dict(pairs))) => match overrides_of(pairs@, current, pairs@.len()) {
            Err(e) => Some(e),
            Ok(_) => None,
        },
        _ => None,
    }
}

/// How an elevated file system is to be started: elevated unless it is said
/// otherwise, in the directory given or the current one, and with the
/// environment changed as asked.
pub fn windows_admin(
    elevate: &Option<Value>,
    cd: &Option<Result<bool, Error>>,
    env: &Option<EnvArg>,
    current: &Vec<(String, String)>,
) -> (r: Result<AdminPlan, Error>)
    ensures
        match admin_problem(*elevate, *cd, *env, current@) {
            Some(e) => r is Err && r->Err_0@ == e,
            None => {
                &&& r is Ok
                &&& r->Ok_0.elevate == (*elevate != Some(Value::Bool(false)))
                &&& r->Ok_0.start_in == match *cd {
                    Some(Ok(true)) => StartIn::Given,
                    Some(_) => StartIn::Joined,
                    None => StartIn::Current,
                }
                &&& env_map(r->Ok_0.env@) == match *env {
                    Some(EnvArg::Dict(pairs)) => overrides_of(pairs@, current@, pairs@.len())->Ok_0,
                    _ => Map::empty(),
                }
            },
        },
{
    let elevate = match elevate {
        Some(v) => match bool_arg(v, "elevate") {
            Ok(b) => b,
            Err(e) => {
                proof {
                    reveal_strlit("elevate");
                    reveal_strlit(": expected bool");
                    reveal_strlit("elevate: expected bool");
                    assert("elevate"@ + ": expected bool"@ =~= "elevate: expected bool"@);
                }
                return Err(e);
            },
        },
        None => true,
    };
    let start_in = match cd {
        Some(Ok(absolute)) => start_in(Some(*absolute)),
        Some(Err(e)) => return Err(e.copy()),
        None => start_in(None),
    };
    let env = match env {
        None => Vec::new(),
        Some(EnvArg::Other) => return Err(Error::Type("env: expected Dict".to_owned())),
        Some(EnvArg::Dict(pairs)) => match env_overrides(pairs, current) {
            Ok(env) => env,
            Err(e) => return Err(e),
        },
    };
    Ok(AdminPlan { elevate, start_in, env })
}

/// What runs in place of the program that was started.
#[derive(Debug)]
pub enum ProgramOverride {
    Path(String),
    Module(String),
}

impl ProgramOverride {
    fn copy(&self) -> (r: ProgramOverride)
        ensures
            r@ == self@,
    {
        match self {
            ProgramOverride::Path(p) => ProgramOverride::Path(p.clone()),
            ProgramOverride::Module(m) => ProgramOverride::Module(m.clone()),
        }
    }
}

/// The mathematical content of a [`ProgramOverride`].
#[verifier::ext_equal]
pub enum ProgramView {
    Path(Seq<char>),
    Module(Seq<char>),
}

impl View for ProgramOverride {
    type V = ProgramView;

    open spec fn view(&self) -> ProgramView {
        match self {
            ProgramOverride::Path(p) => ProgramView::Path(p@),
            ProgramOverride::Module(m) => ProgramView::Module(m@),
        }
    }
}

/// A program given as a value: a module's name or a path.
pub enum ProgramValue {
    Str(String),
    Path(String),
    Other,
}

/// What a value given for a program stands for.
pub fn program_override(value: &ProgramValue) -> (r: Result<ProgramOverride, Error>)
    ensures
        viewed(r) == match *value {
            ProgramValue::Str(name) => Ok(ProgramView::Module(name@)),
            ProgramValue::Path(path) => Ok(ProgramView::Path(path@)),
            ProgramValue::Other => Err(ErrorView::Type("program: expected fs.Path or Str"@)),
        },
{
    match value {
        ProgramValue::Str(name) => Ok(ProgramOverride::Module(name.clone())),
        ProgramValue::Path(path) => Ok(ProgramOverride::Path(path.clone())),
        ProgramValue::Other => Err(Error::Type("program: expected fs.Path or Str".to_owned())),
    }
}

/// What a strand overrides of how the program was started.
#[derive(Debug)]
pub struct Invocation {
    pub args: Option<Vec<String>>,
    pub program: Option<ProgramOverride>,
}

/// Overrides on top of others: what is given replaces, the rest stays. The
/// overrides before are handed out to be put back.
pub fn override_invocation(
    invocation: &mut Invocation,
    args: Option<Vec<String>>,
    program: Option<ProgramOverride>,
) -> (previous: Invocation)
    ensures
        args is Some ==> final(invocation).args == args,
        args is None ==> match old(invocation).args {
            Some(a) => final(invocation).args is Some && texts(final(invocation).args->0@) == texts(a@),
            None => final(invocation).args is None,
        },
        program is Some ==> final(invocation).program == program,
        program is None ==> match old(invocation).program {
            Some(p) => final(invocation).program is Some && final(invocation).program->0@ == p@,
            None => final(invocation).program is None,
        },
        previous == *old(invocation),
{
    let mut next = Invocation { args, program };
    if next.args.is_none() {
        next.args = match &invocation.args {
            Some(args) => Some(copy_strings(args)),
            None => None,
        };
    }
    if next.program.is_none() {
        next.program = match &invocation.program {
            Some(program) => Some(program.copy()),
            None => None,
        };
    }
    std::mem::swap(&mut next, invocation);
    next
}

/// A copy of some strings.
pub(crate) fn copy_strings(v: &Vec<String>) -> (r: Vec<String>)
    ensures
        texts(r@) == texts(v@),
{
    let mut r: Vec<String> = Vec::new();
    let mut i: usize = 0;
    while i < v.len()
        invariant
            i <= v@.len(),
            r@.len() == i,
            forall|j: int| 0 <= j < i ==> (#[trigger] r@[j])@ == v@[j]@,
        decreases v@.len() - i,
    {
        r.push(v[i].clone());
        i = i + 1;
    }
    assert(texts(r@) =~= texts(v@));
    r
}

/// The arguments a program sees: the overriding ones, or those it was started
/// with.
pub fn visible_args(invocation: &Invocation, started: &Vec<String>) -> (r: Vec<String>)
    ensures
        texts(r@) == match invocation.args {
            Some(args) => texts(args@),
            None => texts(started@),
        },
{
    match &invocation.args {
        Some(args) => copy_strings(args),
        None => copy_strings(started),
    }
}

/// The program as it sees itself: the overriding one, or the one that was
/// started, if any.
pub fn visible_program(invocation: &Invocation, started: &Option<ProgramOverride>) -> (r: Option<
    ProgramOverride,
>)
    ensures
        match invocation.program {
            Some(p) => r is Some && r->0@ == p@,
            None => match *started {
                Some(p) => r is Some && r->0@ == p@,
                None => r is None,
            },
        },
{
    match &invocation.program {
        Some(p) => Some(p.copy()),
        None => match started {
            Some(p) => Some(p.copy()),
            None => None,
        },
    }
}

/// What a call of `cd` does: report the directory, change to the one that its
/// first argument names, or be there only for the call of a function. The name
/// starts from the current directory.
#[derive(Debug)]
pub enum CdPlan {
    Report,
    Change(String),
    During(String),
}

/// The content of a [`CdPlan`].
pub enum CdPlanView {
    Report,
    Change(Seq<char>),
    During(Seq<char>),
}

impl View for CdPlan {
    type V = CdPlanView;

    open spec fn view(&self) -> CdPlanView {
        match self {
            CdPlan::Report => CdPlanView::Report,
            CdPlan::Change(path) => CdPlanView::Change(path@),
            CdPlan::During(path) => CdPlanView::During(path@),
        }
    }
}

/// What a call of `cd` does. `path` is what came of reading the first argument
/// as a path: if that failed, the argument after it is not looked at.
pub open spec fn cd_result(args: Seq<CallArg>, path: Result<String, Error>) -> Result<
    CdPlanView,
    ErrorView,
> {
    if args.len() == 0 {
        Ok(CdPlanView::Report)
    } else {
        match (args[0], path) {
            (CallArg::Key(key), _) => Err(ErrorView::UnexpectedKey(key@)),
            (CallArg::Pos(_), Err(e)) => Err(e@),
            (CallArg::Pos(_), Ok(path)) => if args.len() == 1 {
                Ok(CdPlanView::Change(path@))
            } else {
                match args[1] {
                    CallArg::Key(key) => Err(ErrorView::UnexpectedKey(key@)),
                    CallArg::Pos(_) => Ok(CdPlanView::During(path@)),
                }
            },
        }
    }
}

/// What a call of `cd` does, once its first argument was read as a path.
pub fn cd_plan(args: &Vec<CallArg>, path: Result<String, Error>) -> (r: Result<CdPlan, Error>)
    ensures
        viewed(r) == cd_result(args@, path),
{
    if args.len() == 0 {
        return Ok(CdPlan::Report);
    }
    if let CallArg::Key(key) = &args[0] {
        return Err(Error::UnexpectedKey(key.clone()));
    }
    let path = match path {
        Ok(path) => path,
        Err(e) => return Err(e),
    };
    if args.len() == 1 {
        return Ok(CdPlan::Change(path));
    }
    if let CallArg::Key(key) = &args[1] {
        return Err(Error::UnexpectedKey(key.clone()));
    }
    Ok(CdPlan::During(path))
}

/// Reads a flag.
pub fn bool_arg(value: &Value, name: &str) -> (r: Result<bool, Error>)
    ensures
        outcome(r) == match *value {
            Value::Bool(b) => Ok(b),
            _ => Err(ErrorView::Type(name@ + ": expected bool"@)),
        },
{
    match value {
        Value::Bool(b) => Ok(*b),
        _ => Err(Error::Type(name.to_owned().concat(": expected bool"))),
    }
}

/// Reads a string.
pub fn string_arg(value: &Value, name: &str) -> (r: Result<String, Error>)
    ensures
        viewed(r) == match *value {
            Value::Str(s) => Ok(s@),
            _ => Err(ErrorView::Type(name@ + ": expected str"@)),
        },
{
    match value {
        Value::Str(s) => Ok(s.clone()),
        _ => Err(Error::Type(name.to_owned().concat(": expected str"))),
    }
}

/// Reads bytes, in lower-case terms.
pub fn bytes_arg(value: &Value, name: &str) -> (r: Result<Vec<u8>, Error>)
    ensures
        viewed(r) == match *value {
            Value::Str(s) => Ok(encode_utf8(s@)),
            Value::Bin(b) => Ok(b@),
            _ => Err(ErrorView::Type(name@ + ": expected `str` or `bin`"@)),
        },
{
    match value {
        Value::Str(s) => Ok(bytes_of(s.as_str())),
        Value::Bin(b) => Ok(copy_bytes(b)),
        _ => Err(Error::Type(name.to_owned().concat(": expected `str` or `bin`"))),
    }
}

/// Reads bytes.
pub fn bytes_from_value(value: &Value, name: &str) -> (r: Result<Vec<u8>, Error>)
    ensures
        viewed(r) == match *value {
            Value::Str(s) => Ok(encode_utf8(s@)),
            Value::Bin(b) => Ok(b@),
            _ => Err(ErrorView::Type(name@ + ": expected Str or Bin"@)),
        },
{
    match value {
        Value::Str(s) => Ok(bytes_of(s.as_str())),
        Value::Bin(b) => Ok(copy_bytes(b)),
        _ => Err(Error::Type(name.to_owned().concat(": expected Str or Bin"))),
    }
}

} // verus!

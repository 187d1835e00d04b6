//! Connections: who may use one, when it is closed, how often a busy database
//! is tried again, and how transactions run.

use vstd::prelude::*;
use crate::error::{outcome, viewed, Error, ErrorView};
use crate::sqlite::open::RetryOptions;
use crate::value::Value;

verus! {

broadcast use vstd::string::group_string_axioms;

/// A value that its holder vouches may move to another thread.
#[derive(Debug)]
pub struct AssertSend<T>(pub T);

impl<T> AssertSend<T> {
    /// The value itself.
    pub fn into_inner(self) -> (value: T)
        ensures
            value == self.0,
    {
        self.0
    }
}

/// A connection's state. The epoch counts the beginnings and ends of
/// transactions.
#[derive(Debug)]
pub struct Connection {
    open: bool,
    in_use: bool,
    in_transaction: bool,
    pending_close: bool,
    epoch: u64,
    options: RetryOptions,
}

/// The state of a [`Connection`].
pub struct ConnectionView {
    pub open: bool,
    pub in_use: bool,
    pub in_transaction: bool,
    pub pending_close: bool,
    pub epoch: u64,
    pub options: RetryOptions,
}

impl View for Connection {
    type V = ConnectionView;

    closed spec fn view(&self) -> ConnectionView {
        ConnectionView {
            open: self.open,
            in_use: self.in_use,
            in_transaction: self.in_transaction,
            pending_close: self.pending_close,
            epoch: self.epoch,
            options: self.options,
        }
    }
}

/// What the beginning of some work makes of a connection, and whether the
/// connection is to be closed after the work.
pub open spec fn work_begun(c: ConnectionView) -> (ConnectionView, Result<bool, ErrorView>) {
    if c.in_use {
        (c, Err(ErrorView::Concurrency("connection already in use"@)))
    } else if !c.open {
        (c, Err(ErrorView::State("connection closed"@)))
    } else {
        (ConnectionView { in_use: true, ..c }, Ok(c.pending_close))
    }
}

/// What the end of some work makes of a connection.
pub open spec fn work_ended(c: ConnectionView, closed: bool) -> ConnectionView {
    ConnectionView { in_use: false, open: c.open && !closed, ..c }
}

/// The statement that an argument gives.
pub fn sql_arg(value: &Value) -> (r: Result<String, Error>)
    ensures
        viewed(r) == match *value {
            Value::Str(sql) => Ok(sql@),
            _ => Err(ErrorView::Type("expected string"@)),
        },
{
    match value {
        Value::Str(sql) => Ok(sql.clone()),
        _ => Err(Error::Type("expected string".to_owned())),
    }
}

impl Connection {
    /// A connection to a database that was just opened.
    pub fn new(options: RetryOptions) -> (c: Connection)
        ensures
            c@ == (ConnectionView {
                open: true,
                in_use: false,
                in_transaction: false,
                pending_close: false,
                epoch: 0,
                options,
            }),
    {
        Connection {
            open: true,
            in_use: false,
            in_transaction: false,
            pending_close: false,
            epoch: 0,
            options,
        }
    }

    pub fn is_open(&self) -> (r: bool)
        ensures
            r == self@.open,
    {
        self.open
    }

    pub fn in_transaction(&self) -> (r: bool)
        ensures
            r == self@.in_transaction,
    {
        self.in_transaction
    }

    pub fn epoch(&self) -> (r: u64)
        ensures
            r == self@.epoch,
    {
        self.epoch
    }

    /// Begins some work on the connection, which no other work may join. Tells
    /// whether the connection is to be closed after the work.
    pub fn begin_work(&mut self) -> (r: Result<bool, Error>)
        ensures
            (final(self)@, outcome(r)) == work_begun(old(self)@),
    {
        if self.in_use {
            return Err(Error::Concurrency("connection already in use".to_owned()));
        }
        if !self.open {
            return Err(Error::State("connection closed".to_owned()));
        }
        self.in_use = true;
        Ok(self.pending_close)
    }

    /// Ends the work that was begun; the connection may have been closed
    /// after it.
    pub fn end_work(&mut self, closed: bool)
        ensures
            final(self)@ == work_ended(old(self)@, closed),
    {
        if closed {
            self.open = false;
        }
        self.in_use = false;
    }

    /// Asks for the connection to be closed after the next work.
    pub fn request_close(&mut self)
        ensures
            final(self)@ == (ConnectionView { pending_close: true, ..old(self)@ }),
    {
        self.pending_close = true;
    }

    /// Starts a new epoch.
    pub fn bump_epoch(&mut self) -> (epoch: u64)
        requires
            old(self)@.epoch < u64::MAX,
        ensures
            epoch == old(self)@.epoch + 1,
            final(self)@ == (ConnectionView { epoch, ..old(self)@ }),
    {
        self.epoch = self.epoch + 1;
        self.epoch
    }

    /// The patience with which a busy database is tried again, if at all: not
    /// inside a transaction.
    pub fn backoff(&self) -> (b: Option<Backoff>)
        ensures
            b == if self@.in_transaction {
                None
            } else {
                Some(first_backoff(self@.options))
            },
    {
        if self.in_transaction {
            None
        } else {
            Some(
                Backoff {
                    retries: self.options.retries,
                    wait: self.options.min_wait,
                    max_wait: self.options.max_wait,
                },
            )
        }
    }
}

/// Only one piece of work runs on a connection at a time, and once a
/// connection was asked to close, the next work is its last.
pub proof fn work_is_exclusive(c: ConnectionView)
    ensures
        work_begun(c).1 is Ok ==> {
            &&& !c.in_use && c.open
            &&& work_begun(work_begun(c).0).1 == Err::<bool, ErrorView>(
                ErrorView::Concurrency("connection already in use"@),
            )
            &&& work_ended(work_begun(c).0, false) == c
            &&& c.pending_close ==> work_begun(
                work_ended(work_begun(c).0, work_begun(c).1->Ok_0),
            ).1 == Err::<bool, ErrorView>(ErrorView::State("connection closed"@))
        },
{
}

/// How a busy database is tried again: how often still, and how long to wait
/// before.
#[derive(Clone, Copy, Debug, PartialEq, Eq, Structural)]
pub struct Backoff {
    pub retries: u32,
    pub wait: u32,
    pub max_wait: u32,
}

/// The patience at first.
pub open spec fn first_backoff(options: RetryOptions) -> Backoff {
    Backoff { retries: options.retries, wait: options.min_wait, max_wait: options.max_wait }
}

/// The smaller of two numbers.
pub open spec fn smaller(a: int, b: int) -> int {
    if a <= b {
        a
    } else {
        b
    }
}

/// The time to wait: the current wait and up to half of it more, as chance
/// has it.
pub open spec fn pause(wait: u32, random: u32) -> int {
    wait + random as int % (wait as int / 2 + 1)
}

/// The patience after one more try.
pub open spec fn next_backoff(b: Backoff) -> Backoff {
    Backoff {
        retries: (b.retries - 1) as u32,
        wait: smaller(b.max_wait as int, b.wait * 2) as u32,
        max_wait: b.max_wait,
    }
}

impl Backoff {
    /// Decides after a failure whether to try again, and how long to wait
    /// before.
    pub fn retry(&mut self, busy: bool, random: u32) -> (r: Option<u32>)
        requires
            busy && old(self).retries > 0 ==> old(self).wait <= u32::MAX / 2,
        ensures
            busy && old(self).retries > 0 ==> r is Some && r->0 == pause(old(self).wait, random)
                && *final(self) == next_backoff(*old(self)),
            !(busy && old(self).retries > 0) ==> r is None && *final(self) == *old(self),
    {
        if self.retries == 0 || !busy {
            return None;
        }
        let jitter: u32 = random % (self.wait / 2 + 1);
        let pause: u32 = self.wait + jitter;
        let double: u32 = self.wait * 2;
        self.wait = if self.max_wait <= double {
            self.max_wait
        } else {
            double
        };
        self.retries = self.retries - 1;
        Some(pause)
    }
}

/// The patience after `n` more tries.
pub open spec fn backoff_after(b: Backoff, n: nat) -> Backoff
    decreases n,
{
    if n == 0 {
        b
    } else {
        next_backoff(backoff_after(b, (n - 1) as nat))
    }
}

/// Two to the power `n`.
pub open spec fn doubled(n: nat) -> nat
    decreases n,
{
    if n == 0 {
        1
    } else {
        2 * doubled((n - 1) as nat)
    }
}

/// The wait doubles with each try up to the longest wait, and the tries are
/// used up one by one.
pub proof fn waits_double(b: Backoff, n: nat)
    requires
        n <= b.retries,
        b.wait <= b.max_wait <= u32::MAX / 2,
    ensures
        backoff_after(b, n).retries == b.retries - n,
        backoff_after(b, n).wait == smaller(b.max_wait as int, b.wait * doubled(n)),
        backoff_after(b, n).max_wait == b.max_wait,
        backoff_after(b, n).wait <= u32::MAX / 2,
    decreases n,
{
    if n > 0 {
        let m = (n - 1) as nat;
        waits_double(b, m);
        let w = b.wait as int;
        let d = doubled(m) as int;
        assert(w * (2 * d) == 2 * (w * d)) by (nonlinear_arith);
        assert(w * d >= 0) by (nonlinear_arith)
            requires
                w >= 0,
                d >= 0,
        ;
        assert(doubled(n) == 2 * d);
    } else {
        assert(doubled(n) == 1);
        assert(b.wait * doubled(n) == b.wait);
    }
}

/// Where the running of a transaction stands.
#[derive(Clone, Copy, Debug, PartialEq, Eq, Structural)]
pub enum Phase {
    /// Not begun, or about to be tried again.
    Idle,
    /// Waiting for `BEGIN`.
    Beginning,
    /// Waiting for the block.
    Running,
    /// Waiting for the statement that ends the transaction.
    Ending { failed: bool, busy: bool },
    /// Waiting before the next try.
    Pausing,
    /// Over.
    Over,
}

/// A transaction being run.
#[derive(Clone, Copy, Debug, PartialEq, Eq, Structural)]
pub struct TransactionRun {
    pub phase: Phase,
    pub backoff: Backoff,
}

/// What happened since the last step.
#[derive(Clone, Copy, Debug, PartialEq, Eq, Structural)]
pub enum TransactionEvent {
    /// The run starts.
    Start,
    /// `BEGIN` was executed.
    Began { ok: bool },
    /// The block returned; its error may be that the database is busy.
    Returned { ok: bool, busy: bool },
    /// The statement that ends the transaction was executed. Random bits come
    /// with it.
    Ended { random: u32 },
    /// The pause is over.
    Woke,
}

/// What is to be done next.
#[derive(Clone, Copy, Debug, PartialEq, Eq, Structural)]
pub enum TransactionAction {
    /// Fail: a transaction is active already.
    Refuse,
    ExecBegin,
    ExecCommit,
    ExecRollback,
    /// Call the block with a handle of this epoch.
    CallBlock(u64),
    /// Wait this many milliseconds.
    Sleep(u32),
    /// Return what `BEGIN` or the block returned last.
    Return,
    /// Nothing: the event does not fit.
    Ignore,
}

/// The start of a try.
pub open spec fn try_begun(c: ConnectionView, run: TransactionRun) -> (
    ConnectionView,
    TransactionRun,
    TransactionAction,
) {
    if c.in_transaction {
        (c, TransactionRun { phase: Phase::Over, ..run }, TransactionAction::Refuse)
    } else {
        (c, TransactionRun { phase: Phase::Beginning, ..run }, TransactionAction::ExecBegin)
    }
}

/// One step of running a transaction.
pub open spec fn transaction_step(
    c: ConnectionView,
    run: TransactionRun,
    event: TransactionEvent,
) -> (ConnectionView, TransactionRun, TransactionAction) {
    match (run.phase, event) {
        (Phase::Idle, TransactionEvent::Start) => try_begun(c, run),
        (Phase::Pausing, TransactionEvent::Woke) => try_begun(c, run),
        (Phase::Beginning, TransactionEvent::Began { ok }) => if ok {
            let next = ConnectionView {
                in_transaction: true,
                epoch: (c.epoch + 1) as u64,
                ..c
            };
            (
                next,
                TransactionRun { phase: Phase::Running, ..run },
                TransactionAction::CallBlock(next.epoch),
            )
        } else {
            (c, TransactionRun { phase: Phase::Over, ..run }, TransactionAction::Return)
        },
        (Phase::Running, TransactionEvent::Returned { ok, busy }) => if c.in_transaction {
            (
                c,
                TransactionRun { phase: Phase::Ending { failed: !ok, busy }, ..run },
                if ok {
                    TransactionAction::ExecCommit
                } else {
                    TransactionAction::ExecRollback
                },
            )
        } else {
            (c, TransactionRun { phase: Phase::Over, ..run }, TransactionAction::Return)
        },
        (Phase::Ending { failed, busy }, TransactionEvent::Ended { random }) => {
            let next = ConnectionView {
                in_transaction: false,
                epoch: (c.epoch + 1) as u64,
                ..c
            };
            if failed && busy && run.backoff.retries > 0 {
                (
                    next,
                    TransactionRun { phase: Phase::Pausing, backoff: next_backoff(run.backoff) },
                    TransactionAction::Sleep(pause(run.backoff.wait, random) as u32),
                )
            } else {
                (next, TransactionRun { phase: Phase::Over, ..run }, TransactionAction::Return)
            }
        },
        _ => (c, run, TransactionAction::Ignore),
    }
}

/// Whether the counts that a step adds to can take it: the epoch where one
/// begins, and the wait where it is doubled.
pub open spec fn step_fits(c: ConnectionView, run: TransactionRun, event: TransactionEvent) -> bool {
    match (run.phase, event) {
        (Phase::Beginning, TransactionEvent::Began { ok }) => ok ==> c.epoch < u64::MAX,
        (Phase::Ending { failed, busy }, TransactionEvent::Ended { .. }) => c.epoch < u64::MAX && (
        failed && busy && run.backoff.retries > 0 ==> run.backoff.wait <= u32::MAX / 2),
        _ => true,
    }
}

impl TransactionRun {
    /// A transaction that has not begun.
    pub fn new(connection: &Connection) -> (run: TransactionRun)
        ensures
            run == (TransactionRun {
                phase: Phase::Idle,
                backoff: first_backoff(connection@.options),
            }),
    {
        TransactionRun {
            phase: Phase::Idle,
            backoff: Backoff {
                retries: connection.options.retries,
                wait: connection.options.min_wait,
                max_wait: connection.options.max_wait,
            },
        }
    }

    /// Starts a try, unless a transaction is active already.
    fn begin_try(&mut self, connection: &Connection) -> (action: TransactionAction)
        ensures
            (connection@, *final(self), action) == try_begun(connection@, *old(self)),
    {
        if connection.in_transaction {
            self.phase = Phase::Over;
            TransactionAction::Refuse
        } else {
            self.phase = Phase::Beginning;
            TransactionAction::ExecBegin
        }
    }

    /// Takes what happened, and says what is to be done next.
    pub fn step(&mut self, connection: &mut Connection, event: TransactionEvent) -> (action:
        TransactionAction)
        requires
            step_fits(old(connection)@, *old(self), event),
        ensures
            (final(connection)@, *final(self), action) == transaction_step(
                old(connection)@,
                *old(self),
                event,
            ),
    {
        match (self.phase, event) {
            (Phase::Idle, TransactionEvent::Start) => self.begin_try(connection),
            (Phase::Pausing, TransactionEvent::Woke) => self.begin_try(connection),
            (Phase::Beginning, TransactionEvent::Began { ok }) => {
                if ok {
                    connection.in_transaction = true;
                    let epoch: u64 = connection.bump_epoch();
                    self.phase = Phase::Running;
                    TransactionAction::CallBlock(epoch)
                } else {
                    self.phase = Phase::Over;
                    TransactionAction::Return
                }
            },
            (Phase::Running, TransactionEvent::Returned { ok, busy }) => {
                if connection.in_transaction {
                    self.phase = Phase::Ending { failed: !ok, busy };
                    if ok {
                        TransactionAction::ExecCommit
                    } else {
                        TransactionAction::ExecRollback
                    }
                } else {
                    self.phase = Phase::Over;
                    TransactionAction::Return
                }
            },
            (Phase::Ending { failed, busy }, TransactionEvent::Ended { random }) => {
                let _ = connection.bump_epoch();
                connection.in_transaction = false;
                match self.backoff.retry(failed && busy, random) {
                    Some(pause) => {
                        self.phase = Phase::Pausing;
                        TransactionAction::Sleep(pause)
                    },
                    None => {
                        self.phase = Phase::Over;
                        TransactionAction::Return
                    },
                }
            },
            _ => TransactionAction::Ignore,
        }
    }
}

/// The statement that a transaction's handle asks for.
#[derive(Clone, Copy, Debug, PartialEq, Eq, Structural)]
pub enum Close {
    Commit,
    Rollback,
}

/// The words of that statement.
pub open spec fn close_words(close: Close) -> Seq<char> {
    match close {
        Close::Commit => "COMMIT"@,
        Close::Rollback => "ROLLBACK"@,
    }
}

/// What a transaction's handle of the epoch `epoch` makes of the connection
/// when it is asked to end the transaction.
pub open spec fn handle_closed(c: ConnectionView, epoch: u64) -> (
    ConnectionView,
    Result<(), ErrorView>,
) {
    if c.epoch != epoch {
        (c, Err(ErrorView::Concurrency("stale transaction"@)))
    } else {
        (
            ConnectionView { in_transaction: false, epoch: (c.epoch + 1) as u64, ..c },
            Ok(()),
        )
    }
}

/// A handle on a transaction.
#[derive(Clone, Copy, Debug, PartialEq, Eq, Structural)]
pub struct Transaction {
    pub epoch: u64,
}

impl Transaction {
    /// Ends the transaction early. Gives the statement that is to be executed.
    pub fn close(&self, connection: &mut Connection, close: Close) -> (r: Result<
        &'static str,
        Error,
    >)
        requires
            old(connection)@.epoch == self.epoch ==> self.epoch < u64::MAX,
        ensures
            final(connection)@ == handle_closed(old(connection)@, self.epoch).0,
            match handle_closed(old(connection)@, self.epoch).1 {
                Ok(()) => r is Ok && r->Ok_0@ == close_words(close),
                Err(e) => r is Err && r->Err_0@ == e,
            },
    {
        if connection.epoch != self.epoch {
            return Err(Error::Concurrency("stale transaction".to_owned()));
        }
        connection.in_transaction = false;
        let _ = connection.bump_epoch();
        match close {
            Close::Commit => Ok("COMMIT"),
            Close::Rollback => Ok("ROLLBACK"),
        }
    }
}

/// A handle ends its transaction once: asked again, it is stale.
pub proof fn handles_end_once(c: ConnectionView, epoch: u64)
    requires
        c.epoch < u64::MAX,
    ensures
        handle_closed(handle_closed(c, epoch).0, epoch).1 is Err,
        handle_closed(c, epoch).1 is Ok ==> !handle_closed(c, epoch).0.in_transaction,
{
}

/// Once the run ended the transaction, the handle that the block got is stale.
pub proof fn handles_do_not_outlive_the_run(
    c: ConnectionView,
    run: TransactionRun,
    ok: bool,
    busy: bool,
    random: u32,
)
    requires
        c.epoch < u64::MAX,
        run.phase is Running,
        c.in_transaction,
    ensures
        ({
            let returned = TransactionEvent::Returned { ok, busy };
            let (c1, run1, action) = transaction_step(c, run, returned);
            let (c2, run2, _) = transaction_step(c1, run1, TransactionEvent::Ended { random });
            &&& action == if ok {
                TransactionAction::ExecCommit
            } else {
                TransactionAction::ExecRollback
            }
            &&& !c2.in_transaction
            &&& handle_closed(c2, c.epoch).1 is Err
            &&& run2.phase is Over || run2.phase is Pausing
        }),
{
}

/// What holds of a connection while a transaction is being run on it.
pub open spec fn run_fits(c: ConnectionView, run: TransactionRun) -> bool {
    match run.phase {
        Phase::Running => true,
        Phase::Ending { .. } => c.in_transaction,
        _ => !c.in_transaction,
    }
}

/// A run that starts outside a transaction leaves none open: whatever happens
/// in its steps, when it is over, no transaction is active.
pub proof fn runs_leave_no_transaction(
    c: ConnectionView,
    run: TransactionRun,
    event: TransactionEvent,
)
    requires
        run_fits(c, run),
        c.epoch < u64::MAX,
    ensures
        ({
            let (c2, run2, action) = transaction_step(c, run, event);
            &&& run_fits(c2, run2)
            &&& !(action is Refuse)
            &&& run2.phase is Over ==> !c2.in_transaction
            &&& run2.backoff.retries <= run.backoff.retries
            &&& action is Sleep ==> run2.backoff.retries < run.backoff.retries
        }),
{
}

} // verus!

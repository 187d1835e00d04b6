//! How transactions run, from the first statement to the last.

use vstd::prelude::*;
use vstd::utf8::encode_utf8;
use crate::error::ErrorView;
use crate::shell::paths::{path_text, PathArg};
use crate::sqlite::connection::{
    handle_closed, pause, transaction_step, work_begun, work_ended, ConnectionView,
    TransactionAction, TransactionEvent, TransactionRun,
};
use crate::sqlite::open::{first_zero_is_first, open_result, retry_result, OpenArgs, RetryOptions};
use crate::value::Value;

verus! {

broadcast use vstd::string::group_string_axioms;

/// One try of a transaction whose block returns on its own: the connection and
/// the run after it, and what was done, step by step.
pub open spec fn tried(
    c: ConnectionView,
    run: TransactionRun,
    ok: bool,
    busy: bool,
    random: u32,
) -> (ConnectionView, TransactionRun, Seq<TransactionAction>) {
    let start = if run.phase is Idle {
        TransactionEvent::Start
    } else {
        TransactionEvent::Woke
    };
    let (c1, run1, a1) = transaction_step(c, run, start);
    let (c2, run2, a2) = transaction_step(c1, run1, TransactionEvent::Began { ok: true });
    let (c3, run3, a3) = transaction_step(c2, run2, TransactionEvent::Returned { ok, busy });
    let (c4, run4, a4) = transaction_step(c3, run3, TransactionEvent::Ended { random });
    (c4, run4, seq![a1, a2, a3, a4])
}

/// Whether a run is about to try.
pub open spec fn ready(c: ConnectionView, run: TransactionRun) -> bool {
    &&& run.phase is Idle || run.phase is Pausing
    &&& !c.in_transaction
    &&& c.epoch + 2 <= u64::MAX
}

/// Whether only the epoch of a connection went on, by `n`.
pub open spec fn went_on(c: ConnectionView, after: ConnectionView, n: int) -> bool {
    &&& after.epoch == c.epoch + n
    &&& after.in_transaction == c.in_transaction
    &&& after.open == c.open
    &&& after.in_use == c.in_use
    &&& after.pending_close == c.pending_close
    &&& after.options == c.options
}

/// A block that returns is run once, between `BEGIN` and `COMMIT`, and with a
/// handle of the epoch that began with it.
pub proof fn blocks_that_return_are_committed(
    c: ConnectionView,
    run: TransactionRun,
    busy: bool,
    random: u32,
)
    requires
        ready(c, run),
    ensures
        ({
            let (after, over, done) = tried(c, run, true, busy, random);
            &&& done == seq![
                TransactionAction::ExecBegin,
                TransactionAction::CallBlock((c.epoch + 1) as u64),
                TransactionAction::ExecCommit,
                TransactionAction::Return,
            ]
            &&& over.phase is Over
            &&& over.backoff == run.backoff
            &&& went_on(c, after, 2)
        }),
{
}

/// A block that fails is rolled back. If it failed because the database was
/// busy, and it may be tried again, the run waits for the current wait and at
/// most half of it more; the next wait is twice as long, up to the longest.
/// Otherwise the run is over.
pub proof fn blocks_that_fail_are_rolled_back(
    c: ConnectionView,
    run: TransactionRun,
    busy: bool,
    random: u32,
)
    requires
        ready(c, run),
        run.backoff.wait <= run.backoff.max_wait <= u32::MAX / 2,
    ensures
        ({
            let (after, next, done) = tried(c, run, false, busy, random);
            let again = busy && run.backoff.retries > 0;
            let wait = run.backoff.wait as int;
            &&& done.len() == 4
            &&& done[0] == TransactionAction::ExecBegin
            &&& done[1] == TransactionAction::CallBlock((c.epoch + 1) as u64)
            &&& done[2] == TransactionAction::ExecRollback
            &&& again ==> {
                &&& done[3] matches TransactionAction::Sleep(p) && wait <= p <= wait + wait / 2
                &&& next.phase is Pausing
                &&& next.backoff.retries == run.backoff.retries - 1
                &&& next.backoff.max_wait == run.backoff.max_wait
                &&& next.backoff.wait <= next.backoff.max_wait
                &&& next.backoff.wait == 2 * wait || next.backoff.wait == run.backoff.max_wait
                    && run.backoff.max_wait <= 2 * wait
            }
            &&& !again ==> {
                &&& done[3] == TransactionAction::Return
                &&& next.phase is Over
            }
            &&& went_on(c, after, 2)
        }),
{
    lemma_pause(run.backoff.wait, random);
}

proof fn lemma_pause(wait: u32, random: u32)
    ensures
        wait <= pause(wait, random) <= wait + wait / 2,
{
    let m = wait as int / 2 + 1;
    assert(0 <= random as int % m < m) by (nonlinear_arith)
        requires
            m > 0,
    ;
}

/// Every wait between the current one and half of it more can come up.
pub proof fn waits_are_spread(wait: u32, p: int)
    requires
        wait <= p <= wait + wait / 2,
    ensures
        pause(wait, (p - wait) as u32) == p,
{
    let m = wait as int / 2 + 1;
    let r = p - wait;
    assert(r % m == r) by (nonlinear_arith)
        requires
            0 <= r < m,
    ;
}

/// What `n` tries that find the database busy leave.
pub open spec fn tried_busy(
    c: ConnectionView,
    run: TransactionRun,
    randoms: Seq<u32>,
    n: nat,
) -> (ConnectionView, TransactionRun)
    decreases n,
{
    if n == 0 {
        (c, run)
    } else {
        let (c1, run1) = tried_busy(c, run, randoms, (n - 1) as nat);
        let (c2, run2, _) = tried(c1, run1, false, true, randoms[n - 1]);
        (c2, run2)
    }
}

/// A database that stays busy is tried as often again as the options say, and
/// not more often.
pub proof fn busy_databases_are_tried_again(
    c: ConnectionView,
    run: TransactionRun,
    randoms: Seq<u32>,
    n: nat,
)
    requires
        run.phase is Idle,
        !c.in_transaction,
        n <= run.backoff.retries + 1,
        c.epoch + 2 * (run.backoff.retries + 1) <= u64::MAX,
        run.backoff.wait <= run.backoff.max_wait <= u32::MAX / 2,
    ensures
        ({
            let (after, next) = tried_busy(c, run, randoms, n);
            &&& 0 < n <= run.backoff.retries ==> next.phase is Pausing
            &&& n == run.backoff.retries + 1 ==> next.phase is Over
            &&& n <= run.backoff.retries ==> next.backoff.retries == run.backoff.retries - n
            &&& n <= run.backoff.retries ==> next.backoff.wait <= next.backoff.max_wait
                && next.backoff.max_wait == run.backoff.max_wait
            &&& went_on(c, after, 2 * n as int)
        }),
    decreases n,
{
    if n > 0 {
        let m = (n - 1) as nat;
        busy_databases_are_tried_again(c, run, randoms, m);
        let (c1, run1) = tried_busy(c, run, randoms, m);
        blocks_that_fail_are_rolled_back(c1, run1, true, randoms[n - 1]);
    }
}

/// A transaction inside another is refused without a statement, and one whose
/// `BEGIN` fails is over without a block.
pub proof fn transactions_need_a_beginning(c: ConnectionView, run: TransactionRun)
    requires
        run.phase is Idle,
    ensures
        c.in_transaction ==> ({
            let (after, over, action) = transaction_step(c, run, TransactionEvent::Start);
            after == c && over.phase is Over && action == TransactionAction::Refuse
        }),
        !c.in_transaction ==> ({
            let (c1, run1, begin) = transaction_step(c, run, TransactionEvent::Start);
            let (after, over, action) = transaction_step(
                c1,
                run1,
                TransactionEvent::Began { ok: false },
            );
            &&& begin == TransactionAction::ExecBegin
            &&& after == c && over.phase is Over && action == TransactionAction::Return
        }),
{
}

/// A block that ended its transaction with its handle is followed by no
/// statement, whatever it returns.
pub proof fn ended_transactions_stay_ended(
    c: ConnectionView,
    run: TransactionRun,
    epoch: u64,
    ok: bool,
    busy: bool,
)
    requires
        run.phase is Running,
        c.epoch < u64::MAX,
        handle_closed(c, epoch).1 is Ok,
    ensures
        epoch == c.epoch,
        ({
            let ended = handle_closed(c, epoch).0;
            let (after, over, action) = transaction_step(
                ended,
                run,
                TransactionEvent::Returned { ok, busy },
            );
            &&& !ended.in_transaction && ended.epoch == c.epoch + 1
            &&& after == ended && over.phase is Over && action == TransactionAction::Return
        }),
{
}

/// A handle ends the transaction of its own epoch, and no other.
pub proof fn handles_end_their_own_transaction(c: ConnectionView, epoch: u64)
    ensures
        handle_closed(c, epoch).1 is Ok <==> c.epoch == epoch,
        handle_closed(c, epoch).1 is Err ==> handle_closed(c, epoch).0 == c,
{
}

/// Work begins on an open connection that nothing else uses, and ends with the
/// connection free, and closed if it was to be closed.
pub proof fn work_needs_a_free_connection(c: ConnectionView, closed: bool)
    ensures
        work_begun(c).1 is Ok <==> c.open && !c.in_use,
        work_begun(c).1 is Err ==> work_begun(c).0 == c,
        work_begun(c).1 matches Ok(close) ==> close == c.pending_close && work_begun(c).0.in_use
            && went_on(c, (ConnectionView { in_use: false, ..work_begun(c).0 }), 0),
        !work_ended(c, closed).in_use,
        work_ended(c, closed).open <==> c.open && !closed,
        work_ended(c, closed).epoch == c.epoch,
        work_ended(c, closed).in_transaction == c.in_transaction,
        work_ended(c, closed).pending_close == c.pending_close,
{
}

/// Whether an argument is a count, or says nothing and leaves it at the usual
/// one.
pub open spec fn counts(value: Option<Value>, usual: u32, n: u32) -> bool {
    match value {
        None => n == usual,
        Some(value) => value matches Value::Int(i) && i == n as int,
    }
}

/// A busy database is tried as often and with such waits as the arguments say;
/// without them ten times, from one to a thousand milliseconds.
pub proof fn patience_is_as_asked(
    retries: Option<Value>,
    min_wait: Option<Value>,
    max_wait: Option<Value>,
    options: RetryOptions,
)
    ensures
        retry_result(retries, min_wait, max_wait) == Ok::<RetryOptions, ErrorView>(options) <==> {
            &&& counts(retries, 10, options.retries)
            &&& counts(min_wait, 1, options.min_wait)
            &&& counts(max_wait, 1000, options.max_wait)
        },
{
}

/// A database is opened at the path that is given, if no zero is in it, and
/// with the patience that is given.
pub proof fn databases_are_opened_as_asked(args: OpenArgs, path: Seq<char>, options: RetryOptions)
    ensures
        open_result(args) == Ok::<(Seq<char>, RetryOptions), ErrorView>((path, options)) <==> {
            &&& match args.path {
                PathArg::Str(s) => s@ == path,
                PathArg::Path(s) => s@ == path,
                PathArg::Other => false,
            }
            &&& forall|i: int| 0 <= i < encode_utf8(path).len() ==> #[trigger] encode_utf8(path)[i]
                != 0
            &&& counts(args.retries, 10, options.retries)
            &&& counts(args.min_wait, 1, options.min_wait)
            &&& counts(args.max_wait, 1000, options.max_wait)
        },
{
    patience_is_as_asked(args.retries, args.min_wait, args.max_wait, options);
    first_zero_is_first(encode_utf8(path));
    if let Some(given) = path_text(args.path) {
        first_zero_is_first(encode_utf8(given));
    }
}

} // verus!

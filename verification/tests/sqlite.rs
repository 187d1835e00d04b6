use dolang_ext::error::Error;
use dolang_ext::shell::paths::PathArg;
use dolang_ext::sqlite::bind::{bind_keyword_params, bound, BindArg, BindValue};
use dolang_ext::sqlite::connection::{
    sql_arg, AssertSend, Backoff, Close, Connection, Transaction, TransactionAction,
    TransactionEvent, TransactionRun,
};
use dolang_ext::sqlite::extension::SqliteExt;
use dolang_ext::sqlite::failure::{self, map_sqlite_error};
use dolang_ext::sqlite::open::{
    check_zero, open_args, path_arg, retry_options, OpenArgs, RetryOptions,
};
use dolang_ext::sqlite::row::{column_for_name, column_names, Cell, Row, RowData, Rows, SqliteValue};
use dolang_ext::sqlite::rows::{
    begin_rows_spread, check_rows_unpack, RowsAction, RowsGiven, RowsUnpack, SpreadContext,
};
use dolang_ext::sqlite::statement::{
    affected_rows, scan_bool_columns, step_outcome, QueryState, Statement, StatementAnnex, Stepped,
};
use dolang_ext::sqlite::unpack::{Given, RowIter, UnpackItem};
use dolang_ext::sqlite::vfs::codes;
use dolang_ext::sqlite::vfs::file::{
    gen_temp_path, map_vfs_err, AccessFlags, CreateMode, FileErrorKind, OpenMode, OpenOpts,
    ShellVfs,
};
use dolang_ext::sqlite::vfs::lock::{
    check_reserved_lock, close_handle, join_inode, lock_code, unlock_code, CallFailure, InodeState,
    LockAction, LockLevel, Locking, Unlocking,
};
use dolang_ext::sqlite::vfs::shm::{
    deferred, lock_shm_dms, open_or_join_shm, open_shm, remove_shm, DmsAction, DmsEvent, DmsPhase,
    JoinPlan, Probe, ShmAction, ShmConn, ShmLockMode, ShmOpenAction, ShmOpenEvent, ShmOpenPhase,
    ShmSlots,
};
use dolang_ext::sqlite::vfs::shm_map::{MapPlan, ShmRegions};
use dolang_ext::value::Value;

fn connection() -> Connection {
    Connection::new(RetryOptions {
        retries: 2,
        min_wait: 4,
        max_wait: 10,
    })
}

fn text(s: &str) -> Value {
    Value::Str(s.to_string())
}

fn statement() -> StatementAnnex {
    StatementAnnex::new(&vec![None, Some(b"Boolean".to_vec()), Some(b"TEXT".to_vec())])
}

fn names() -> Vec<Option<String>> {
    column_names(&vec![
        Some(b"id".to_vec()),
        Some(b"ok".to_vec()),
        Some(b"name".to_vec()),
    ])
}

fn cells() -> Vec<Cell> {
    vec![Cell::Integer(7), Cell::Integer(1), Cell::Text(b"x".to_vec())]
}

fn message<T: std::fmt::Debug>(r: Result<T, Error>) -> String {
    match r {
        Err(Error::Value(m))
        | Err(Error::Type(m))
        | Err(Error::State(m))
        | Err(Error::Concurrency(m))
        | Err(Error::Runtime(m)) => m,
        other => panic!("{other:?}"),
    }
}

#[test]
fn codes_are_those_of_the_database_library() {
    assert_eq!(failure::SQLITE_OK, libsqlite3_sys::SQLITE_OK);
    assert_eq!(failure::SQLITE_BUSY, libsqlite3_sys::SQLITE_BUSY);
    assert_eq!(failure::SQLITE_LOCKED, libsqlite3_sys::SQLITE_LOCKED);
    assert_eq!(failure::SQLITE_ROW, libsqlite3_sys::SQLITE_ROW);
    assert_eq!(failure::SQLITE_DONE, libsqlite3_sys::SQLITE_DONE);
    assert_eq!(codes::SQLITE_BUSY, libsqlite3_sys::SQLITE_BUSY);
    assert_eq!(codes::SQLITE_IOERR, libsqlite3_sys::SQLITE_IOERR);
    assert_eq!(codes::SQLITE_CANTOPEN, libsqlite3_sys::SQLITE_CANTOPEN);
    assert_eq!(codes::SQLITE_IOERR_READ, libsqlite3_sys::SQLITE_IOERR_READ);
    assert_eq!(codes::SQLITE_IOERR_WRITE, libsqlite3_sys::SQLITE_IOERR_WRITE);
    assert_eq!(codes::SQLITE_IOERR_FSYNC, libsqlite3_sys::SQLITE_IOERR_FSYNC);
    assert_eq!(codes::SQLITE_IOERR_TRUNCATE, libsqlite3_sys::SQLITE_IOERR_TRUNCATE);
    assert_eq!(codes::SQLITE_IOERR_FSTAT, libsqlite3_sys::SQLITE_IOERR_FSTAT);
    assert_eq!(codes::SQLITE_IOERR_UNLOCK, libsqlite3_sys::SQLITE_IOERR_UNLOCK);
    assert_eq!(codes::SQLITE_IOERR_DELETE, libsqlite3_sys::SQLITE_IOERR_DELETE);
    assert_eq!(codes::SQLITE_IOERR_LOCK, libsqlite3_sys::SQLITE_IOERR_LOCK);
    assert_eq!(codes::SQLITE_IOERR_DELETE_NOENT, libsqlite3_sys::SQLITE_IOERR_DELETE_NOENT);
    assert_eq!(codes::SQLITE_IOERR_SHMOPEN, libsqlite3_sys::SQLITE_IOERR_SHMOPEN);
    assert_eq!(codes::SQLITE_IOERR_SHMLOCK, libsqlite3_sys::SQLITE_IOERR_SHMLOCK);
    assert_eq!(codes::SQLITE_IOERR_SHMMAP, libsqlite3_sys::SQLITE_IOERR_SHMMAP);
    assert_eq!(codes::SQLITE_IOERR_SHMSIZE, codes::SQLITE_IOERR | (22 << 8));
    assert_eq!(codes::SQLITE_READONLY_CANTINIT, libsqlite3_sys::SQLITE_READONLY_CANTINIT);
    assert_eq!(
        dolang_ext::sqlite::vfs::file::SQLITE_IOCAP_POWERSAFE_OVERWRITE,
        libsqlite3_sys::SQLITE_IOCAP_POWERSAFE_OVERWRITE
    );
    assert_eq!(
        dolang_ext::sqlite::vfs::file::SQLITE_IOCAP_BATCH_ATOMIC,
        libsqlite3_sys::SQLITE_IOCAP_BATCH_ATOMIC
    );
    assert_eq!(
        dolang_ext::sqlite::vfs::file::SQLITE_IOCAP_SUBPAGE_READ,
        libsqlite3_sys::SQLITE_IOCAP_SUBPAGE_READ
    );
}

#[test]
fn failures_tell_busy_from_broken() {
    let e = map_sqlite_error(5, &Some(b"database is locked".to_vec()));
    assert!(e.busy);
    assert_eq!(e.message, "database is locked");
    let e = map_sqlite_error(1, &None);
    assert!(!e.busy);
    assert_eq!((e.code, e.message.as_str()), (1, "<unknown>"));
    let e = map_sqlite_error(6, &Some(vec![b'a', 0xff]));
    assert_eq!(e.message, "a\u{fffd}");
}

#[test]
fn retry_options_have_defaults() {
    let o = retry_options(&None, &None, &None).unwrap();
    assert_eq!((o.retries, o.min_wait, o.max_wait), (10, 1, 1000));
    let o = retry_options(&Some(Value::Int(0)), &Some(Value::Int(2)), &Some(Value::Int(3))).unwrap();
    assert_eq!((o.retries, o.min_wait, o.max_wait), (0, 2, 3));
    assert_eq!(
        message(retry_options(&Some(Value::Nil), &None, &None)),
        "busy_retries: expected int"
    );
    assert_eq!(
        message(retry_options(&None, &Some(Value::Nil), &None)),
        "busy_min_wait: expected int"
    );
    assert_eq!(
        message(retry_options(&None, &None, &Some(Value::Nil))),
        "busy_max_wait: expected int"
    );
    assert!(matches!(
        retry_options(&Some(Value::Int(-1)), &None, &None),
        Err(Error::Overflow)
    ));
    assert_eq!(
        message(check_zero(b"ab\0c")),
        "nul byte found in provided data at position: 2"
    );
    assert!(check_zero(b"abc").is_ok());
}

#[test]
fn connections_do_one_thing_at_a_time() {
    let mut c = connection();
    assert!(!c.begin_work().unwrap());
    assert_eq!(message(c.begin_work()), "connection already in use");
    c.end_work(false);
    c.request_close();
    assert!(c.begin_work().unwrap());
    c.end_work(true);
    assert!(!c.is_open());
    assert_eq!(message(c.begin_work()), "connection closed");
    assert_eq!(AssertSend(3).into_inner(), 3);
}

#[test]
fn waits_double_up_to_the_longest() {
    let mut b: Backoff = connection().backoff().unwrap();
    assert_eq!(b.retry(false, 0), None);
    assert_eq!(b.retry(true, 0), Some(4));
    assert_eq!(b.wait, 8);
    assert_eq!(b.retry(true, 3), Some(11));
    assert_eq!(b.wait, 10);
    assert_eq!(b.retry(true, 0), None);
}

#[test]
fn transactions_commit_roll_back_and_retry() {
    let mut c = connection();
    let mut run = TransactionRun::new(&c);
    assert_eq!(run.step(&mut c, TransactionEvent::Start), TransactionAction::ExecBegin);
    let action = run.step(&mut c, TransactionEvent::Began { ok: true });
    assert_eq!(action, TransactionAction::CallBlock(1));
    assert!(c.in_transaction());
    assert!(c.backoff().is_none());
    let mut other = TransactionRun::new(&c);
    assert_eq!(other.step(&mut c, TransactionEvent::Start), TransactionAction::Refuse);
    let action = run.step(&mut c, TransactionEvent::Returned { ok: false, busy: true });
    assert_eq!(action, TransactionAction::ExecRollback);
    let action = run.step(&mut c, TransactionEvent::Ended { random: 0 });
    assert_eq!(action, TransactionAction::Sleep(4));
    assert_eq!(run.step(&mut c, TransactionEvent::Woke), TransactionAction::ExecBegin);
    run.step(&mut c, TransactionEvent::Began { ok: true });
    let action = run.step(&mut c, TransactionEvent::Returned { ok: true, busy: false });
    assert_eq!(action, TransactionAction::ExecCommit);
    let action = run.step(&mut c, TransactionEvent::Ended { random: 0 });
    assert_eq!(action, TransactionAction::Return);
    assert!(!c.in_transaction());
}

#[test]
fn handles_end_their_transaction_once() {
    let mut c = connection();
    let mut run = TransactionRun::new(&c);
    run.step(&mut c, TransactionEvent::Start);
    run.step(&mut c, TransactionEvent::Began { ok: true });
    let handle = Transaction { epoch: c.epoch() };
    assert_eq!(handle.close(&mut c, Close::Commit).unwrap(), "COMMIT");
    assert_eq!(message(handle.close(&mut c, Close::Rollback)), "stale transaction");
    let action = run.step(&mut c, TransactionEvent::Returned { ok: true, busy: false });
    assert_eq!(action, TransactionAction::Return);
}

#[test]
fn truth_columns_are_declared() {
    let flags = scan_bool_columns(&vec![
        Some(b"BOOL".to_vec()),
        Some(b"boolean".to_vec()),
        Some(b"int".to_vec()),
        None,
    ]);
    assert_eq!(flags, [true, true, false, false]);
    assert_eq!(step_outcome(100), Stepped::Again);
    assert_eq!(step_outcome(101), Stepped::Done);
    assert_eq!(step_outcome(19), Stepped::Failed(19));
    assert_eq!(affected_rows(3).unwrap(), 3);
    assert_eq!(message(affected_rows(-1)), "execution failed");
}

#[test]
fn statements_are_used_again_and_closed() {
    let mut annex = statement();
    let mut s = Statement::new();
    assert!(!s.is_query_active());
    assert_eq!(annex.begin_query().unwrap(), 1);
    s.query = QueryState::Active { owned: false };
    s.own_rows();
    assert_eq!(s.query, QueryState::Active { owned: true });
    annex.begin_execute(&mut s, &connection()).unwrap();
    assert_eq!(annex.epoch(), 2);
    assert!(!s.is_query_active());
    assert!(annex.close(&mut s));
    assert!(!annex.close(&mut s));
    assert_eq!(message(annex.begin_query()), "statement closed");
    let mut closed = connection();
    closed.begin_work().unwrap();
    closed.end_work(true);
    assert_eq!(message(annex.begin_execute(&mut s, &closed)), "connection closed");
    let mut annex = statement();
    assert!(!annex.clear(&mut s));
    s.query = QueryState::Active { owned: false };
    assert!(annex.clear(&mut s));
    assert!(!annex.is_open());
}

#[test]
fn parameters_are_bound_by_name() {
    let args = vec![
        BindArg::Key("a".to_string(), Value::Nil),
        BindArg::Key("b".to_string(), Value::Bool(true)),
        BindArg::Key("c".to_string(), text("t")),
        BindArg::Key("d".to_string(), Value::Bin(vec![1])),
        BindArg::Key("e".to_string(), Value::Float(0x3ff0_0000_0000_0000)),
        BindArg::Key("f".to_string(), Value::Int(-4)),
    ];
    let plan = bind_keyword_params(&args);
    assert!(plan.error.is_none());
    assert_eq!(plan.bindings[0].parameter, ":a");
    assert!(matches!(plan.bindings[0].value, BindValue::Null));
    assert!(matches!(plan.bindings[1].value, BindValue::Integer(1)));
    assert!(matches!(&plan.bindings[2].value, BindValue::Text(s) if s == "t"));
    assert!(matches!(&plan.bindings[3].value, BindValue::Blob(b) if b == &[1]));
    assert!(matches!(plan.bindings[4].value, BindValue::Double(0x3ff0_0000_0000_0000)));
    assert!(matches!(plan.bindings[5].value, BindValue::Integer(-4)));
    let plan = bind_keyword_params(&vec![
        BindArg::Key("a".to_string(), Value::Nil),
        BindArg::Key("b".to_string(), Value::Other),
        BindArg::Pos,
    ]);
    assert_eq!(plan.bindings.len(), 1);
    match plan.error {
        Some(Error::Type(m)) => assert_eq!(m, "unsupported type for SQL parameter: b"),
        other => panic!("{other:?}"),
    }
    let plan = bind_keyword_params(&vec![BindArg::Pos]);
    assert!(matches!(plan.error, Some(Error::UnexpectedPositional(0))));
    let plan = bind_keyword_params(&vec![BindArg::Key("s".to_string(), text("a\0b"))]);
    match plan.error {
        Some(Error::Runtime(m)) => assert_eq!(m, "invalid string"),
        other => panic!("{other:?}"),
    }
    assert!(bound(0).is_ok());
    assert_eq!(message(bound(25)), "failed to bind parameter");
}

#[test]
fn rows_are_fetched_and_read() {
    let mut annex = statement();
    let mut s = Statement::new();
    let rows = Rows {
        epoch: annex.begin_query().unwrap(),
    };
    s.query = QueryState::Active { owned: false };
    let fetch = rows.begin_next(&s, &mut annex).unwrap();
    let row = rows.end_next(fetch, 100, &cells(), &mut s, &annex).unwrap();
    let names = names();
    assert!(matches!(
        row.index(&annex, &names, &cells(), &Value::Int(0)),
        Ok(SqliteValue::Integer(7))
    ));
    assert!(matches!(
        row.index(&annex, &names, &cells(), &text("ok")),
        Ok(SqliteValue::Bool(true))
    ));
    assert!(matches!(
        row.index(&annex, &names, &cells(), &text("name")),
        Ok(SqliteValue::Text(s)) if s == "x"
    ));
    assert!(matches!(
        row.index(&annex, &names, &cells(), &text("none")),
        Err(Error::Index)
    ));
    assert!(matches!(
        row.index(&annex, &names, &cells(), &Value::Int(-1)),
        Err(Error::Index)
    ));
    assert!(matches!(
        row.index(&annex, &names, &cells(), &Value::Int(0x1_0000_0000)),
        Ok(SqliteValue::Integer(7))
    ));
    assert_eq!(
        message(row.index(&annex, &names, &cells(), &Value::Nil)),
        "expected int or str for column key"
    );
    rows.begin_next(&s, &mut annex).unwrap();
    assert_eq!(
        message(row.index(&annex, &names, &cells(), &Value::Int(0))),
        "row data invalidated by iterator advancing"
    );
    let done = rows.end_next(fetch, 101, &cells(), &mut s, &annex);
    assert!(done.is_none() && !s.is_query_active());
    annex.begin_query().unwrap();
    assert_eq!(
        message(row.index(&annex, &names, &cells(), &Value::Int(0))),
        "iterator invalidated by statement reuse"
    );
    assert!(rows.begin_next(&s, &mut annex).is_err());
}

#[test]
fn copied_rows_outlive_the_query() {
    let mut annex = statement();
    let mut s = Statement::new();
    let rows = Rows {
        epoch: annex.begin_query().unwrap(),
    };
    s.query = QueryState::Active { owned: true };
    let fetch = rows.begin_next(&s, &mut annex).unwrap();
    let row = rows.end_next(fetch, 100, &cells(), &mut s, &annex).unwrap();
    rows.begin_next(&s, &mut annex).unwrap();
    assert!(matches!(
        row.index(&annex, &names(), &vec![], &Value::Int(1)),
        Ok(SqliteValue::Bool(true))
    ));
    assert!(matches!(
        row.index(&annex, &names(), &vec![], &Value::Int(3)),
        Err(Error::Index)
    ));
    assert_eq!(column_for_name(&names(), "ok"), Some(1));
    assert_eq!(column_for_name(&names(), "OK"), None);
}

#[test]
fn rows_are_taken_apart() {
    let annex = statement();
    let row = Row {
        epoch: 0,
        data: RowData::Ref(0),
    };
    let items = vec![
        UnpackItem::SymKey {
            name: "name".to_string(),
            default: false,
        },
        UnpackItem::Pos { default: false },
        UnpackItem::Rest,
    ];
    let (given, mut rest) = row.unpack(&annex, &names(), &cells(), &items, false).unwrap();
    assert!(matches!(&given[0], Given::Value(SqliteValue::Text(s)) if s == "x"));
    assert!(matches!(&given[1], Given::Value(SqliteValue::Integer(7))));
    assert!(matches!(&given[2], Given::Rest));
    assert_eq!(rest.columns(), 3);
    let next = rest.next(&row, &annex, &cells()).unwrap();
    assert!(matches!(next, Some(Given::Value(SqliteValue::Bool(true)))));
    assert!(rest.next(&row, &annex, &cells()).unwrap().is_none());
}

#[test]
fn patterns_report_what_is_missing_or_left() {
    let annex = statement();
    let row = Row {
        epoch: 0,
        data: RowData::Ref(0),
    };
    let unpack = |items: Vec<UnpackItem>, exhaustive| {
        row.unpack(&annex, &names(), &cells(), &items, exhaustive)
    };
    let pos = || UnpackItem::Pos { default: false };
    match unpack(vec![pos(), pos(), pos(), pos()], true) {
        Err(Error::MissingPositional(n)) => assert_eq!(n, 3),
        other => panic!("{other:?}"),
    }
    match unpack(vec![pos()], true) {
        Err(Error::UnexpectedKey(k)) => assert_eq!(k, "ok"),
        other => panic!("{other:?}"),
    }
    let key = |key: Value, default| UnpackItem::ConstKey { key, default };
    match unpack(vec![key(text("zip"), false)], false) {
        Err(Error::MissingKey(k)) => assert_eq!(k, "zip"),
        other => panic!("{other:?}"),
    }
    match unpack(vec![key(Value::Int(-2), false)], false) {
        Err(Error::MissingIndex(i)) => assert_eq!(i, -2),
        other => panic!("{other:?}"),
    }
    assert!(matches!(
        unpack(vec![key(Value::Int(1 << 40), false)], false),
        Err(Error::Overflow)
    ));
    let (given, _) = unpack(vec![key(Value::Int(1), false), key(Value::Int(1), true)], false).unwrap();
    assert!(matches!(&given[0], Given::Value(SqliteValue::Bool(true))));
    assert!(matches!(&given[1], Given::Default));
    let mut iter = RowIter::new(vec![true, false, true]);
    let next = iter.next(&row, &annex, &cells()).unwrap();
    assert!(matches!(next, Some(Given::Value(SqliteValue::Bool(true)))));
}

/// Runs a lock to its end; `answer` is what the system says to every call.
fn take(level: &mut LockLevel, inode: &mut InodeState, desired: LockLevel, answer: Option<i32>) -> Option<i32> {
    let mut locking = Locking::new(desired);
    let mut outcome = None;
    loop {
        match locking.step(level, inode, outcome) {
            LockAction::Done(code) => return code,
            _ => outcome = answer,
        }
    }
}

fn give(level: &mut LockLevel, inode: &mut InodeState, desired: LockLevel) -> Option<i32> {
    let mut unlocking = Unlocking::new(desired);
    let mut outcome = None;
    loop {
        match unlocking.step(level, inode, outcome) {
            LockAction::Done(code) => return code,
            _ => outcome = None,
        }
    }
}

#[test]
fn locks_are_shared_and_exclusive() {
    let mut inode = InodeState::new();
    join_inode(&mut inode);
    join_inode(&mut inode);
    let mut a = LockLevel::Unlocked;
    let mut b = LockLevel::Unlocked;
    assert_eq!(take(&mut a, &mut inode, LockLevel::Shared, None), None);
    assert_eq!(take(&mut b, &mut inode, LockLevel::Shared, None), None);
    assert_eq!((inode.n_shared, inode.n_lock), (2, 2));
    assert_eq!(take(&mut a, &mut inode, LockLevel::Reserved, None), None);
    assert_eq!(take(&mut b, &mut inode, LockLevel::Reserved, None), Some(5));
    assert_eq!(check_reserved_lock(&inode, None), Ok(true));
    assert_eq!(take(&mut a, &mut inode, LockLevel::Exclusive, None), Some(5));
    assert_eq!(a, LockLevel::Pending);
    assert_eq!(give(&mut b, &mut inode, LockLevel::Unlocked), None);
    assert_eq!(take(&mut b, &mut inode, LockLevel::Shared, None), Some(5));
    assert_eq!(take(&mut a, &mut inode, LockLevel::Exclusive, None), None);
    assert_eq!(a, LockLevel::Exclusive);
    assert_eq!(give(&mut a, &mut inode, LockLevel::Shared), None);
    assert_eq!(inode.max_lock, LockLevel::Shared);
    assert_eq!(give(&mut a, &mut inode, LockLevel::Unlocked), None);
    assert_eq!(inode, InodeState { n_ref: 2, ..InodeState::new() });
}

#[test]
fn refused_locks_change_nothing() {
    let mut inode = InodeState::new();
    let mut a = LockLevel::Unlocked;
    assert_eq!(take(&mut a, &mut inode, LockLevel::Shared, Some(3850)), Some(3850));
    assert_eq!((a, inode), (LockLevel::Unlocked, InodeState::new()));
    assert_eq!(check_reserved_lock(&inode, Some(true)), Ok(true));
    assert_eq!(check_reserved_lock(&inode, Some(false)), Ok(false));
    assert_eq!(check_reserved_lock(&inode, None), Err(10));
    assert_eq!(lock_code(CallFailure::Held), 5);
    assert_eq!(lock_code(CallFailure::Other), 3850);
    assert_eq!(unlock_code(CallFailure::Other), 2058);
}

#[test]
fn calls_lock_the_right_bytes() {
    let mut inode = InodeState::new();
    let mut level = LockLevel::Unlocked;
    let mut locking = Locking::new(LockLevel::Shared);
    let first = locking.step(&mut level, &mut inode, None);
    assert_eq!(first, LockAction::Read { start: 0x40000000, len: 1 });
    let second = locking.step(&mut level, &mut inode, None);
    assert_eq!(second, LockAction::Read { start: 0x40000002, len: 510 });
    let third = locking.step(&mut level, &mut inode, None);
    assert_eq!(third, LockAction::Unlock { start: 0x40000000, len: 1 });
    assert_eq!(locking.step(&mut level, &mut inode, None), LockAction::Done(None));
}

#[test]
fn closing_waits_for_other_locks() {
    let mut inode = InodeState::new();
    join_inode(&mut inode);
    join_inode(&mut inode);
    let mut a = LockLevel::Unlocked;
    take(&mut a, &mut inode, LockLevel::Shared, None);
    let closing = close_handle(&mut inode, Some(codes::SQLITE_IOERR_UNLOCK));
    assert_eq!(closing.code, Some(2058));
    assert!(closing.defer && !closing.forget);
    assert_eq!(inode.pending, 1);
    give(&mut a, &mut inode, LockLevel::Unlocked);
    assert_eq!(inode.pending, 0);
    let closing = close_handle(&mut inode, None);
    assert_eq!(closing.code, None);
    assert!(!closing.defer && closing.forget);
}

#[test]
fn slots_are_shared_and_exclusive() {
    let mut node = ShmSlots::new();
    node.join();
    let mut a = ShmConn::new();
    let mut b = ShmConn::new();
    let action = node.begin(&mut a, 3, 1, ShmLockMode::LockShared);
    assert_eq!(action, ShmAction::Read { offset: 3, count: 1 });
    assert_eq!(node.end(&mut a, 3, 1, ShmLockMode::LockShared, None), None);
    let action = node.begin(&mut b, 3, 1, ShmLockMode::LockShared);
    assert_eq!(action, ShmAction::Done(None));
    assert_eq!(node.slots[3], 2);
    let action = node.begin(&mut b, 2, 3, ShmLockMode::LockExclusive);
    assert_eq!(action, ShmAction::Done(Some(5)));
    let action = node.begin(&mut b, 4, 2, ShmLockMode::LockExclusive);
    assert_eq!(action, ShmAction::Write { offset: 4, count: 2 });
    node.end(&mut b, 4, 2, ShmLockMode::LockExclusive, None);
    assert_eq!(node.slots[4..6], [-1, -1]);
    let action = node.begin(&mut a, 4, 1, ShmLockMode::LockShared);
    assert_eq!(action, ShmAction::Done(Some(5)));
    let leaving = node.disconnect(&b);
    assert_eq!(leaving.release, [4, 5]);
    assert!(!leaving.last);
    assert_eq!(node.slots[3], 1);
    let action = node.begin(&mut a, 3, 1, ShmLockMode::UnlockShared);
    assert_eq!(action, ShmAction::Unlock { offset: 3, count: 1 });
    node.end(&mut a, 3, 1, ShmLockMode::UnlockShared, None);
    assert!(node.disconnect(&a).last);
    assert_eq!(node.slots, [0; 8]);
}

#[test]
fn the_first_connection_makes_the_shared_memory() {
    let step = |phase, readonly, event| lock_shm_dms(phase, readonly, event);
    let (p, a) = step(DmsPhase::Start, false, DmsEvent::Begin);
    assert_eq!(a, DmsAction::Probe);
    let (p1, a) = step(p, false, DmsEvent::Probed(Some(Probe::Nobody)));
    assert_eq!(a, DmsAction::LockWrite);
    let (p2, a) = step(p1, false, DmsEvent::Called { ok: true });
    assert_eq!(a, DmsAction::Truncate);
    let (p3, a) = step(p2, false, DmsEvent::Called { ok: true });
    assert_eq!(a, DmsAction::LockRead);
    assert_eq!(step(p3, false, DmsEvent::Called { ok: true }).1, DmsAction::Done(None));
    assert_eq!(
        step(p, true, DmsEvent::Probed(Some(Probe::Nobody))).1,
        DmsAction::Done(Some(1288))
    );
    assert_eq!(
        step(p, false, DmsEvent::Probed(Some(Probe::Writer))).1,
        DmsAction::Done(Some(5))
    );
    assert_eq!(step(p, false, DmsEvent::Probed(None)).1, DmsAction::Done(Some(3850)));
    assert_eq!(step(p2, false, DmsEvent::Called { ok: false }).1, DmsAction::Done(Some(4618)));
    assert_eq!(deferred(Some(1288)), Ok(true));
    assert_eq!(deferred(Some(5)), Err(5));
    assert_eq!(deferred(None), Ok(false));
}

#[test]
fn connections_join_the_shared_memory() {
    let db = Some("/x/db".to_string());
    assert!(matches!(open_or_join_shm(true, &None, false), JoinPlan::Attached));
    assert!(matches!(open_or_join_shm(false, &None, false), JoinPlan::Fail(10)));
    assert!(matches!(open_or_join_shm(false, &db, true), JoinPlan::Join));
    match open_or_join_shm(false, &db, false) {
        JoinPlan::Open(path) => assert_eq!(path, "/x/db-shm"),
        other => panic!("{other:?}"),
    }
    assert!(remove_shm(true, 1));
    assert!(!remove_shm(true, 2));
    assert!(!remove_shm(false, 1));
}

#[test]
fn shared_memory_is_mapped_in_groups() {
    let mut regions = ShmRegions::new();
    regions.fix_size(32768, 65536);
    assert_eq!(regions.regions_per_map, 2);
    assert!(!regions.is_mapped(2));
    match regions.shm_map(2, 32768, 0, true, false) {
        MapPlan::Extend { writes, groups } => {
            assert_eq!(writes.len(), 32);
            assert_eq!((writes[0], writes[31]), (4095, 131071));
            assert_eq!(groups.len(), 2);
            assert_eq!((groups[1].offset, groups[1].len), (65536, 65536));
        }
        other => panic!("{other:?}"),
    }
    assert!(matches!(regions.shm_map(0, 32768, 0, false, false), MapPlan::TooShort));
    assert!(matches!(regions.shm_map(0, 32768, 0, true, true), MapPlan::TooShort));
    regions.group_mapped();
    regions.group_mapped();
    assert!(regions.is_mapped(3));
    assert_eq!(regions.place(3, 32768), (1, 32768));
    let mut small = ShmRegions::new();
    small.fix_size(32768, 4096);
    assert_eq!(small.regions_per_map, 1);
}

#[test]
fn files_are_opened_as_asked() {
    let random = vec![0x0a, 0xff, 0x10];
    let open = |path: Option<&str>, mode, delete_on_close| {
        ShellVfs.open(
            &path.map(|p| p.to_string()),
            OpenOpts {
                mode,
                delete_on_close,
            },
            &random,
        )
    };
    let plan = open(Some("/db"), OpenMode::ReadOnly, false);
    assert!(plan.readonly && plan.flags.read && !plan.flags.write && !plan.remove && plan.named);
    let must = OpenMode::ReadWrite {
        create: CreateMode::MustCreate,
    };
    let plan = open(Some("/db"), must, true);
    assert!(plan.flags.create && plan.flags.create_new && plan.remove && !plan.readonly);
    let plan = open(None, must, false);
    assert_eq!(plan.path, "/tmp/etilqs_0aff10");
    assert!(plan.remove && plan.flags.create_new && !plan.flags.create && !plan.named);
    assert_ne!(gen_temp_path(&vec![1, 2]), gen_temp_path(&vec![2, 1]));
    assert_eq!(ShellVfs.canonical_path("a/../b".to_string()), "a/../b");
    let rights = ShellVfs.access(AccessFlags::ReadWrite);
    assert!(rights.read && rights.write);
    assert!(!ShellVfs.access(AccessFlags::Exists).read);
}

#[test]
fn devices_say_what_they_can() {
    assert_eq!(ShellVfs.sector_size(None), 4096);
    assert_eq!(ShellVfs.sector_size(Some(1)), 512);
    assert_eq!(ShellVfs.sector_size(Some(8192)), 8192);
    assert_eq!(ShellVfs.sector_size(Some(1 << 40)), i32::MAX);
    assert_eq!(ShellVfs.device_characteristics(None), 0x9000);
    assert_eq!(ShellVfs.device_characteristics(Some(0x4)), 0xd000);
    assert_eq!(ShellVfs.device_characteristics(Some(0x2)), 0x9000);
    assert_eq!(map_vfs_err(FileErrorKind::NotFound, 1, 2), 1);
    assert_eq!(map_vfs_err(FileErrorKind::PermissionDenied, 1, 2), 14);
    assert_eq!(map_vfs_err(FileErrorKind::AlreadyExists, 1, 2), 14);
    assert_eq!(map_vfs_err(FileErrorKind::Other, 1, 2), 2);
    assert_eq!(SqliteExt.name(), "dolang-sqlite");
}

#[test]
fn rows_match_patterns_that_require_nothing() {
    assert!(check_rows_unpack(0, 0).is_ok());
    assert!(matches!(check_rows_unpack(1, 0), Err(Error::NotSupported)));
    assert!(matches!(check_rows_unpack(0, 2), Err(Error::NotSupported)));
}

#[test]
fn rows_are_taken_apart_one_by_one() {
    let mut stmt = Statement::new();
    let items = vec![UnpackItem::Pos { default: false }];
    assert!(matches!(RowsUnpack::begin(&items, &mut stmt), Err(Error::NotSupported)));
    let rows = Rows::open(&mut stmt, 4, Ok(())).unwrap();
    assert_eq!(rows.epoch, 4);
    assert_eq!(stmt.query, QueryState::Active { owned: false });
    let items = vec![
        UnpackItem::Pos { default: true },
        UnpackItem::SymKey {
            name: "a".to_string(),
            default: true,
        },
        UnpackItem::Pos { default: true },
        UnpackItem::Rest,
    ];
    let mut run = RowsUnpack::begin(&items, &mut stmt).unwrap();
    assert_eq!(stmt.query, QueryState::Active { owned: true });
    assert!(matches!(run.step(&items, None), RowsAction::Next));
    let row = Row {
        epoch: 4,
        data: RowData::Owned(vec![]),
    };
    assert!(matches!(
        run.step(&items, Some(Some(row))),
        RowsAction::Give { part: 0, given: RowsGiven::Row(row) } if row.epoch == 4
    ));
    assert!(matches!(
        run.step(&items, None),
        RowsAction::Give { part: 1, given: RowsGiven::Default }
    ));
    assert!(matches!(run.step(&items, None), RowsAction::Next));
    assert!(matches!(
        run.step(&items, Some(None)),
        RowsAction::Give { part: 2, given: RowsGiven::Default }
    ));
    assert!(matches!(
        run.step(&items, None),
        RowsAction::Give { part: 3, given: RowsGiven::Rows }
    ));
    assert!(matches!(run.step(&items, None), RowsAction::Done));
}

#[test]
fn rows_are_spread_into_sequences() {
    let mut stmt = Statement::new();
    stmt.activate();
    assert!(matches!(
        begin_rows_spread(SpreadContext::Other, &mut stmt),
        Err(Error::NotSupported)
    ));
    assert_eq!(stmt.query, QueryState::Active { owned: false });
    assert!(begin_rows_spread(SpreadContext::Sequence, &mut stmt).is_ok());
    assert_eq!(stmt.query, QueryState::Active { owned: true });
}

#[test]
fn queries_run_once_their_parameters_are_bound() {
    let mut stmt = Statement::new();
    let failed = Rows::open(&mut stmt, 1, Err(Error::Overflow));
    assert!(matches!(failed, Err(Error::Overflow)));
    assert!(!stmt.is_query_active());
    assert!(Rows::open(&mut stmt, 2, Ok(())).is_ok());
    assert!(stmt.is_query_active());
}

#[test]
fn long_waits_are_no_matter_without_a_retry() {
    let mut c = Connection::new(RetryOptions {
        retries: 0,
        min_wait: u32::MAX,
        max_wait: u32::MAX,
    });
    let mut b = c.backoff().unwrap();
    assert_eq!(b.retry(true, 0), None);
    let mut run = TransactionRun::new(&c);
    assert_eq!(run.step(&mut c, TransactionEvent::Start), TransactionAction::ExecBegin);
    let begun = run.step(&mut c, TransactionEvent::Began { ok: true });
    assert_eq!(begun, TransactionAction::CallBlock(1));
    let ended = run.step(&mut c, TransactionEvent::Returned { ok: false, busy: true });
    assert_eq!(ended, TransactionAction::ExecRollback);
    let over = run.step(&mut c, TransactionEvent::Ended { random: 5 });
    assert_eq!(over, TransactionAction::Return);
}

#[test]
fn arguments_have_to_be_text() {
    let args = |path: PathArg| OpenArgs {
        path,
        retries: None,
        min_wait: None,
        max_wait: Some(Value::Int(7)),
    };
    let (path, options) = open_args(&args(PathArg::Str("a.db".to_string()))).unwrap();
    assert_eq!((path.as_str(), options.max_wait), ("a.db", 7));
    assert_eq!(path_arg(&PathArg::Path("b.db".to_string())).unwrap(), "b.db");
    assert!(matches!(
        open_args(&args(PathArg::Other)),
        Err(Error::Type(m)) if m == "path: expected str"
    ));
    assert!(matches!(
        open_args(&args(PathArg::Str("a\0".to_string()))),
        Err(Error::Runtime(m)) if m == "nul byte found in provided data at position: 1"
    ));
    let wrong = OpenArgs {
        retries: Some(Value::Nil),
        ..args(PathArg::Str("a".to_string()))
    };
    assert!(matches!(open_args(&wrong), Err(Error::Type(m)) if m == "busy_retries: expected int"));
    assert_eq!(sql_arg(&text("select 1")).unwrap(), "select 1");
    assert!(matches!(sql_arg(&Value::Int(1)), Err(Error::Type(m)) if m == "expected string"));
}

#[test]
fn levels_not_below_the_held_one_need_no_unlocking() {
    let mut inode = InodeState::new();
    for desired in [LockLevel::Shared, LockLevel::Reserved, LockLevel::Exclusive] {
        let mut level = LockLevel::Shared;
        let mut unlocking = Unlocking::new(desired);
        let action = unlocking.step(&mut level, &mut inode, None);
        assert_eq!(action, LockAction::Done(None));
        assert_eq!(level, LockLevel::Shared);
    }
}

#[test]
fn shared_memory_falls_back_to_reading() {
    let (writing, action) = open_shm(ShmOpenPhase::Start, ShmOpenEvent::Begin);
    assert_eq!(action, ShmOpenAction::OpenWrite);
    let opened = ShmOpenEvent::Opened { descriptor: true };
    assert_eq!(open_shm(writing, opened).1, ShmOpenAction::Done { readonly: false });
    let unusable = ShmOpenEvent::Opened { descriptor: false };
    assert_eq!(open_shm(writing, unusable).1, ShmOpenAction::Fail(14));
    let denied = ShmOpenEvent::Failed(FileErrorKind::PermissionDenied);
    let (reading, action) = open_shm(writing, denied);
    assert_eq!(action, ShmOpenAction::OpenRead);
    assert_eq!(open_shm(reading, opened).1, ShmOpenAction::Done { readonly: true });
    assert_eq!(open_shm(reading, unusable).1, ShmOpenAction::Fail(14));
    assert_eq!(open_shm(reading, denied).1, ShmOpenAction::Fail(14));
    let other = ShmOpenEvent::Failed(FileErrorKind::Other);
    assert_eq!(open_shm(reading, other).1, ShmOpenAction::Fail(4618));
    assert_eq!(open_shm(reading, ShmOpenEvent::Begin).1, ShmOpenAction::Ignore);
}

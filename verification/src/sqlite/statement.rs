//! Statements: whether a query runs on one, and what a new one invalidates.

use vstd::prelude::*;
use crate::error::{outcome, Error, ErrorView};
use crate::sqlite::connection::Connection;
use crate::sqlite::failure::{bytes_option, SQLITE_DONE, SQLITE_ROW};

verus! {

broadcast use vstd::string::group_string_axioms;

/// Whether a query runs on a statement, and whether its rows are copied.
#[derive(Clone, Copy, Debug, PartialEq, Eq, Structural)]
pub enum QueryState {
    Idle,
    Active { owned: bool },
}

/// A statement, as far as queries go.
#[derive(Clone, Copy, Debug, PartialEq, Eq, Structural)]
pub struct Statement {
    pub query: QueryState,
}

impl Statement {
    /// A statement on which no query runs.
    pub fn new() -> (s: Statement)
        ensures
            s == (Statement { query: QueryState::Idle }),
    {
        Statement { query: QueryState::Idle }
    }

    /// Whether a query runs.
    pub fn is_query_active(&self) -> (r: bool)
        ensures
            r == (self.query is Active),
    {
        match self.query {
            QueryState::Active { .. } => true,
            QueryState::Idle => false,
        }
    }

    /// Makes a query run, whose rows are not copied.
    pub fn activate(&mut self)
        ensures
            final(self).query == (QueryState::Active { owned: false }),
    {
        self.query = QueryState::Active { owned: false };
    }

    /// Makes the rows of the query that runs be copied, so that they outlive
    /// the rows after them.
    pub fn own_rows(&mut self)
        ensures
            final(self).query == if old(self).query is Active {
                QueryState::Active { owned: true }
            } else {
                QueryState::Idle
            },
    {
        if self.is_query_active() {
            self.query = QueryState::Active { owned: true };
        }
    }
}

/// The rest of a statement's state: whether it is open, how often it was used,
/// how many rows were asked for, and which columns hold truth values.
#[derive(Debug)]
pub struct StatementAnnex {
    open: bool,
    epoch: u64,
    row_epoch: u64,
    bool_columns: Vec<bool>,
}

/// The state of a [`StatementAnnex`].
pub struct AnnexView {
    pub open: bool,
    pub epoch: u64,
    pub row_epoch: u64,
    pub bool_columns: Seq<bool>,
}

impl View for StatementAnnex {
    type V = AnnexView;

    closed spec fn view(&self) -> AnnexView {
        AnnexView {
            open: self.open,
            epoch: self.epoch,
            row_epoch: self.row_epoch,
            bool_columns: self.bool_columns@,
        }
    }
}

/// A byte in lower case, if it is an ASCII letter.
pub open spec fn lower_byte(b: u8) -> int {
    if 0x41 <= b <= 0x5a {
        b + 32
    } else {
        b as int
    }
}

/// Whether two byte strings differ at most in the case of ASCII letters.
pub open spec fn same_bytes(a: Seq<u8>, b: Seq<u8>) -> bool {
    a.len() == b.len() && forall|i: int|
        0 <= i < a.len() ==> lower_byte(#[trigger] a[i]) == lower_byte(b[i])
}

/// Whether two byte strings differ at most in the case of ASCII letters.
fn eq_bytes_ignore_case(a: &Vec<u8>, b: &[u8]) -> (r: bool)
    ensures
        r == same_bytes(a@, b@),
{
    if a.len() != b.len() {
        return false;
    }
    let mut i: usize = 0;
    while i < a.len()
        invariant
            i <= a@.len(),
            a@.len() == b@.len(),
            forall|j: int| 0 <= j < i ==> lower_byte(#[trigger] a@[j]) == lower_byte(b@[j]),
        decreases a@.len() - i,
    {
        let x: u8 = if 0x41 <= a[i] && a[i] <= 0x5a {
            a[i] + 32
        } else {
            a[i]
        };
        let y: u8 = if 0x41 <= b[i] && b[i] <= 0x5a {
            b[i] + 32
        } else {
            b[i]
        };
        if x != y {
            return false;
        }
        i = i + 1;
    }
    true
}

/// The bytes of the word `bool`.
pub open spec fn bool_word() -> Seq<u8> {
    seq![0x62, 0x6f, 0x6f, 0x6c]
}

/// The bytes of the word `boolean`.
pub open spec fn boolean_word() -> Seq<u8> {
    seq![0x62, 0x6f, 0x6f, 0x6c, 0x65, 0x61, 0x6e]
}

/// Whether a column of the declared type holds truth values.
pub open spec fn declares_bool(declared: Option<Seq<u8>>) -> bool {
    match declared {
        Some(name) => same_bytes(name, boolean_word()) || same_bytes(name, bool_word()),
        None => false,
    }
}

/// Tells of each column, from its declared type, whether it holds truth
/// values.
pub fn scan_bool_columns(declared: &Vec<Option<Vec<u8>>>) -> (v: Vec<bool>)
    ensures
        v@.len() == declared@.len(),
        forall|i: int|
            0 <= i < v@.len() ==> #[trigger] v@[i] == declares_bool(bytes_option(declared@[i])),
{
    let mut v: Vec<bool> = Vec::new();
    let boolean: [u8; 7] = [0x62, 0x6f, 0x6f, 0x6c, 0x65, 0x61, 0x6e];
    let short: [u8; 4] = [0x62, 0x6f, 0x6f, 0x6c];
    assert(boolean@ =~= boolean_word());
    assert(short@ =~= bool_word());
    let mut i: usize = 0;
    while i < declared.len()
        invariant
            i <= declared@.len(),
            v@.len() == i,
            boolean@ == boolean_word(),
            short@ == bool_word(),
            forall|j: int|
                0 <= j < v@.len() ==> #[trigger] v@[j] == declares_bool(bytes_option(declared@[j])),
        decreases declared@.len() - i,
    {
        let holds = match &declared[i] {
            Some(name) => eq_bytes_ignore_case(name, boolean.as_slice()) || eq_bytes_ignore_case(
                name,
                short.as_slice(),
            ),
            None => false,
        };
        v.push(holds);
        i = i + 1;
    }
    v
}

/// What a statement becomes when it is to be used again, for a query.
pub open spec fn query_begun(a: AnnexView) -> (AnnexView, Result<u64, ErrorView>) {
    if !a.open {
        (a, Err(ErrorView::State("statement closed"@)))
    } else {
        (AnnexView { epoch: (a.epoch + 1) as u64, ..a }, Ok((a.epoch + 1) as u64))
    }
}

impl StatementAnnex {
    /// A statement that was just prepared, with the declared types of its
    /// columns.
    pub fn new(declared: &Vec<Option<Vec<u8>>>) -> (a: StatementAnnex)
        ensures
            a@.open,
            a@.epoch == 0,
            a@.row_epoch == 0,
            a@.bool_columns.len() == declared@.len(),
            forall|i: int|
                0 <= i < declared@.len() ==> #[trigger] a@.bool_columns[i] == declares_bool(
                    bytes_option(declared@[i]),
                ),
    {
        StatementAnnex {
            open: true,
            epoch: 0,
            row_epoch: 0,
            bool_columns: scan_bool_columns(declared),
        }
    }

    pub fn is_open(&self) -> (r: bool)
        ensures
            r == self@.open,
    {
        self.open
    }

    pub fn epoch(&self) -> (r: u64)
        ensures
            r == self@.epoch,
    {
        self.epoch
    }

    pub fn row_epoch(&self) -> (r: u64)
        ensures
            r == self@.row_epoch,
    {
        self.row_epoch
    }

    /// Whether the column holds truth values; none beyond the last does.
    pub fn is_bool(&self, column: usize) -> (r: bool)
        ensures
            r == holds_bool(self@, column as int),
    {
        column < self.bool_columns.len() && self.bool_columns[column]
    }

    /// Starts a new epoch, which invalidates the rows of the one before.
    pub fn bump_epoch(&mut self) -> (epoch: u64)
        requires
            old(self)@.epoch < u64::MAX,
        ensures
            epoch == old(self)@.epoch + 1,
            final(self)@ == (AnnexView { epoch, ..old(self)@ }),
    {
        self.epoch = self.epoch + 1;
        self.epoch
    }

    /// Starts a new row epoch, which invalidates the row before.
    pub fn bump_row_epoch(&mut self) -> (epoch: u64)
        requires
            old(self)@.row_epoch < u64::MAX,
        ensures
            epoch == old(self)@.row_epoch + 1,
            final(self)@ == (AnnexView { row_epoch: epoch, ..old(self)@ }),
    {
        self.row_epoch = self.row_epoch + 1;
        self.row_epoch
    }

    /// Begins a query, before its parameters are bound.
    pub fn begin_query(&mut self) -> (r: Result<u64, Error>)
        requires
            old(self)@.open ==> old(self)@.epoch < u64::MAX,
        ensures
            (final(self)@, outcome(r)) == query_begun(old(self)@),
    {
        if !self.open {
            return Err(Error::State("statement closed".to_owned()));
        }
        Ok(self.bump_epoch())
    }

    /// Begins an execution, before its parameters are bound. A query that runs
    /// on the statement ends.
    pub fn begin_execute(&mut self, statement: &mut Statement, connection: &Connection) -> (r: Result<
        (),
        Error,
    >)
        requires
            connection@.open && old(self)@.open ==> old(self)@.epoch < u64::MAX,
        ensures
            !connection@.open ==> r is Err && r->Err_0@ == ErrorView::State("connection closed"@)
                && final(self)@ == old(self)@ && *final(statement) == *old(statement),
            connection@.open && !old(self)@.open ==> r is Err && r->Err_0@ == ErrorView::State(
                "statement closed"@,
            ) && final(self)@ == old(self)@ && *final(statement) == *old(statement),
            connection@.open && old(self)@.open ==> r is Ok && final(self)@ == query_begun(
                old(self)@,
            ).0 && final(statement).query is Idle,
    {
        if !connection.is_open() {
            return Err(Error::State("connection closed".to_owned()));
        }
        if !self.open {
            return Err(Error::State("statement closed".to_owned()));
        }
        statement.query = QueryState::Idle;
        let _ = self.bump_epoch();
        Ok(())
    }

    /// Closes the statement. Tells whether it has to be finalized.
    pub fn close(&mut self, statement: &mut Statement) -> (finalize: bool)
        ensures
            finalize == old(self)@.open,
            final(self)@ == (AnnexView { open: false, ..old(self)@ }),
            final(statement).query is Idle,
    {
        if statement.is_query_active() {
            statement.query = QueryState::Idle;
        }
        let finalize = self.open;
        self.open = false;
        finalize
    }

    /// Clears the statement when nothing refers to it any more. Tells whether
    /// it has to be finalized now: only if a query runs on it.
    pub fn clear(&mut self, statement: &mut Statement) -> (finalize: bool)
        ensures
            finalize == (old(statement).query is Active && old(self)@.open),
            final(self)@ == (AnnexView {
                open: old(self)@.open && !(old(statement).query is Active),
                ..old(self)@
            }),
            final(statement).query is Idle,
    {
        if statement.is_query_active() {
            statement.query = QueryState::Idle;
            let finalize = self.open;
            self.open = false;
            finalize
        } else {
            false
        }
    }
}

/// Whether a column of the statement holds truth values.
pub open spec fn holds_bool(a: AnnexView, column: int) -> bool {
    0 <= column < a.bool_columns.len() && a.bool_columns[column]
}

/// What follows from the code of one step of an execution.
#[derive(Clone, Copy, Debug, PartialEq, Eq, Structural)]
pub enum Stepped {
    /// There may be more rows.
    Again,
    /// The statement is done.
    Done,
    /// The statement failed with this code.
    Failed(i32),
}

/// What follows from the code of one step of an execution.
pub fn step_outcome(rc: i32) -> (s: Stepped)
    ensures
        s == if rc == SQLITE_ROW {
            Stepped::Again
        } else if rc == SQLITE_DONE {
            Stepped::Done
        } else {
            Stepped::Failed(rc)
        },
{
    if rc == SQLITE_ROW {
        Stepped::Again
    } else if rc == SQLITE_DONE {
        Stepped::Done
    } else {
        Stepped::Failed(rc)
    }
}

/// The number of rows that an execution changed.
pub fn affected_rows(changes: i64) -> (r: Result<i64, Error>)
    ensures
        outcome(r) == if changes < 0 {
            Err(ErrorView::Runtime("execution failed"@))
        } else {
            Ok(changes)
        },
{
    if changes < 0 {
        return Err(Error::Runtime("execution failed".to_owned()));
    }
    Ok(changes)
}

/// A statement that is used again is in another epoch, and one that was closed
/// is not used again.
pub proof fn use_changes_the_epoch(a: AnnexView)
    requires
        a.epoch < u64::MAX,
    ensures
        query_begun(a).1 is Ok ==> query_begun(a).0.epoch != a.epoch,
        query_begun(a).1 is Ok <==> a.open,
        query_begun(AnnexView { open: false, ..a }).1 is Err,
{
}

} // verus!

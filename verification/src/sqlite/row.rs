//! Rows: reading columns, and taking rows apart.

use vstd::prelude::*;
use vstd::utf8::{encode_utf8, valid_utf8};
use crate::console::data::copy_bytes;
use crate::error::{outcome, viewed, Error, ErrorView};
use crate::sqlite::failure::{bytes_option, decode_lossy, lossy_text, SQLITE_ROW};
use crate::sqlite::statement::{
    holds_bool, AnnexView, QueryState, Statement, StatementAnnex,
};
use crate::text::str_eq;
use crate::value::Value;

verus! {

broadcast use vstd::string::group_string_axioms;

/// A value that was read. A floating-point number is carried by its bits.
#[derive(Debug)]
pub enum SqliteValue {
    Null,
    Bool(bool),
    Integer(i64),
    Real(u64),
    Text(String),
    Blob(Vec<u8>),
}

/// The content of a [`SqliteValue`].
pub enum SqliteView {
    Null,
    Bool(bool),
    Integer(i64),
    Real(u64),
    Text(Seq<char>),
    Blob(Seq<u8>),
}

impl View for SqliteValue {
    type V = SqliteView;

    open spec fn view(&self) -> SqliteView {
        match self {
            SqliteValue::Null => SqliteView::Null,
            SqliteValue::Bool(b) => SqliteView::Bool(*b),
            SqliteValue::Integer(n) => SqliteView::Integer(*n),
            SqliteValue::Real(bits) => SqliteView::Real(*bits),
            SqliteValue::Text(s) => SqliteView::Text(s@),
            SqliteValue::Blob(b) => SqliteView::Blob(b@),
        }
    }
}

impl SqliteValue {
    /// Another copy of this value.
    pub fn copy(&self) -> (v: SqliteValue)
        ensures
            v@ == self@,
    {
        match self {
            SqliteValue::Null => SqliteValue::Null,
            SqliteValue::Bool(b) => SqliteValue::Bool(*b),
            SqliteValue::Integer(n) => SqliteValue::Integer(*n),
            SqliteValue::Real(bits) => SqliteValue::Real(*bits),
            SqliteValue::Text(s) => SqliteValue::Text(s.clone()),
            SqliteValue::Blob(b) => SqliteValue::Blob(copy_bytes(b)),
        }
    }
}

/// What the database has in a column of the current row.
#[derive(Debug)]
pub enum Cell {
    Null,
    Integer(i64),
    Float(u64),
    Text(Vec<u8>),
    Blob(Vec<u8>),
    Other,
}

/// The value of a column of a known type. An integer in a column that was
/// declared to hold truth values is one.
pub open spec fn cell_value(cell: Cell, truth: bool) -> SqliteView {
    match cell {
        Cell::Null => SqliteView::Null,
        Cell::Integer(n) => if truth {
            SqliteView::Bool(n != 0)
        } else {
            SqliteView::Integer(n)
        },
        Cell::Float(bits) => SqliteView::Real(bits),
        Cell::Text(bytes) => SqliteView::Text(lossy_text(bytes@)),
        Cell::Blob(bytes) => SqliteView::Blob(bytes@),
        Cell::Other => SqliteView::Null,
    }
}

/// The value to keep of a column.
pub fn column_to_value(cell: &Cell, truth: bool) -> (v: SqliteValue)
    ensures
        v@ == cell_value(*cell, truth),
        *cell matches Cell::Text(bytes) ==> valid_utf8(bytes@) ==> (v@ matches SqliteView::Text(s)
            && encode_utf8(s) == bytes@),
{
    match cell {
        Cell::Null => SqliteValue::Null,
        Cell::Integer(n) => {
            if truth {
                SqliteValue::Bool(*n != 0)
            } else {
                SqliteValue::Integer(*n)
            }
        },
        Cell::Float(bits) => SqliteValue::Real(*bits),
        Cell::Text(bytes) => SqliteValue::Text(decode_lossy(bytes)),
        Cell::Blob(bytes) => SqliteValue::Blob(copy_bytes(bytes)),
        Cell::Other => SqliteValue::Null,
    }
}

/// The columns' names, as far as the database has them.
pub fn column_names(names: &Vec<Option<Vec<u8>>>) -> (v: Vec<Option<String>>)
    ensures
        v@.len() == names@.len(),
        forall|i: int|
            0 <= i < v@.len() ==> name_at(v@, i) == match #[trigger] bytes_option(names@[i]) {
                Some(bytes) => Some(lossy_text(bytes)),
                None => None,
            },
{
    let mut v: Vec<Option<String>> = Vec::new();
    let mut i: usize = 0;
    while i < names.len()
        invariant
            i <= names@.len(),
            v@.len() == i,
            forall|j: int|
                0 <= j < v@.len() ==> name_at(v@, j) == match #[trigger] bytes_option(names@[j]) {
                    Some(bytes) => Some(lossy_text(bytes)),
                    None => None,
                },
        decreases names@.len() - i,
    {
        let ghost before = v@;
        match &names[i] {
            Some(bytes) => v.push(Some(decode_lossy(bytes))),
            None => v.push(None),
        }
        assert forall|j: int| 0 <= j < v@.len() implies name_at(v@, j) == match #[trigger] bytes_option(
            names@[j],
        ) {
            Some(bytes) => Some(lossy_text(bytes)),
            None => None,
        } by {
            if j < i {
                assert(name_at(v@, j) == name_at(before, j));
            }
        }
        i = i + 1;
    }
    v
}

/// The name of a column, if it has one.
pub open spec fn name_at(names: Seq<Option<String>>, i: int) -> Option<Seq<char>> {
    match names[i] {
        Some(name) => Some(name@),
        None => None,
    }
}

/// The first column with the name, from the column `from` on; the number of
/// columns if there is none.
pub open spec fn column_named(names: Seq<Option<String>>, name: Seq<char>, from: int) -> int
    decreases names.len() - from,
{
    if from < 0 || from >= names.len() || name_at(names, from) == Some(name) {
        from
    } else {
        column_named(names, name, from + 1)
    }
}

/// The column that is found has the name, and no column before it does.
pub proof fn first_column_is_found(names: Seq<Option<String>>, name: Seq<char>, from: int)
    requires
        0 <= from <= names.len(),
    ensures
        from <= column_named(names, name, from) <= names.len(),
        column_named(names, name, from) < names.len() ==> name_at(
            names,
            column_named(names, name, from),
        ) == Some(name),
        forall|i: int|
            from <= i < column_named(names, name, from) ==> name_at(names, i) != Some(name),
    decreases names.len() - from,
{
    if from < names.len() && name_at(names, from) != Some(name) {
        first_column_is_found(names, name, from + 1);
    }
}

/// The first column with the name.
pub fn column_for_name(names: &Vec<Option<String>>, name: &str) -> (r: Option<usize>)
    ensures
        match r {
            Some(i) => i == column_named(names@, name@, 0) && i < names@.len(),
            None => column_named(names@, name@, 0) == names@.len(),
        },
{
    let mut i: usize = 0;
    while i < names.len()
        invariant
            i <= names@.len(),
            column_named(names@, name@, 0) == column_named(names@, name@, i as int),
        decreases names@.len() - i,
    {
        match &names[i] {
            Some(found) => {
                if str_eq(found.as_str(), name) {
                    return Some(i);
                }
            },
            None => {},
        }
        i = i + 1;
    }
    None
}

/// A row's data: what the statement has while the row is current, or a copy.
#[derive(Debug)]
pub enum RowData {
    Ref(u64),
    Owned(Vec<SqliteValue>),
}

/// A row that a query gave.
#[derive(Debug)]
pub struct Row {
    pub epoch: u64,
    pub data: RowData,
}

/// What the statement has in a column: beyond the last column there is
/// nothing.
pub open spec fn cell_at(cells: Seq<Cell>, i: int) -> Cell {
    if 0 <= i < cells.len() {
        cells[i]
    } else {
        Cell::Null
    }
}

/// The value of a row's column. A row that was not copied can be read only
/// while it is the current one.
pub open spec fn row_value(row: Row, a: AnnexView, cells: Seq<Cell>, i: int) -> Result<
    Option<SqliteView>,
    ErrorView,
> {
    match row.data {
        RowData::Ref(epoch) => if epoch != a.row_epoch {
            Err(ErrorView::Concurrency("row data invalidated by iterator advancing"@))
        } else if cell_at(cells, i) is Other {
            Err(ErrorView::Runtime("unsupported sqlite type"@))
        } else {
            Ok(Some(cell_value(cell_at(cells, i), holds_bool(a, i))))
        },
        RowData::Owned(values) => if 0 <= i < values@.len() {
            Ok(Some(values@[i]@))
        } else {
            Ok(None)
        },
    }
}

/// The content of an optional value that was read.
pub open spec fn read_view(r: Result<Option<SqliteValue>, Error>) -> Result<
    Option<SqliteView>,
    ErrorView,
> {
    match r {
        Ok(Some(v)) => Ok(Some(v@)),
        Ok(None) => Ok(None),
        Err(e) => Err(e@),
    }
}

/// The value of a row's column.
pub fn get(row: &Row, annex: &StatementAnnex, cells: &Vec<Cell>, i: usize) -> (r: Result<
    Option<SqliteValue>,
    Error,
>)
    ensures
        read_view(r) == row_value(*row, annex@, cells@, i as int),
{
    match &row.data {
        RowData::Ref(epoch) => {
            if *epoch != annex.row_epoch() {
                return Err(
                    Error::Concurrency("row data invalidated by iterator advancing".to_owned()),
                );
            }
            if i >= cells.len() {
                return Ok(Some(SqliteValue::Null));
            }
            match &cells[i] {
                Cell::Other => Err(Error::Runtime("unsupported sqlite type".to_owned())),
                cell => Ok(Some(column_to_value(cell, annex.is_bool(i)))),
            }
        },
        RowData::Owned(values) => {
            if i < values.len() {
                Ok(Some(values[i].copy()))
            } else {
                Ok(None)
            }
        },
    }
}

/// Whether a row can be read: its statement was not used again since, and is
/// still open.
pub open spec fn row_problem(epoch: u64, a: AnnexView) -> Result<(), ErrorView> {
    if a.epoch != epoch {
        Err(ErrorView::Concurrency("iterator invalidated by statement reuse"@))
    } else if !a.open {
        Err(ErrorView::State("statement closed"@))
    } else {
        Ok(())
    }
}

/// Checks that a row of the epoch `epoch` can be read.
pub fn check_row(epoch: u64, annex: &StatementAnnex) -> (r: Result<(), Error>)
    ensures
        outcome(r) == row_problem(epoch, annex@),
{
    if annex.epoch() != epoch {
        return Err(Error::Concurrency("iterator invalidated by statement reuse".to_owned()));
    }
    if !annex.is_open() {
        return Err(Error::State("statement closed".to_owned()));
    }
    Ok(())
}

/// The rows of a query.
#[derive(Clone, Copy, Debug, PartialEq, Eq, Structural)]
pub struct Rows {
    pub epoch: u64,
}

/// A row being fetched: the row epoch it gets, and whether it is copied.
#[derive(Clone, Copy, Debug, PartialEq, Eq, Structural)]
pub struct Fetch {
    pub row_epoch: u64,
    pub owned: bool,
}

impl Rows {
    /// The rows of a query that was begun in the epoch `epoch`, once its
    /// parameters were bound. Where one could not be bound, whatever ran
    /// before on the statement stays as it is.
    pub fn open(statement: &mut Statement, epoch: u64, bound: Result<(), Error>) -> (r: Result<
        Rows,
        Error,
    >)
        ensures
            match bound {
                Ok(()) => r == Ok::<Rows, Error>(Rows { epoch }) && final(statement).query == (
                QueryState::Active { owned: false }),
                Err(e) => r == Err::<Rows, Error>(e) && *final(statement) == *old(statement),
            },
    {
        match bound {
            Ok(()) => {
                statement.activate();
                Ok(Rows { epoch })
            },
            Err(e) => Err(e),
        }
    }

    /// Begins to fetch the next row, which invalidates the row before unless
    /// it was copied.
    pub fn begin_next(&self, statement: &Statement, annex: &mut StatementAnnex) -> (r: Result<
        Fetch,
        Error,
    >)
        requires
            row_problem(self.epoch, old(annex)@) is Ok ==> old(annex)@.row_epoch < u64::MAX,
        ensures
            match row_problem(self.epoch, old(annex)@) {
                Err(e) => r is Err && r->Err_0@ == e && final(annex)@ == old(annex)@,
                Ok(()) => {
                    &&& r is Ok
                    &&& r->Ok_0 == (Fetch {
                        row_epoch: (old(annex)@.row_epoch + 1) as u64,
                        owned: statement.query == (QueryState::Active { owned: true }),
                    })
                    &&& final(annex)@ == (AnnexView { row_epoch: r->Ok_0.row_epoch, ..old(annex)@ })
                },
            },
    {
        match check_row(self.epoch, annex) {
            Err(e) => return Err(e),
            Ok(()) => {},
        }
        let owned = match statement.query {
            QueryState::Active { owned } => owned,
            QueryState::Idle => false,
        };
        let row_epoch: u64 = annex.bump_row_epoch();
        Ok(Fetch { row_epoch, owned })
    }

    /// Ends the fetching with the code of the step: a row, or the end of the
    /// query.
    pub fn end_next(
        &self,
        fetch: Fetch,
        rc: i32,
        cells: &Vec<Cell>,
        statement: &mut Statement,
        annex: &StatementAnnex,
    ) -> (r: Option<Row>)
        ensures
            rc == SQLITE_ROW ==> {
                &&& r is Some
                &&& r->0.epoch == self.epoch
                &&& *final(statement) == *old(statement)
                &&& !fetch.owned ==> r->0.data == RowData::Ref(fetch.row_epoch)
                &&& fetch.owned ==> r->0.data is Owned && r->0.data->Owned_0@.len() == cells@.len()
                    && forall|i: int|
                    0 <= i < cells@.len() ==> #[trigger] r->0.data->Owned_0@[i]@ == cell_value(
                        cells@[i],
                        holds_bool(annex@, i),
                    )
            },
            rc != SQLITE_ROW ==> r is None && final(statement).query is Idle,
    {
        if rc != SQLITE_ROW {
            statement.query = QueryState::Idle;
            return None;
        }
        if !fetch.owned {
            return Some(Row { epoch: self.epoch, data: RowData::Ref(fetch.row_epoch) });
        }
        let mut values: Vec<SqliteValue> = Vec::new();
        let mut i: usize = 0;
        while i < cells.len()
            invariant
                i <= cells@.len(),
                values@.len() == i,
                forall|j: int|
                    0 <= j < i ==> #[trigger] values@[j]@ == cell_value(
                        cells@[j],
                        holds_bool(annex@, j),
                    ),
            decreases cells@.len() - i,
        {
            values.push(column_to_value(&cells[i], annex.is_bool(i)));
            i = i + 1;
        }
        Some(Row { epoch: self.epoch, data: RowData::Owned(values) })
    }
}

/// A number of 64 bits cut to the low 32 bits, with their sign.
pub open spec fn cut_to_32(n: int) -> int {
    let low = n % 0x1_0000_0000;
    if low < 0x8000_0000 {
        low
    } else {
        low - 0x1_0000_0000
    }
}

/// A number of 64 bits cut to the low 32 bits, with their sign.
fn cut(n: i64) -> (r: i64)
    ensures
        r == cut_to_32(n as int),
{
    let shifted: i128 = n as i128 + 0x8000_0000_0000_0000i128;
    let low: u64 = (shifted as u128 % 0x1_0000_0000u128) as u64;
    proof {
        assert(0x8000_0000_0000_0000int == 0x8000_0000int * 0x1_0000_0000int);
        vstd::arithmetic::div_mod::lemma_mod_multiples_vanish(
            0x8000_0000,
            n as int,
            0x1_0000_0000,
        );
        assert(shifted == 0x1_0000_0000 * 0x8000_0000 + n);
    }
    if low < 0x8000_0000 {
        low as i64
    } else {
        low as i64 - 0x1_0000_0000
    }
}

/// The column that a key stands for.
pub open spec fn key_column(key: Value, names: Seq<Option<String>>) -> Result<int, ErrorView> {
    match key {
        Value::Int(n) if i64::MIN <= n <= i64::MAX => if cut_to_32(n as int) < 0 {
            Err(ErrorView::Index)
        } else {
            Ok(cut_to_32(n as int))
        },
        Value::Str(name) => if column_named(names, name@, 0) < names.len() {
            Ok(column_named(names, name@, 0))
        } else {
            Err(ErrorView::Index)
        },
        _ => Err(ErrorView::Type("expected int or str for column key"@)),
    }
}

/// What a row has under a key.
pub open spec fn indexed(
    row: Row,
    a: AnnexView,
    names: Seq<Option<String>>,
    cells: Seq<Cell>,
    key: Value,
) -> Result<SqliteView, ErrorView> {
    match row_problem(row.epoch, a) {
        Err(e) => Err(e),
        Ok(()) => match key_column(key, names) {
            Err(e) => Err(e),
            Ok(i) => match row_value(row, a, cells, i) {
                Err(e) => Err(e),
                Ok(None) => Err(ErrorView::Index),
                Ok(Some(v)) => Ok(v),
            },
        },
    }
}

impl Row {
    /// What the row has under a key: a column's number or its name.
    pub fn index(
        &self,
        annex: &StatementAnnex,
        names: &Vec<Option<String>>,
        cells: &Vec<Cell>,
        key: &Value,
    ) -> (r: Result<SqliteValue, Error>)
        ensures
            viewed(r) == indexed(*self, annex@, names@, cells@, *key),
    {
        match check_row(self.epoch, annex) {
            Err(e) => return Err(e),
            Ok(()) => {},
        }
        let column: usize = match key {
            Value::Int(n) if i64::MIN as i128 <= *n && *n <= i64::MAX as i128 => {
                let column: i64 = cut(*n as i64);
                if column < 0 {
                    return Err(Error::Index);
                }
                column as usize
            },
            Value::Str(name) => match column_for_name(names, name.as_str()) {
                Some(i) => i,
                None => return Err(Error::Index),
            },
            _ => return Err(Error::Type("expected int or str for column key".to_owned())),
        };
        match get(self, annex, cells, column) {
            Err(e) => Err(e),
            Ok(None) => Err(Error::Index),
            Ok(Some(v)) => Ok(v),
        }
    }
}

/// A copied row reads the same however far its query has advanced.
pub proof fn copies_outlive_the_row(
    row: Row,
    a: AnnexView,
    b: AnnexView,
    cells: Seq<Cell>,
    others: Seq<Cell>,
    i: int,
)
    requires
        row.data is Owned,
    ensures
        row_value(row, a, cells, i) == row_value(row, b, others, i),
{
}

/// A row that was not copied cannot be read once the next one was asked for.
pub proof fn references_end_with_the_row(row: Row, a: AnnexView, cells: Seq<Cell>, i: int)
    requires
        a.row_epoch < u64::MAX,
        row.data == RowData::Ref(a.row_epoch),
    ensures
        row_value(
            row,
            AnnexView { row_epoch: (a.row_epoch + 1) as u64, ..a },
            cells,
            i,
        ) == Err::<Option<SqliteView>, ErrorView>(
            ErrorView::Concurrency("row data invalidated by iterator advancing"@),
        ),
{
}

} // verus!

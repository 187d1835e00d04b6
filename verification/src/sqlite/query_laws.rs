//! What a query keeps of the values that go into a database and come out of
//! it.

use vstd::prelude::*;
use vstd::utf8::encode_utf8;
use crate::error::ErrorView;
use crate::sqlite::bind::{
    binding_result, bound_value, good_args, BindArg, BindValueView, BindingView,
};
use crate::sqlite::failure::lossy_text;
use crate::sqlite::open::first_zero_is_first;
use crate::sqlite::row::{
    cell_value, column_named, first_column_is_found, indexed, name_at, row_value, Cell, Row,
    RowData, SqliteView,
};
use crate::sqlite::statement::AnnexView;
use crate::sqlite::unpack::{
    column_given, first_free, first_free_is_first, item_step, GivenView, Source, UnpackItem,
};
use crate::value::Value;

verus! {

broadcast use vstd::string::group_string_axioms;

/// Whether a text of the database can be decoded without loss.
pub open spec fn lossless(bytes: Seq<u8>) -> bool {
    encode_utf8(lossy_text(bytes)) == bytes
}

/// Whether a value is what a cell of the database holds: null, the same
/// integer, the same bits of a floating-point number, the same text or the
/// same bytes. In a column of truth values an integer is whether it is not
/// zero.
pub open spec fn reads(cell: Cell, truth: bool, v: SqliteView) -> bool {
    match cell {
        Cell::Null => v is Null,
        Cell::Integer(n) => if truth {
            v matches SqliteView::Bool(b) && (b <==> n != 0)
        } else {
            v matches SqliteView::Integer(m) && m == n
        },
        Cell::Float(bits) => v matches SqliteView::Real(b) && b == bits,
        Cell::Text(bytes) => v matches SqliteView::Text(s) && (lossless(bytes@) ==> encode_utf8(s)
            == bytes@),
        Cell::Blob(bytes) => v matches SqliteView::Blob(b) && b == bytes@,
        Cell::Other => v is Null,
    }
}

/// Reading a cell gives what it holds.
pub proof fn cells_are_read_as_they_are(cell: Cell, truth: bool)
    ensures
        reads(cell, truth, cell_value(cell, truth)),
        cell_value(cell, truth) is Null <==> cell is Null || cell is Other,
{
}

/// Whether two cells hold the same.
pub open spec fn same_cell(a: Cell, b: Cell) -> bool {
    match (a, b) {
        (Cell::Null, Cell::Null) => true,
        (Cell::Integer(m), Cell::Integer(n)) => m == n,
        (Cell::Float(m), Cell::Float(n)) => m == n,
        (Cell::Text(s), Cell::Text(t)) => s@ == t@,
        (Cell::Blob(s), Cell::Blob(t)) => s@ == t@,
        _ => false,
    }
}

/// Cells that hold different things are read as different values, in a column
/// that is not one of truth values.
pub proof fn cells_are_told_apart(a: Cell, b: Cell)
    requires
        !(a is Other),
        !(b is Other),
        a matches Cell::Text(s) ==> lossless(s@),
        b matches Cell::Text(s) ==> lossless(s@),
        cell_value(a, false) == cell_value(b, false),
    ensures
        same_cell(a, b),
{
}

/// Whether a cell holds what was bound: the database keeps values as they are.
pub open spec fn keeps(v: BindValueView, cell: Cell) -> bool {
    match v {
        BindValueView::Null => cell is Null,
        BindValueView::Integer(n) => cell == Cell::Integer(n),
        BindValueView::Double(bits) => cell == Cell::Float(bits),
        BindValueView::Text(s) => cell matches Cell::Text(bytes) && bytes@ == encode_utf8(s)
            && lossless(bytes@),
        BindValueView::Blob(b) => cell matches Cell::Blob(bytes) && bytes@ == b,
    }
}

/// A value that is bound and comes back is read as itself. Truth values come
/// back as such from columns that were declared to hold them, and as one or
/// zero from others.
pub proof fn bound_values_come_back(name: Seq<char>, value: Value, v: BindValueView, cell: Cell)
    requires
        bound_value(name, value) == Ok::<BindValueView, ErrorView>(v),
        keeps(v, cell),
    ensures
        match value {
            Value::Nil => cell_value(cell, false) is Null && cell_value(cell, true) is Null,
            Value::Int(n) => cell_value(cell, false) matches SqliteView::Integer(m) && m == n,
            Value::Float(bits) => cell_value(cell, false) == SqliteView::Real(bits),
            Value::Str(s) => cell_value(cell, false) == SqliteView::Text(s@),
            Value::Bin(b) => cell_value(cell, false) == SqliteView::Blob(b@),
            Value::Bool(b) => cell_value(cell, true) == SqliteView::Bool(b) && cell_value(
                cell,
                false,
            ) == SqliteView::Integer(
                if b {
                    1
                } else {
                    0
                },
            ),
            _ => false,
        },
{
    if let Value::Str(s) = value {
        let bytes = cell->Text_0@;
        vstd::utf8::encode_utf8_decode_utf8(s@);
        vstd::utf8::encode_utf8_decode_utf8(lossy_text(bytes));
    }
}

/// The database takes nil, truth values, integers of 64 bits, floating-point
/// numbers, binary data, and text that holds no zero and is not too long; and
/// nothing else.
pub proof fn simple_values_can_be_bound(name: Seq<char>, value: Value)
    ensures
        bound_value(name, value) is Ok <==> match value {
            Value::Nil => true,
            Value::Bool(_) => true,
            Value::Int(n) => i64::MIN <= n <= i64::MAX,
            Value::Float(_) => true,
            Value::Bin(_) => true,
            Value::Str(s) => encode_utf8(s@).len() <= i32::MAX && forall|i: int|
                0 <= i < s@.len() ==> (#[trigger] s@[i]) != '\0',
            _ => false,
        },
{
    if let Value::Str(s) = value {
        if s@.contains('\0') {
            let i = choose|i: int| 0 <= i < s@.len() && s@[i] == '\0';
            assert(s@[i] == '\0');
        } else {
            assert forall|i: int| 0 <= i < s@.len() implies (#[trigger] s@[i]) != '\0' by {
                assert(s@.contains(s@[i]));
            }
        }
    }
}

/// An argument is bound to the parameter of its name, with what the argument
/// means alone; arguments have to be named.
pub proof fn arguments_are_bound_by_name(arg: BindArg, b: BindingView)
    requires
        binding_result(arg) == Ok::<BindingView, ErrorView>(b),
    ensures
        arg matches BindArg::Key(name, value) && b.parameter == seq![':'] + name@ && bound_value(
            name@,
            value,
        ) == Ok::<BindValueView, ErrorView>(b.value) && forall|i: int|
            0 <= i < encode_utf8(b.parameter).len() ==> encode_utf8(b.parameter)[i] != 0,
{
    reveal_strlit(":");
    assert(":"@ =~= seq![':']);
    first_zero_is_first(encode_utf8(b.parameter));
}

/// Arguments are bound from the first on up to the first that is refused.
pub proof fn bindings_stop_at_the_first_refusal(args: Seq<BindArg>)
    ensures
        good_args(args) <= args.len(),
        forall|i: int|
            0 <= i < good_args(args) ==> binding_result(#[trigger] args[i]) is Ok,
        good_args(args) < args.len() ==> binding_result(args[good_args(args) as int]) is Err,
    decreases args.len(),
{
    if args.len() > 0 && binding_result(args[0]) is Ok {
        let rest = args.skip(1);
        bindings_stop_at_the_first_refusal(rest);
        assert forall|i: int| 0 <= i < good_args(args) implies binding_result(#[trigger] args[i])
            is Ok by {
            if i > 0 {
                assert(rest[i - 1] == args[i]);
            }
        }
    }
}

/// Whether a row that was not copied can be read: it is the current one of an
/// open statement that was not used again.
pub open spec fn readable(row: Row, a: AnnexView) -> bool {
    &&& row.epoch == a.epoch
    &&& a.open
    &&& row.data == RowData::Ref(a.row_epoch)
}

/// A column of the current row is read by its number, and by its name if no
/// column before it has the same, and gives what its cell holds.
pub proof fn columns_are_read_by_number_and_name(
    row: Row,
    a: AnnexView,
    names: Seq<Option<String>>,
    cells: Seq<Cell>,
    i: int,
    name: String,
)
    requires
        readable(row, a),
        0 <= i < cells.len(),
        i <= i32::MAX,
        names.len() == cells.len(),
        !(cells[i] is Other),
    ensures
        indexed(row, a, names, cells, Value::Int(i as i128)) matches Ok(v) && reads(
            cells[i],
            i < a.bool_columns.len() && a.bool_columns[i],
            v,
        ),
        name_at(names, i) == Some(name@) && (forall|j: int|
            0 <= j < i ==> #[trigger] name_at(names, j) != Some(name@)) ==> (indexed(
            row,
            a,
            names,
            cells,
            Value::Str(name),
        ) matches Ok(v) && reads(cells[i], i < a.bool_columns.len() && a.bool_columns[i], v)),
{
    first_column_is_found(names, name@, 0);
    let at = column_named(names, name@, 0);
    if name_at(names, i) == Some(name@) && (forall|j: int|
        0 <= j < i ==> #[trigger] name_at(names, j) != Some(name@)) {
        if at < i {
            assert(name_at(names, at) != Some(name@));
        }
        assert(at == i);
    }
}

/// A name that no column has, and a number of no column of a copied row, give
/// nothing.
pub proof fn missing_columns_are_refused(
    row: Row,
    a: AnnexView,
    names: Seq<Option<String>>,
    cells: Seq<Cell>,
    n: i128,
    name: String,
)
    requires
        row.epoch == a.epoch,
        a.open,
    ensures
        i32::MIN <= n < 0 ==> indexed(row, a, names, cells, Value::Int(n)) is Err,
        (row.data matches RowData::Owned(values) && values@.len() <= n <= i32::MAX) ==> indexed(
            row,
            a,
            names,
            cells,
            Value::Int(n),
        ) is Err,
        (forall|j: int| 0 <= j < names.len() ==> #[trigger] name_at(names, j) != Some(name@))
            ==> indexed(row, a, names, cells, Value::Str(name)) is Err,
{
    first_column_is_found(names, name@, 0);
    let at = column_named(names, name@, 0);
    if at < names.len() {
        assert(name_at(names, at) == Some(name@));
    }
}

/// A part of a pattern that asks for a name gets the column of that name, if
/// it was not taken, and takes it.
pub proof fn named_parts_get_their_column(
    source: Source,
    consumed: Seq<bool>,
    i: int,
    name: String,
    default: bool,
)
    requires
        consumed.len() == source.names.len(),
        0 <= i < consumed.len(),
        name_at(source.names, i) == Some(name@),
        forall|j: int| 0 <= j < i ==> #[trigger] name_at(source.names, j) != Some(name@),
    ensures
        ({
            let (after, r) = item_step(source, consumed, UnpackItem::SymKey { name, default });
            if consumed[i] {
                after == consumed && (if default {
                    r matches Ok(g) && g is Default
                } else {
                    r is Err
                })
            } else {
                &&& after == consumed.update(i, true)
                &&& row_value(source.row, source.annex, source.cells, i) matches Ok(Some(v)) ==> (
                r matches Ok(GivenView::Value(g)) && g == v)
            }
        }),
{
    first_column_is_found(source.names, name@, 0);
    let at = column_named(source.names, name@, 0);
    if at < i {
        assert(name_at(source.names, at) != Some(name@));
    }
    assert(at == i);
}

/// A part of a pattern that asks for the next position gets the first column
/// that was not taken.
pub proof fn positions_get_the_first_column_left(
    source: Source,
    consumed: Seq<bool>,
    i: int,
    default: bool,
)
    requires
        0 <= i < consumed.len(),
        !consumed[i],
        forall|j: int| 0 <= j < i ==> #[trigger] consumed[j],
    ensures
        ({
            let (after, r) = item_step(source, consumed, UnpackItem::Pos { default });
            &&& after == consumed.update(i, true)
            &&& row_value(source.row, source.annex, source.cells, i) matches Ok(Some(v)) ==> (
            r matches Ok(GivenView::Value(g)) && g == v)
        }),
{
    first_free_is_first(consumed, 0);
    let at = first_free(consumed, 0);
    if at > i {
        assert(consumed[i]);
    }
    if at < i {
        assert(consumed[at]);
    }
    assert(column_given(source, i) == column_given(source, at));
}

} // verus!

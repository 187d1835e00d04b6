//! Taking rows apart: by position, by name, and column by column.

use vstd::prelude::*;
use crate::error::{Error, ErrorView};
use crate::sqlite::row::{
    check_row, column_for_name, column_named, first_column_is_found, get, name_at, row_problem,
    row_value, Cell, Row, RowData, SqliteValue, SqliteView,
};
use crate::sqlite::statement::{AnnexView, StatementAnnex};
use crate::value::Value;

verus! {

broadcast use vstd::string::group_string_axioms;

/// One part of a pattern that a row is taken apart with. A part may have a
/// default for when there is no column for it.
#[derive(Debug)]
pub enum UnpackItem {
    Pos { default: bool },
    SymKey { name: String, default: bool },
    ConstKey { key: Value, default: bool },
    Rest,
}

/// What a part of a pattern gets.
#[derive(Debug)]
pub enum Given {
    Value(SqliteValue),
    Default,
    Rest,
}

/// The content of a [`Given`].
pub enum GivenView {
    Value(SqliteView),
    Default,
    Rest,
}

impl View for Given {
    type V = GivenView;

    open spec fn view(&self) -> GivenView {
        match self {
            Given::Value(v) => GivenView::Value(v@),
            Given::Default => GivenView::Default,
            Given::Rest => GivenView::Rest,
        }
    }
}

pub open spec fn given_view(g: Given) -> GivenView {
    g@
}

/// What the parts of a pattern get.
pub open spec fn givens(v: Seq<Given>) -> Seq<GivenView> {
    v.map_values(|g: Given| given_view(g))
}

/// What a row is read from: the row, its statement, and the columns that the
/// statement has now.
pub struct Source {
    pub row: Row,
    pub annex: AnnexView,
    pub names: Seq<Option<String>>,
    pub cells: Seq<Cell>,
}

/// The first column from `from` on that was not taken; their number if all
/// were.
pub open spec fn first_free(consumed: Seq<bool>, from: int) -> int
    decreases consumed.len() - from,
{
    if from < 0 || from >= consumed.len() || !consumed[from] {
        from
    } else {
        first_free(consumed, from + 1)
    }
}

/// The column that is found was not taken, and all before it were.
pub proof fn first_free_is_first(consumed: Seq<bool>, from: int)
    requires
        0 <= from <= consumed.len(),
    ensures
        from <= first_free(consumed, from) <= consumed.len(),
        first_free(consumed, from) < consumed.len() ==> !consumed[first_free(consumed, from)],
        forall|i: int| from <= i < first_free(consumed, from) ==> consumed[i],
    decreases consumed.len() - from,
{
    if from < consumed.len() && consumed[from] {
        first_free_is_first(consumed, from + 1);
    }
}

/// The first column from `from` on that was not taken.
fn find_free(consumed: &Vec<bool>, from: usize) -> (i: usize)
    requires
        from <= consumed@.len(),
    ensures
        i == first_free(consumed@, from as int),
        from <= i <= consumed@.len(),
{
    let mut i: usize = from;
    while i < consumed.len() && consumed[i]
        invariant
            from <= i <= consumed@.len(),
            first_free(consumed@, from as int) == first_free(consumed@, i as int),
        decreases consumed@.len() - i,
    {
        i = i + 1;
    }
    i
}

/// What taking a column gives.
pub open spec fn column_given(source: Source, i: int) -> Result<GivenView, ErrorView> {
    match row_value(source.row, source.annex, source.cells, i) {
        Err(e) => Err(e),
        Ok(Some(v)) => Ok(GivenView::Value(v)),
        Ok(None) => Ok(GivenView::Default),
    }
}

/// The columns taken, and what the part gets.
pub type Step = (Seq<bool>, Result<GivenView, ErrorView>);

/// Taking the column `i`.
pub open spec fn taking(source: Source, consumed: Seq<bool>, i: int) -> Step {
    (consumed.update(i, true), column_given(source, i))
}

/// The default of a part that has no column, or the error that it has none.
pub open spec fn or_default(consumed: Seq<bool>, default: bool, error: ErrorView) -> Step {
    (
        consumed,
        if default {
            Ok(GivenView::Default)
        } else {
            Err(error)
        },
    )
}

/// What a part that asks for the name `key` does.
pub open spec fn by_name(source: Source, consumed: Seq<bool>, key: Seq<char>, default: bool) -> Step {
    let i = column_named(source.names, key, 0);
    if i < source.names.len() && !consumed[i] {
        taking(source, consumed, i)
    } else {
        or_default(consumed, default, ErrorView::MissingKey(key))
    }
}

/// What one part of a pattern does.
pub open spec fn item_step(source: Source, consumed: Seq<bool>, item: UnpackItem) -> Step {
    match item {
        UnpackItem::Pos { default } => {
            let i = first_free(consumed, 0);
            if i < consumed.len() {
                taking(source, consumed, i)
            } else {
                or_default(
                    consumed,
                    default,
                    ErrorView::MissingPositional(source.names.len() as int),
                )
            }
        },
        UnpackItem::SymKey { name, default } => by_name(source, consumed, name@, default),
        UnpackItem::ConstKey { key, default } => match key {
            Value::Int(n) if i64::MIN <= n <= i64::MAX => if !(i32::MIN <= n <= i32::MAX) {
                (consumed, Err(ErrorView::Overflow))
            } else if n < 0 || consumed[n as int] {
                or_default(consumed, default, ErrorView::MissingIndex(n as i64))
            } else {
                taking(source, consumed, n as int)
            },
            Value::Str(name) => by_name(source, consumed, name@, default),
            _ => (consumed, Err(ErrorView::Type("expected int or str for column key"@))),
        },
        UnpackItem::Rest => (consumed, Ok(GivenView::Rest)),
    }
}

/// Whether the part asks for a column that there is, if it asks by number.
pub open spec fn in_bounds(item: UnpackItem, count: int) -> bool {
    item matches UnpackItem::ConstKey { key: Value::Int(n), .. } ==> (0 <= n <= i32::MAX ==> n
        < count)
}

/// The columns taken, and what the parts get.
pub type Unpacked = (Seq<bool>, Result<Seq<GivenView>, ErrorView>);

/// What the first `n` parts of a pattern do, one after the other.
pub open spec fn unpacked(
    source: Source,
    consumed: Seq<bool>,
    items: Seq<UnpackItem>,
    n: nat,
) -> Unpacked
    decreases n,
{
    if n == 0 {
        (consumed, Ok(Seq::empty()))
    } else {
        let (before, r) = unpacked(source, consumed, items, (n - 1) as nat);
        match r {
            Err(e) => (before, Err(e)),
            Ok(v) => {
                let (after, one) = item_step(source, before, items[n - 1]);
                match one {
                    Err(e) => (after, Err(e)),
                    Ok(g) => (after, Ok(v.push(g))),
                }
            },
        }
    }
}

/// The error if a column is left that an exhaustive pattern did not take.
pub open spec fn left_over(consumed: Seq<bool>, names: Seq<Option<String>>) -> Option<ErrorView> {
    let i = first_free(consumed, 0);
    if i >= consumed.len() {
        None
    } else {
        match name_at(names, i) {
            Some(name) => Some(ErrorView::UnexpectedKey(name)),
            None => Some(ErrorView::UnexpectedPositional(i)),
        }
    }
}

/// What a whole pattern does.
pub open spec fn pattern_result(
    source: Source,
    consumed: Seq<bool>,
    items: Seq<UnpackItem>,
    exhaustive: bool,
) -> Unpacked {
    let (after, r) = unpacked(source, consumed, items, items.len());
    match r {
        Err(e) => (after, Err(e)),
        Ok(v) => match left_over(after, source.names) {
            Some(e) => if exhaustive {
                (after, Err(e))
            } else {
                (after, Ok(v))
            },
            None => (after, Ok(v)),
        },
    }
}

/// Whether what the row is read from fits together: every column has a name or
/// lacks one, and a copied row has every column.
pub open spec fn source_fits(source: Source) -> bool {
    source.row.data matches RowData::Owned(values) ==> values@.len() == source.names.len()
}

/// An error stays the result, and the columns taken stay taken.
proof fn lemma_unpacked_error(
    source: Source,
    consumed: Seq<bool>,
    items: Seq<UnpackItem>,
    n: nat,
    m: nat,
)
    requires
        n <= m,
        unpacked(source, consumed, items, n).1 is Err,
    ensures
        unpacked(source, consumed, items, m) == unpacked(source, consumed, items, n),
    decreases m,
{
    if n < m {
        lemma_unpacked_error(source, consumed, items, n, (m - 1) as nat);
    }
}

/// The content of what a pattern gives.
pub open spec fn given_result(r: Result<Vec<Given>, Error>) -> Result<Seq<GivenView>, ErrorView> {
    match r {
        Ok(v) => Ok(givens(v@)),
        Err(e) => Err(e@),
    }
}

/// The content of what a part gives.
pub open spec fn one_result(r: Result<Given, Error>) -> Result<GivenView, ErrorView> {
    match r {
        Ok(g) => Ok(g@),
        Err(e) => Err(e@),
    }
}

/// What a row is read from, as values.
pub open spec fn source_of(
    row: Row,
    annex: StatementAnnex,
    names: Seq<Option<String>>,
    cells: Seq<Cell>,
) -> Source {
    Source { row, annex: annex@, names, cells }
}

/// Takes a column.
fn take_column(
    row: &Row,
    annex: &StatementAnnex,
    names: &Vec<Option<String>>,
    cells: &Vec<Cell>,
    consumed: &mut Vec<bool>,
    i: usize,
) -> (r: Result<Given, Error>)
    requires
        i < old(consumed)@.len(),
    ensures
        (final(consumed)@, one_result(r)) == taking(
            source_of(*row, *annex, names@, cells@),
            old(consumed)@,
            i as int,
        ),
        final(consumed)@.len() == old(consumed)@.len(),
{
    consumed.set(i, true);
    match get(row, annex, cells, i) {
        Err(e) => Err(e),
        Ok(Some(v)) => Ok(Given::Value(v)),
        Ok(None) => Ok(Given::Default),
    }
}

/// Takes the column with a name.
fn take_named(
    row: &Row,
    annex: &StatementAnnex,
    names: &Vec<Option<String>>,
    cells: &Vec<Cell>,
    consumed: &mut Vec<bool>,
    key: &String,
    default: bool,
) -> (r: Result<Given, Error>)
    requires
        names@.len() == old(consumed)@.len(),
    ensures
        (final(consumed)@, one_result(r)) == by_name(
            source_of(*row, *annex, names@, cells@),
            old(consumed)@,
            key@,
            default,
        ),
        final(consumed)@.len() == old(consumed)@.len(),
{
    if let Some(i) = column_for_name(names, key.as_str()) {
        if !consumed[i] {
            return take_column(row, annex, names, cells, consumed, i);
        }
    }
    if default {
        Ok(Given::Default)
    } else {
        Err(Error::MissingKey(key.clone()))
    }
}

/// Does what one part of a pattern says.
fn unpack_item(
    row: &Row,
    annex: &StatementAnnex,
    names: &Vec<Option<String>>,
    cells: &Vec<Cell>,
    consumed: &mut Vec<bool>,
    item: &UnpackItem,
) -> (r: Result<Given, Error>)
    requires
        names@.len() == old(consumed)@.len(),
        in_bounds(*item, names@.len() as int),
    ensures
        (final(consumed)@, one_result(r)) == item_step(
            source_of(*row, *annex, names@, cells@),
            old(consumed)@,
            *item,
        ),
        final(consumed)@.len() == old(consumed)@.len(),
{
    match item {
        UnpackItem::Pos { default } => {
            let i: usize = find_free(consumed, 0);
            if i < consumed.len() {
                take_column(row, annex, names, cells, consumed, i)
            } else if *default {
                Ok(Given::Default)
            } else {
                Err(Error::MissingPositional(names.len()))
            }
        },
        UnpackItem::SymKey { name, default } => take_named(
            row,
            annex,
            names,
            cells,
            consumed,
            name,
            *default,
        ),
        UnpackItem::ConstKey { key, default } => match key {
            Value::Int(n) if i64::MIN as i128 <= *n && *n <= i64::MAX as i128 => {
                let n: i64 = *n as i64;
                if n < i32::MIN as i64 || n > i32::MAX as i64 {
                    return Err(Error::Overflow);
                }
                if n < 0 || consumed[n as usize] {
                    if *default {
                        return Ok(Given::Default);
                    }
                    return Err(Error::MissingIndex(n));
                }
                take_column(row, annex, names, cells, consumed, n as usize)
            },
            Value::Str(name) => take_named(row, annex, names, cells, consumed, name, *default),
            _ => Err(Error::Type("expected int or str for column key".to_owned())),
        },
        UnpackItem::Rest => Ok(Given::Rest),
    }
}

/// Takes columns of a row as a pattern says. `consumed` tells which columns
/// were taken before, and afterwards which were taken at all.
pub fn unpack_row(
    row: &Row,
    annex: &StatementAnnex,
    names: &Vec<Option<String>>,
    cells: &Vec<Cell>,
    items: &Vec<UnpackItem>,
    exhaustive: bool,
    consumed: &mut Vec<bool>,
) -> (r: Result<Vec<Given>, Error>)
    requires
        names@.len() == old(consumed)@.len(),
        forall|i: int| 0 <= i < items@.len() ==> in_bounds(#[trigger] items@[i], names@.len() as int),
    ensures
        (final(consumed)@, given_result(r)) == pattern_result(
            source_of(*row, *annex, names@, cells@),
            old(consumed)@,
            items@,
            exhaustive,
        ),
        final(consumed)@.len() == old(consumed)@.len(),
{
    let ghost source = source_of(*row, *annex, names@, cells@);
    let ghost start = consumed@;
    let mut v: Vec<Given> = Vec::new();
    let mut n: usize = 0;
    assert(givens(v@) =~= Seq::<GivenView>::empty());
    while n < items.len()
        invariant
            n <= items@.len(),
            source == source_of(*row, *annex, names@, cells@),
            start == old(consumed)@,
            names@.len() == consumed@.len(),
            names@.len() == start.len(),
            forall|i: int|
                0 <= i < items@.len() ==> in_bounds(#[trigger] items@[i], names@.len() as int),
            unpacked(source, start, items@, n as nat) == (
                consumed@,
                Ok::<Seq<GivenView>, ErrorView>(givens(v@)),
            ),
        decreases items@.len() - n,
    {
        let ghost before = consumed@;
        let ghost v0 = v@;
        match unpack_item(row, annex, names, cells, consumed, &items[n]) {
            Err(e) => {
                proof {
                    lemma_unpacked_error(source, start, items@, (n + 1) as nat, items@.len());
                }
                return Err(e);
            },
            Ok(g) => {
                v.push(g);
                assert(givens(v@) =~= givens(v0).push(g@));
            },
        }
        n = n + 1;
    }
    if exhaustive {
        let i: usize = find_free(consumed, 0);
        if i < consumed.len() {
            return match &names[i] {
                Some(name) => Err(Error::UnexpectedKey(name.clone())),
                None => Err(Error::UnexpectedPositional(i)),
            };
        }
    }
    Ok(v)
}

/// Columns of a row that are left to be taken one by one.
#[derive(Debug)]
pub struct RowIter {
    consumed: Vec<bool>,
    current: usize,
}

impl RowIter {
    #[verifier::type_invariant]
    spec fn inv(self) -> bool {
        self.current <= self.consumed@.len()
    }

    /// Which columns were taken.
    pub closed spec fn taken(self) -> Seq<bool> {
        self.consumed@
    }

    /// The column from which on columns are looked for.
    pub closed spec fn position(self) -> int {
        self.current as int
    }

    /// The columns that a pattern left.
    pub fn new(consumed: Vec<bool>) -> (iter: RowIter)
        ensures
            iter.taken() == consumed@,
            iter.position() == 0,
    {
        RowIter { consumed, current: 0 }
    }

    /// The number of columns, taken or not.
    pub fn columns(&self) -> (n: usize)
        ensures
            n == self.taken().len(),
            self.position() <= n,
    {
        proof {
            use_type_invariant(self);
        }
        self.consumed.len()
    }

    /// Takes columns as a pattern says.
    pub fn unpack(
        &mut self,
        row: &Row,
        annex: &StatementAnnex,
        names: &Vec<Option<String>>,
        cells: &Vec<Cell>,
        items: &Vec<UnpackItem>,
        exhaustive: bool,
    ) -> (r: Result<Vec<Given>, Error>)
        requires
            names@.len() == old(self).taken().len(),
            forall|i: int|
                0 <= i < items@.len() ==> in_bounds(#[trigger] items@[i], names@.len() as int),
        ensures
            final(self).position() == old(self).position(),
            match row_problem(row.epoch, annex@) {
                Err(e) => r is Err && r->Err_0@ == e && final(self).taken() == old(self).taken(),
                Ok(()) => (final(self).taken(), given_result(r)) == pattern_result(
                    source_of(*row, *annex, names@, cells@),
                    old(self).taken(),
                    items@,
                    exhaustive,
                ),
            },
    {
        match check_row(row.epoch, annex) {
            Err(e) => return Err(e),
            Ok(()) => {},
        }
        proof {
            use_type_invariant(&*self);
        }
        let mut consumed: Vec<bool> = copy_flags(&self.consumed);
        let r = unpack_row(row, annex, names, cells, items, exhaustive, &mut consumed);
        self.consumed = consumed;
        r
    }

    /// Takes the next column, if any is left. A column that cannot be read is
    /// not taken.
    pub fn next(&mut self, row: &Row, annex: &StatementAnnex, cells: &Vec<Cell>) -> (r: Result<
        Option<Given>,
        Error,
    >)
        requires
            row.data matches RowData::Owned(values) ==> values@.len() == old(self).taken().len(),
        ensures
            match row_problem(row.epoch, annex@) {
                Err(e) => r is Err && r->Err_0@ == e && *final(self) == *old(self),
                Ok(()) => {
                    let i = first_free(old(self).taken(), old(self).position());
                    if i >= old(self).taken().len() {
                        &&& r == Ok::<Option<Given>, Error>(None)
                        &&& final(self).taken() == old(self).taken()
                        &&& final(self).position() == old(self).taken().len()
                    } else {
                        match row_value(*row, annex@, cells@, i) {
                            Err(e) => r is Err && r->Err_0@ == e && *final(self) == *old(self),
                            Ok(v) => {
                                &&& v is Some
                                &&& r is Ok && r->Ok_0 is Some
                                &&& r->Ok_0->0@ == GivenView::Value(v->0)
                                &&& final(self).taken() == old(self).taken().update(i, true)
                                &&& final(self).position() == i + 1
                            },
                        }
                    }
                },
            },
    {
        match check_row(row.epoch, annex) {
            Err(e) => return Err(e),
            Ok(()) => {},
        }
        proof {
            use_type_invariant(&*self);
            first_free_is_first(self.consumed@, self.current as int);
        }
        let i: usize = find_free(&self.consumed, self.current);
        if i >= self.consumed.len() {
            self.current = self.consumed.len();
            return Ok(None);
        }
        match get(row, annex, cells, i) {
            Err(e) => Err(e),
            Ok(None) => Ok(Some(Given::Default)),
            Ok(Some(v)) => {
                let mut consumed: Vec<bool> = copy_flags(&self.consumed);
                consumed.set(i, true);
                self.consumed = consumed;
                self.current = i + 1;
                Ok(Some(Given::Value(v)))
            },
        }
    }
}

/// Another copy of some flags.
fn copy_flags(flags: &Vec<bool>) -> (v: Vec<bool>)
    ensures
        v@ == flags@,
{
    let mut v: Vec<bool> = Vec::new();
    let mut i: usize = 0;
    while i < flags.len()
        invariant
            i <= flags@.len(),
            v@ == flags@.take(i as int),
        decreases flags@.len() - i,
    {
        v.push(flags[i]);
        assert(flags@.take(i + 1) =~= flags@.take(i as int).push(flags@[i as int]));
        i = i + 1;
    }
    assert(flags@.take(i as int) =~= flags@);
    v
}

impl Row {
    /// Takes the row apart. Whatever the pattern leaves can be taken from the
    /// iterator that comes with what the pattern gave.
    pub fn unpack(
        &self,
        annex: &StatementAnnex,
        names: &Vec<Option<String>>,
        cells: &Vec<Cell>,
        items: &Vec<UnpackItem>,
        exhaustive: bool,
    ) -> (r: Result<(Vec<Given>, RowIter), Error>)
        requires
            forall|i: int|
                0 <= i < items@.len() ==> in_bounds(#[trigger] items@[i], names@.len() as int),
        ensures
            match row_problem(self.epoch, annex@) {
                Err(e) => r is Err && r->Err_0@ == e,
                Ok(()) => {
                    let (consumed, given) = pattern_result(
                        source_of(*self, *annex, names@, cells@),
                        Seq::new(names@.len(), |i: int| false),
                        items@,
                        exhaustive,
                    );
                    match given {
                        Err(e) => r is Err && r->Err_0@ == e,
                        Ok(v) => {
                            &&& r is Ok
                            &&& givens(r->Ok_0.0@) == v
                            &&& r->Ok_0.1.taken() == consumed
                            &&& r->Ok_0.1.position() == 0
                        },
                    }
                },
            },
    {
        match check_row(self.epoch, annex) {
            Err(e) => return Err(e),
            Ok(()) => {},
        }
        let mut consumed: Vec<bool> = Vec::new();
        let mut i: usize = 0;
        while i < names.len()
            invariant
                i <= names@.len(),
                consumed@ == Seq::new(i as nat, |i: int| false),
            decreases names@.len() - i,
        {
            consumed.push(false);
            assert(consumed@ =~= Seq::new((i + 1) as nat, |i: int| false));
            i = i + 1;
        }
        match unpack_row(self, annex, names, cells, items, exhaustive, &mut consumed) {
            Err(e) => Err(e),
            Ok(v) => Ok((v, RowIter::new(consumed))),
        }
    }
}

/// How many columns were taken.
pub open spec fn count_taken(consumed: Seq<bool>) -> nat
    decreases consumed.len(),
{
    if consumed.len() == 0 {
        0
    } else {
        count_taken(consumed.drop_last()) + if consumed.last() {
            1nat
        } else {
            0nat
        }
    }
}

/// How many parts got a column's value.
pub open spec fn count_values(given: Seq<GivenView>) -> nat
    decreases given.len(),
{
    if given.len() == 0 {
        0
    } else {
        count_values(given.drop_last()) + if given.last() is Value {
            1nat
        } else {
            0nat
        }
    }
}

/// Taking a column that was not taken counts one more.
proof fn lemma_count_update(consumed: Seq<bool>, i: int)
    requires
        0 <= i < consumed.len(),
        !consumed[i],
    ensures
        count_taken(consumed.update(i, true)) == count_taken(consumed) + 1,
    decreases consumed.len(),
{
    let after = consumed.update(i, true);
    if i == consumed.len() - 1 {
        assert(after.drop_last() =~= consumed.drop_last());
    } else {
        assert(after.drop_last() =~= consumed.drop_last().update(i, true));
        assert(after.last() == consumed.last());
        lemma_count_update(consumed.drop_last(), i);
    }
}

/// No column is handed out twice: a pattern takes as many columns as it hands
/// out values, and what was taken before stays taken.
pub proof fn columns_are_taken_once(
    source: Source,
    consumed: Seq<bool>,
    items: Seq<UnpackItem>,
    n: nat,
)
    requires
        n <= items.len(),
        consumed.len() == source.names.len(),
        source_fits(source),
        forall|i: int|
            0 <= i < items.len() ==> in_bounds(#[trigger] items[i], source.names.len() as int),
    ensures
        ({
            let (after, r) = unpacked(source, consumed, items, n);
            &&& after.len() == consumed.len()
            &&& forall|i: int| 0 <= i < consumed.len() && consumed[i] ==> after[i]
            &&& r is Ok ==> r->Ok_0.len() == n && count_taken(after) == count_taken(consumed)
                + count_values(r->Ok_0)
        }),
    decreases n,
{
    if n > 0 {
        let m = (n - 1) as nat;
        columns_are_taken_once(source, consumed, items, m);
        let (before, r) = unpacked(source, consumed, items, m);
        if r is Ok {
            let v = r->Ok_0;
            let item = items[n - 1];
            assert(in_bounds(item, source.names.len() as int));
            first_free_is_first(before, 0);
            match item {
                UnpackItem::SymKey { name, .. } => first_column_is_found(source.names, name@, 0),
                UnpackItem::ConstKey { key: Value::Str(name), .. } => first_column_is_found(
                    source.names,
                    name@,
                    0,
                ),
                _ => {},
            }
            let (after, one) = item_step(source, before, item);
            if after != before {
                let i = choose|i: int|
                    0 <= i < before.len() && !before[i] && after == before.update(i, true)
                        && #[trigger] column_given(source, i) == one;
                lemma_count_update(before, i);
            }
            if one is Ok {
                let g = one->Ok_0;
                assert(v.push(g).drop_last() =~= v);
                assert(v.push(g).last() == g);
            }
        }
    }
}

/// A pattern of positions alone gives the columns in their order.
pub proof fn positions_come_in_order(source: Source, items: Seq<UnpackItem>, n: nat)
    requires
        n <= items.len(),
        n <= source.names.len(),
        forall|i: int| 0 <= i < items.len() ==> (#[trigger] items[i]) is Pos,
        forall|i: int| 0 <= i < source.names.len() ==> (#[trigger] column_given(source, i)) is Ok,
    ensures
        ({
            let none = Seq::new(source.names.len(), |i: int| false);
            let (after, r) = unpacked(source, none, items, n);
            &&& after == Seq::new(source.names.len(), |i: int| i < n)
            &&& r is Ok
            &&& r->Ok_0 == Seq::new(n, |i: int| column_given(source, i)->Ok_0)
        }),
    decreases n,
{
    let none = Seq::new(source.names.len(), |i: int| false);
    let (after, r) = unpacked(source, none, items, n);
    if n == 0 {
        assert(after =~= Seq::new(source.names.len(), |i: int| i < n));
        assert(r->Ok_0 =~= Seq::new(n, |i: int| column_given(source, i)->Ok_0));
    } else {
        let m = (n - 1) as nat;
        positions_come_in_order(source, items, m);
        let before = unpacked(source, none, items, m).0;
        first_free_is_first(before, 0);
        let f = first_free(before, 0);
        assert(f == m) by {
            if f < m {
                assert(before[f]);
            }
            if f > m {
                assert(before[m as int]);
            }
        }
        assert(items[m as int] is Pos);
        assert(column_given(source, m as int) is Ok);
        assert(after =~= Seq::new(source.names.len(), |i: int| i < n));
        assert(r->Ok_0 =~= Seq::new(n, |i: int| column_given(source, i)->Ok_0));
    }
}

} // verus!

//! Taking the rows of a query apart, and spreading them.

use vstd::prelude::*;
use crate::error::{outcome, Error, ErrorView};
use crate::sqlite::row::Row;
use crate::sqlite::statement::{QueryState, Statement};
use crate::sqlite::unpack::UnpackItem;

verus! {

broadcast use vstd::string::group_string_axioms;

/// What makes the rows of a query be copied, if one runs.
pub open spec fn owning(s: Statement) -> Statement {
    Statement {
        query: if s.query is Active {
            QueryState::Active { owned: true }
        } else {
            QueryState::Idle
        },
    }
}

/// Checks that rows can be taken apart with a pattern that requires so much:
/// only with one that requires nothing.
pub fn check_rows_unpack(required_keys: usize, required: usize) -> (r: Result<(), Error>)
    ensures
        outcome(r) == if required_keys != 0 || required != 0 {
            Err(ErrorView::NotSupported)
        } else {
            Ok(())
        },
{
    if required_keys != 0 || required != 0 {
        return Err(Error::NotSupported);
    }
    Ok(())
}

/// Whether a part of a pattern can go without.
pub open spec fn optional(item: UnpackItem) -> bool {
    match item {
        UnpackItem::Pos { default } => default,
        UnpackItem::SymKey { default, .. } => default,
        UnpackItem::ConstKey { default, .. } => default,
        UnpackItem::Rest => true,
    }
}

/// Whether all parts of a pattern can go without.
pub open spec fn all_optional(items: Seq<UnpackItem>) -> bool {
    forall|i: int| 0 <= i < items.len() ==> optional(#[trigger] items[i])
}

/// What a part of a pattern gets of the rows: the next row, what it has for
/// when there is none, or the rows that are left.
#[derive(Debug)]
pub enum RowsGiven {
    Row(Row),
    Default,
    Rows,
}

/// What to do next for a pattern.
#[derive(Debug)]
pub enum RowsAction {
    /// Fetch the next row; if that fails, the pattern fails with it.
    Next,
    /// Give this to the part of this number.
    Give { part: usize, given: RowsGiven },
    /// Nothing: every part has got something.
    Done,
}

/// What comes next for a pattern whose first `at` parts have got something.
/// `fetched` is what was fetched for the part after them, if anything was.
pub open spec fn rows_step(items: Seq<UnpackItem>, at: usize, fetched: Option<Option<Row>>) -> (
    usize,
    RowsAction,
) {
    if at >= items.len() {
        (at, RowsAction::Done)
    } else {
        let next = (at + 1) as usize;
        match items[at as int] {
            UnpackItem::Pos { .. } => match fetched {
                None => (at, RowsAction::Next),
                Some(Some(row)) => (
                    next,
                    RowsAction::Give { part: at, given: RowsGiven::Row(row) },
                ),
                Some(None) => (next, RowsAction::Give { part: at, given: RowsGiven::Default }),
            },
            UnpackItem::SymKey { .. } => (
                next,
                RowsAction::Give { part: at, given: RowsGiven::Default },
            ),
            UnpackItem::ConstKey { .. } => (
                next,
                RowsAction::Give { part: at, given: RowsGiven::Default },
            ),
            UnpackItem::Rest => (next, RowsAction::Give { part: at, given: RowsGiven::Rows }),
        }
    }
}

/// Rows being taken apart: how many parts have got something.
#[derive(Clone, Copy, Debug, PartialEq, Eq, Structural)]
pub struct RowsUnpack {
    pub at: usize,
}

impl RowsUnpack {
    /// Begins to take rows apart, which makes them be copied. Patterns that
    /// require anything are refused.
    pub fn begin(items: &Vec<UnpackItem>, statement: &mut Statement) -> (r: Result<
        RowsUnpack,
        Error,
    >)
        ensures
            all_optional(items@) ==> r == Ok::<RowsUnpack, Error>(RowsUnpack { at: 0 })
                && *final(statement) == owning(*old(statement)),
            !all_optional(items@) ==> r is Err && r->Err_0@ == ErrorView::NotSupported
                && *final(statement) == *old(statement),
    {
        let mut required_keys: usize = 0;
        let mut required: usize = 0;
        let mut i: usize = 0;
        while i < items.len()
            invariant
                i <= items@.len(),
                required_keys + required <= i,
                required_keys + required == 0 <==> all_optional(items@.take(i as int)),
            decreases items@.len() - i,
        {
            let ghost before = items@.take(i as int);
            assert(items@.take(i + 1) =~= before.push(items@[i as int]));
            assert(items@.take(i + 1)[i as int] == items@[i as int]);
            assert(forall|j: int| 0 <= j < i ==> items@.take(i + 1)[j] == #[trigger] before[j]);
            match &items[i] {
                UnpackItem::Pos { default } => {
                    if !*default {
                        required = required + 1;
                    }
                },
                UnpackItem::SymKey { default, .. } => {
                    if !*default {
                        required_keys = required_keys + 1;
                    }
                },
                UnpackItem::ConstKey { default, .. } => {
                    if !*default {
                        required_keys = required_keys + 1;
                    }
                },
                UnpackItem::Rest => {},
            }
            i = i + 1;
        }
        assert(items@.take(i as int) =~= items@);
        match check_rows_unpack(required_keys, required) {
            Err(e) => Err(e),
            Ok(()) => {
                statement.own_rows();
                Ok(RowsUnpack { at: 0 })
            },
        }
    }

    /// Takes what was fetched, and says what to do next.
    pub fn step(&mut self, items: &Vec<UnpackItem>, fetched: Option<Option<Row>>) -> (action:
        RowsAction)
        requires
            all_optional(items@),
        ensures
            (final(self).at, action) == rows_step(items@, old(self).at, fetched),
    {
        let at = self.at;
        if at >= items.len() {
            return RowsAction::Done;
        }
        let given = match &items[at] {
            UnpackItem::Pos { .. } => match fetched {
                None => return RowsAction::Next,
                Some(Some(row)) => RowsGiven::Row(row),
                Some(None) => RowsGiven::Default,
            },
            UnpackItem::Rest => RowsGiven::Rows,
            _ => RowsGiven::Default,
        };
        self.at = at + 1;
        RowsAction::Give { part: at, given }
    }
}

/// Every part of a pattern gets something once: a step that gives something
/// goes on to the part after it, and one that does not stays.
pub proof fn parts_are_served_in_order(
    items: Seq<UnpackItem>,
    at: usize,
    fetched: Option<Option<Row>>,
)
    requires
        items.len() <= usize::MAX,
    ensures
        ({
            let (next, action) = rows_step(items, at, fetched);
            &&& action is Give ==> at < items.len() && action->part == at && next == at + 1
            &&& !(action is Give) ==> next == at
            &&& action is Done <==> at >= items.len()
            &&& action is Next ==> items[at as int] is Pos && fetched is None
        }),
{
}

/// Where rows are spread to.
#[derive(Clone, Copy, Debug, PartialEq, Eq, Structural)]
pub enum SpreadContext {
    Sequence,
    Other,
}

/// Begins to spread rows, which makes them be copied. They can be spread into
/// a sequence only, one by one as they are fetched.
pub fn begin_rows_spread(context: SpreadContext, statement: &mut Statement) -> (r: Result<(), Error>)
    ensures
        context is Sequence ==> r is Ok && *final(statement) == owning(*old(statement)),
        !(context is Sequence) ==> r is Err && r->Err_0@ == ErrorView::NotSupported
            && *final(statement) == *old(statement),
{
    if context != SpreadContext::Sequence {
        return Err(Error::NotSupported);
    }
    statement.own_rows();
    Ok(())
}

} // verus!

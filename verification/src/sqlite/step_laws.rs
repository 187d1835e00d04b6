//! What statements say of themselves, and how their rows are handed out.

use vstd::prelude::*;
use crate::error::ErrorView;
use crate::sqlite::failure::busy_code;
use crate::sqlite::row::{cut_to_32, key_column, row_problem, Row};
use crate::sqlite::rows::{rows_step, RowsAction, RowsGiven};
use crate::sqlite::statement::{bool_word, boolean_word, declares_bool, query_begun, same_bytes,
    AnnexView};
use crate::sqlite::unpack::UnpackItem;
use crate::value::Value;

verus! {

broadcast use vstd::string::group_string_axioms;

/// Whether bytes spell a word, in whatever case.
pub open spec fn spells_word(bytes: Seq<u8>, word: Seq<char>) -> bool {
    bytes.len() == word.len() && forall|i: int|
        0 <= i < bytes.len() ==> #[trigger] bytes[i] as int == word[i] as int
            || bytes[i] as int + 32
            == word[i] as int
}

/// A column holds truth values if its declared type is one of the two words for
/// them, in whatever case.
pub proof fn truth_values_are_declared(declared: Option<Seq<u8>>)
    ensures
        declares_bool(declared) <==> (declared matches Some(name) && (spells_word(
            name,
            seq!['b', 'o', 'o', 'l'],
        ) || spells_word(name, seq!['b', 'o', 'o', 'l', 'e', 'a', 'n']))),
{
    if let Some(name) = declared {
        lemma_word(name, bool_word(), seq!['b', 'o', 'o', 'l']);
        lemma_word(name, boolean_word(), seq!['b', 'o', 'o', 'l', 'e', 'a', 'n']);
    }
}

proof fn lemma_word(name: Seq<u8>, bytes: Seq<u8>, word: Seq<char>)
    requires
        bytes.len() == word.len(),
        forall|i: int|
            0 <= i < bytes.len() ==> #[trigger] bytes[i] as int == word[i] as int && 'a' <= word[i]
                <= 'z',
    ensures
        same_bytes(name, bytes) <==> spells_word(name, word),
{
    if same_bytes(name, bytes) {
        assert forall|i: int| 0 <= i < name.len() implies #[trigger] name[i] as int
            == word[i] as int
            || name[i] as int + 32 == word[i] as int by {
            assert(bytes[i] as int == word[i] as int);
        }
    }
    if spells_word(name, word) {
        assert forall|i: int| 0 <= i < name.len() implies crate::sqlite::statement::lower_byte(
            #[trigger] name[i],
        ) == crate::sqlite::statement::lower_byte(bytes[i]) by {
            assert(bytes[i] as int == word[i] as int);
        }
    }
}

/// A database is busy when it or one of its tables is locked.
pub proof fn busy_is_busy_or_locked(rc: i32)
    ensures
        busy_code(rc) <==> rc == 5 || rc == 6,
{
}

/// A part of a pattern that stands in its place gets the next row, or what it
/// has for when there is none; a part with a name gets the latter without a row
/// being fetched, and the rest gets the rows that are left.
pub proof fn parts_get_their_rows(items: Seq<UnpackItem>, at: usize, row: Row)
    requires
        at < items.len() <= usize::MAX,
    ensures
        items[at as int] is Pos ==> {
            &&& rows_step(items, at, None).1 is Next
            &&& rows_step(items, at, Some(Some(row))).1 == (RowsAction::Give {
                part: at,
                given: RowsGiven::Row(row),
            })
            &&& rows_step(items, at, Some(None)).1 == (RowsAction::Give {
                part: at,
                given: RowsGiven::Default,
            })
        },
        items[at as int] is SymKey || items[at as int] is ConstKey ==> rows_step(items, at, None).1
            == (RowsAction::Give { part: at, given: RowsGiven::Default }),
        items[at as int] is Rest ==> rows_step(items, at, None).1 == (RowsAction::Give {
            part: at,
            given: RowsGiven::Rows,
        }),
{
}

/// A number is cut to 32 bits by whole multiples of their range.
pub proof fn numbers_are_cut_to_their_low_bits(n: int, k: int)
    ensures
        -0x8000_0000 <= cut_to_32(n) < 0x8000_0000,
        (n - cut_to_32(n)) % 0x1_0000_0000 == 0,
        -0x8000_0000 <= n < 0x8000_0000 ==> cut_to_32(n) == n,
        cut_to_32(n + k * 0x1_0000_0000) == cut_to_32(n),
{
    assert((n + k * 0x1_0000_0000) % 0x1_0000_0000 == n % 0x1_0000_0000) by (nonlinear_arith);
}

/// A column that can be addressed by number is addressed by that number.
pub proof fn columns_are_addressed_by_number(n: i128, names: Seq<Option<String>>)
    ensures
        0 <= n <= i32::MAX ==> key_column(Value::Int(n), names) == Ok::<int, ErrorView>(n as int),
        i32::MIN <= n < 0 ==> key_column(Value::Int(n), names) == Err::<int, ErrorView>(
            ErrorView::Index,
        ),
{
}

/// A row can be read until its statement is used again or closed.
pub proof fn rows_last_until_the_next_use(a: AnnexView, epoch: u64)
    requires
        a.epoch < u64::MAX,
    ensures
        row_problem(epoch, a) is Ok <==> a.open && a.epoch == epoch,
        query_begun(a).1 is Ok <==> a.open,
        query_begun(a).1 matches Ok(next) ==> {
            &&& next == a.epoch + 1
            &&& row_problem(next, query_begun(a).0) is Ok
            &&& row_problem(a.epoch, query_begun(a).0) is Err
            &&& query_begun(a).0.bool_columns == a.bool_columns
        },
        query_begun(a).1 is Err ==> query_begun(a).0 == a,
{
}

} // verus!

//! How patterns take rows apart.

use vstd::prelude::*;
use crate::error::ErrorView;
use crate::sqlite::row::name_at;
use crate::sqlite::unpack::{
    column_given, first_free, first_free_is_first, item_step, left_over, pattern_result, unpacked,
    GivenView, Source, UnpackItem,
};
use crate::value::Value;

verus! {

broadcast use vstd::string::group_string_axioms;

/// A part of a pattern that asks for a number gets the column of that number,
/// if it was not taken, and takes it; a part that asks for the rest takes
/// nothing.
pub proof fn numbered_parts_get_their_column(
    source: Source,
    consumed: Seq<bool>,
    n: i128,
    default: bool,
)
    requires
        consumed.len() == source.names.len(),
        i32::MIN <= n <= i32::MAX,
        n < consumed.len(),
    ensures
        ({
            let (after, r) = item_step(
                source,
                consumed,
                UnpackItem::ConstKey { key: Value::Int(n), default },
            );
            if n < 0 || consumed[n as int] {
                after == consumed && (if default {
                    r == Ok::<GivenView, ErrorView>(GivenView::Default)
                } else {
                    r is Err
                })
            } else {
                after == consumed.update(n as int, true) && r == column_given(source, n as int)
            }
        }),
        item_step(source, consumed, UnpackItem::Rest) == (
            consumed,
            Ok::<GivenView, ErrorView>(GivenView::Rest),
        ),
{
}

/// It makes no difference whether a name is asked for as a symbol or as a
/// string; and a key that is neither a name nor a number is refused.
pub proof fn names_are_names(
    source: Source,
    consumed: Seq<bool>,
    symbol: String,
    text: String,
    default: bool,
    key: Value,
)
    requires
        symbol@ == text@,
    ensures
        item_step(source, consumed, UnpackItem::SymKey { name: symbol, default }) == item_step(
            source,
            consumed,
            UnpackItem::ConstKey { key: Value::Str(text), default },
        ),
        !(key is Int) && !(key is Str) ==> item_step(
            source,
            consumed,
            UnpackItem::ConstKey { key, default },
        ).1 is Err,
{
}

/// A part without a column gets its default, or the pattern fails.
pub proof fn parts_without_a_column_need_a_default(
    source: Source,
    consumed: Seq<bool>,
    name: String,
    default: bool,
)
    requires
        consumed.len() == source.names.len(),
    ensures
        (forall|j: int| 0 <= j < source.names.len() ==> #[trigger] name_at(source.names, j) != Some(
            name@,
        )) ==> ({
            let (after, r) = item_step(source, consumed, UnpackItem::SymKey { name, default });
            &&& after == consumed
            &&& if default {
                r == Ok::<GivenView, ErrorView>(GivenView::Default)
            } else {
                r == Err::<GivenView, ErrorView>(ErrorView::MissingKey(name@))
            }
        }),
        (forall|j: int| 0 <= j < consumed.len() ==> #[trigger] consumed[j]) ==> ({
            let (after, r) = item_step(source, consumed, UnpackItem::Pos { default });
            &&& after == consumed
            &&& if default {
                r == Ok::<GivenView, ErrorView>(GivenView::Default)
            } else {
                r is Err
            }
        }),
{
    crate::sqlite::row::first_column_is_found(source.names, name@, 0);
    let at = crate::sqlite::row::column_named(source.names, name@, 0);
    if at < source.names.len() {
        assert(name_at(source.names, at) == Some(name@));
    }
    first_free_is_first(consumed, 0);
}

/// The parts of a pattern are served one after the other, each with the columns
/// that those before it left, and each gets what it would get alone.
pub proof fn parts_are_served_one_after_another(
    source: Source,
    consumed: Seq<bool>,
    items: Seq<UnpackItem>,
    n: nat,
    k: int,
)
    requires
        0 <= k < n <= items.len(),
        unpacked(source, consumed, items, n).1 is Ok,
    ensures
        ({
            let before = unpacked(source, consumed, items, k as nat);
            let given = unpacked(source, consumed, items, n).1->Ok_0;
            &&& before.1 is Ok
            &&& given.len() == n
            &&& item_step(source, before.0, items[k]).1 == Ok::<GivenView, ErrorView>(given[k])
            &&& unpacked(source, consumed, items, (k + 1) as nat).0 == item_step(
                source,
                before.0,
                items[k],
            ).0
        }),
        unpacked(source, consumed, items, 0).0 == consumed,
    decreases n,
{
    let m = (n - 1) as nat;
    lemma_length(source, consumed, items, m);
    if k < m {
        parts_are_served_one_after_another(source, consumed, items, m, k);
    }
}

proof fn lemma_length(source: Source, consumed: Seq<bool>, items: Seq<UnpackItem>, n: nat)
    ensures
        unpacked(source, consumed, items, n).1 matches Ok(given) ==> given.len() == n,
    decreases n,
{
    if n > 0 {
        lemma_length(source, consumed, items, (n - 1) as nat);
    }
}

/// A pattern fails where one of its parts does. One that has to take everything
/// fails also where it leaves a column.
pub proof fn exhaustive_patterns_take_everything(
    source: Source,
    consumed: Seq<bool>,
    items: Seq<UnpackItem>,
    exhaustive: bool,
)
    ensures
        ({
            let (after, r) = unpacked(source, consumed, items, items.len());
            let whole = pattern_result(source, consumed, items, exhaustive);
            &&& whole.0 == after
            &&& whole.1 is Ok <==> r is Ok && (exhaustive ==> forall|i: int|
                0 <= i < after.len() ==> #[trigger] after[i])
            &&& whole.1 is Ok ==> whole.1 == r
            &&& r is Err ==> whole.1 == r
        }),
{
    let (after, r) = unpacked(source, consumed, items, items.len());
    first_free_is_first(after, 0);
    let at = first_free(after, 0);
    if at < after.len() {
        assert(!after[at]);
        assert(left_over(after, source.names) is Some);
    }
}

} // verus!

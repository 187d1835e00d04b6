//! What joining, indenting and clipping make of texts.

use vstd::prelude::*;
use crate::error::ErrorView;
use crate::term::cells::{cluster_cells, total_cells};
use crate::term::filter::{filtered, ModeView};
use crate::term::filter_laws::{all_printable, printable_is_unchanged};
use crate::term::layout::fitting;
use crate::term::render::{laid_out, rendered, repeated, Converted, Item, Kind, Spec};
use crate::term::style::StyleView;
use crate::term::texts::{clip_result, indented, joined_items, measured, Text, TextArg};
use crate::text::{joined, split};

verus! {

broadcast use vstd::string::group_string_axioms;

proof fn lemma_first_cells(parts: Seq<Seq<char>>)
    requires
        parts.len() > 0,
    ensures
        total_cells(parts) == cluster_cells(parts[0]) + total_cells(parts.drop_first()),
    decreases parts.len(),
{
    if parts.len() == 1 {
        assert(parts.drop_last() =~= Seq::<Seq<char>>::empty());
        assert(parts.drop_first() =~= Seq::<Seq<char>>::empty());
        reveal_with_fuel(total_cells, 2);
    } else {
        lemma_first_cells(parts.drop_last());
        assert(parts.drop_last().drop_first() =~= parts.drop_first().drop_last());
        assert(parts.drop_first().last() == parts.last());
    }
}

/// As many clusters are kept as fit, and not one fewer.
pub proof fn as_many_clusters_are_kept_as_fit(parts: Seq<Seq<char>>, room: int)
    requires
        room >= 0,
    ensures
        fitting(parts, room) <= parts.len(),
        total_cells(parts.take(fitting(parts, room) as int)) <= room,
        fitting(parts, room) < parts.len()
            ==> total_cells(parts.take(fitting(parts, room) as int + 1))
            > room,
    decreases parts.len(),
{
    let k = fitting(parts, room) as int;
    if parts.len() > 0 && cluster_cells(parts[0]) <= room {
        let rest = parts.drop_first();
        as_many_clusters_are_kept_as_fit(rest, room - cluster_cells(parts[0]));
        lemma_first_cells(parts.take(k));
        assert(parts.take(k).drop_first() =~= rest.take(k - 1));
        if k < parts.len() {
            lemma_first_cells(parts.take(k + 1));
            assert(parts.take(k + 1).drop_first() =~= rest.take(k));
        }
    } else if parts.len() > 0 {
        lemma_first_cells(parts.take(1));
        assert(parts.take(0) =~= Seq::<Seq<char>>::empty());
    } else {
        assert(parts.take(0) =~= Seq::<Seq<char>>::empty());
    }
}

/// What an item is joined as.
pub open spec fn joined_alone(item: Item) -> Result<Seq<char>, ErrorView> {
    rendered(item, StyleView::plain(), true, false)
}

proof fn lemma_joined_prefix(a: Seq<Item>, b: Seq<Item>, n: nat, separator: Seq<char>)
    requires
        n <= a.len(),
        n <= b.len(),
        a.take(n as int) == b.take(n as int),
    ensures
        joined_items(a, n, separator) == joined_items(b, n, separator),
    decreases n,
{
    if n > 0 {
        assert(a[n - 1] == a.take(n as int)[n - 1]);
        assert(b[n - 1] == b.take(n as int)[n - 1]);
        assert(a.take(n - 1) =~= a.take(n as int).drop_last());
        assert(b.take(n - 1) =~= b.take(n as int).drop_last());
        lemma_joined_prefix(a, b, (n - 1) as nat, separator);
    }
}

/// The separator stands between neighbours and nowhere else: nothing joins to
/// nothing, one item to itself, and one item more adds the separator and the
/// item.
pub proof fn separators_stand_between(items: Seq<Item>, last: Item, separator: Seq<char>)
    ensures
        joined_items(Seq::empty(), 0, separator) == Ok::<Seq<char>, ErrorView>(Seq::empty()),
        joined_items(seq![last], 1, separator) == joined_alone(last),
        items.len() > 0 ==> match (joined_items(items, items.len(), separator),
            joined_alone(last)) {
            (Ok(before), Ok(text)) => joined_items(items.push(last), items.len() + 1, separator)
                == Ok::<Seq<char>, ErrorView>(before + separator + text),
            (Err(e), _) => joined_items(items.push(last), items.len() + 1, separator) == Err::<
                Seq<char>,
                ErrorView,
            >(e),
            (Ok(_), Err(e)) => joined_items(items.push(last), items.len() + 1, separator) == Err::<
                Seq<char>,
                ErrorView,
            >(e),
        },
{
    let all = items.push(last);
    assert(all.take(items.len() as int) =~= items.take(items.len() as int));
    lemma_joined_prefix(all, items, items.len(), separator);
    reveal_with_fuel(joined_items, 2);
}

/// One line that is indented is the spaces followed by the line.
pub proof fn lines_start_with_their_indent(line: Seq<char>, spaces: nat)
    requires
        line.len() > 0,
        forall|i: int| 0 <= i < line.len() - 1 ==> #[trigger] line[i] != '\n',
    ensures
        indented(line, spaces) == Seq::new(spaces, |i: int| ' ') + line,
        indented(Seq::empty(), spaces) == Seq::<char>::empty(),
    decreases line.len(),
{
    let indent = Seq::new(spaces, |i: int| ' ');
    lemma_spaces(spaces);
    if line.len() == 1 {
        assert(line.drop_last() =~= Seq::<char>::empty());
        assert(indented(line.drop_last(), spaces) =~= Seq::<char>::empty());
        assert(indented(line, spaces) =~= indent + line);
    } else {
        let init = line.drop_last();
        assert(forall|i: int| 0 <= i < init.len() ==> #[trigger] init[i] == line[i]);
        assert(line[line.len() - 2] != '\n');
        lines_start_with_their_indent(init, spaces);
        assert(indented(line, spaces) =~= indent + line);
    }
}

proof fn lemma_spaces(n: nat)
    ensures
        repeated(' ', n) == Seq::new(n, |i: int| ' '),
{
    assert(repeated(' ', n) =~= Seq::new(n, |i: int| ' '));
}

/// Lines are indented one by one: what stands behind the end of a line is
/// indented as if it stood alone.
pub proof fn lines_are_indented_one_by_one(before: Seq<char>, after: Seq<char>, spaces: nat)
    requires
        before.len() > 0,
        before.last() == '\n',
    ensures
        indented(before + after, spaces) == indented(before, spaces) + indented(after, spaces),
    decreases after.len(),
{
    let all = before + after;
    if after.len() == 0 {
        assert(all =~= before);
        assert(indented(before, spaces) + indented(after, spaces) =~= indented(before, spaces));
    } else {
        let init = after.drop_last();
        lines_are_indented_one_by_one(before, init, spaces);
        assert(all.drop_last() =~= before + init);
        assert(all.last() == after.last());
        if after.len() == 1 {
            assert(all[all.len() - 2] == '\n');
        } else {
            assert(all[all.len() - 2] == after[after.len() - 2]);
        }
        assert(indented(all, spaces) =~= indented(before, spaces) + indented(after, spaces));
    }
}

/// A text that fits is not touched, whatever suffix was asked for; only one
/// that does not fit needs a suffix that is a text.
pub proof fn texts_that_fit_are_kept(encoded: Seq<char>, width: usize, suffix: Option<TextArg>)
    ensures
        measured(encoded) <= width ==> clip_result(encoded, width, suffix) == Ok::<
            Seq<char>,
            ErrorView,
        >(encoded),
        clip_result(encoded, width, suffix) is Err <==> measured(encoded) > width
            && suffix == Some(TextArg::Other),
        suffix matches Some(TextArg::Str(s)) ==> forall|text: Text| #[trigger]
            text@ == filtered(ModeView::Plain, s@) ==> clip_result(encoded, width, suffix)
            == clip_result(encoded, width, Some(TextArg::Text(text))),
{
}

/// A value is shown as it was converted: for an argument as it is, and for all
/// else as it is displayed, whatever surrounds it.
pub proof fn values_are_shown_as_converted(
    verbatim: String,
    display: String,
    parent: StyleView,
    ansi: bool,
)
    requires
        all_printable(verbatim@),
        all_printable(display@),
    ensures
        rendered(Item::Plain { verbatim: Ok(verbatim), display: Ok(display) }, parent, ansi, true)
            == Ok::<Seq<char>, ErrorView>(verbatim@),
        rendered(Item::Plain { verbatim: Ok(verbatim), display: Ok(display) }, parent, ansi, false)
            == Ok::<Seq<char>, ErrorView>(display@),
{
    printable_is_unchanged(ModeView::Plain, verbatim@);
    printable_is_unchanged(ModeView::Plain, display@);
}

/// A text that is laid out is laid out as it would be shown alone, and its
/// layout then goes into what surrounds it like any other text.
pub proof fn bound_texts_are_laid_out(
    spec: Spec,
    value: Box<Item>,
    text: String,
    verbatim: Converted,
    display: Converted,
    parent: StyleView,
    ansi: bool,
    argument: bool,
)
    requires
        *value is Text || *value is Fmt,
        spec.kind is None || spec.kind == Some(Kind::Str) || spec.kind == Some(Kind::Verbatim),
        !spec.sign && !spec.alt && !(spec.fill is Zero),
        rendered(*value, StyleView::plain(), ansi, argument) is Ok,
        text@ == laid_out(spec, rendered(*value, StyleView::plain(), ansi, argument)->Ok_0),
    ensures
        rendered(Item::Bound { spec, value, verbatim, display }, parent, ansi,
            argument) == rendered(
            Item::Text(text),
            parent,
            ansi,
            argument,
        ),
{
}

/// Splitting cuts exactly at the separators: no piece holds one, and the pieces
/// joined with it are the text.
pub proof fn splitting_is_undone_by_joining(s: Seq<char>, sep: char)
    ensures
        split(s, sep).len() > 0,
        joined(split(s, sep), seq![sep]) == s,
        forall|i: int|
            0 <= i < split(s, sep).len() ==> !(#[trigger] split(s, sep)[i]).contains(sep),
    decreases s.len(),
{
    let all = split(s, sep);
    if s.len() == 0 {
        assert(joined(all, seq![sep]) =~= s);
    } else {
        let init = s.drop_last();
        let before = split(init, sep);
        splitting_is_undone_by_joining(init, sep);
        if s.last() == sep {
            assert(all.drop_last() =~= before);
            assert(joined(all, seq![sep]) =~= s);
        } else {
            let front = before.drop_last();
            assert(all.drop_last() =~= front);
            assert(all.last() == before.last().push(s.last()));
            assert(joined(all, seq![sep]) =~= joined(before, seq![sep]).push(s.last()));
            assert(joined(all, seq![sep]) =~= s);
            assert forall|i: int| 0 <= i < all.len() implies !(#[trigger] all[i]).contains(sep) by {
                if i < front.len() {
                    assert(all[i] == before[i]);
                } else {
                    let last = before.last();
                    assert(!before[before.len() - 1].contains(sep));
                    if all[i].contains(sep) {
                        let j = choose|j: int| 0 <= j < all[i].len() && all[i][j] == sep;
                        assert(j < last.len());
                        assert(last[j] == sep);
                        assert(last.contains(sep));
                    }
                }
            }
        }
    }
}

} // verus!

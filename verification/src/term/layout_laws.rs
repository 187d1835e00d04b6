//! What holds of every text that was laid out.

use vstd::prelude::*;
use crate::term::cells::cells;
use crate::term::filter::{filtered, is_final, ops_output, printable, FilterView, ModeView};
use crate::term::filter_laws::{
    all_printable, lemma_styling_ops, lemma_styling_sgr, no_final, none_final, plain_is_printable,
    sequences, styling,
};
use crate::term::layout::{
    first_final, sgr_end, shown, shown_chars, shown_from, style_after, style_from, visible, Shown,
};
use crate::term::render::{rendered, rendered_segments, segment_count, Item, Segment};
use crate::term::sgr::params_ops;
use crate::term::style::{sgr_sequence, Sgr, StyleView};
use crate::term::texts::indented;
use crate::term::render::repeated;

verus! {

broadcast use vstd::string::group_string_axioms;

/// Whether every escape character of `s` starts a complete SGR sequence: then
/// none of them is shown.
pub open spec fn closed_text(s: Seq<char>) -> bool {
    forall|i: int| 0 <= i < visible(s).len() ==> #[trigger] visible(s)[i] != '\x1b'
}

/// What is shown does not depend on the style it is shown in.
proof fn lemma_style_free(s: Seq<char>, at: int, a: StyleView, b: StyleView)
    ensures
        shown_chars(shown_from(s, at, a)) == shown_chars(shown_from(s, at, b)),
    decreases s.len() - at,
{
    if 0 <= at < s.len() {
        match sgr_end(s, at) {
            Some(end) => if end >= at {
                let ops = params_ops(s.subrange(at + 2, end));
                lemma_style_free(s, end + 1, a.applied_all(ops), b.applied_all(ops));
            },
            None => {
                lemma_style_free(s, at + 1, a, b);
                let x = shown_chars(shown_from(s, at + 1, a));
                let y = shown_chars(shown_from(s, at + 1, b));
                assert(shown_chars(shown_from(s, at, a)) =~= seq![s[at]] + x);
                assert(shown_chars(shown_from(s, at, b)) =~= seq![s[at]] + y);
            },
        }
    } else {
        assert(shown_chars(shown_from(s, at, a)) =~= shown_chars(shown_from(s, at, b)));
    }
}

/// The end of a sequence is found in the same place behind any other text.
proof fn lemma_final_shift(a: Seq<char>, b: Seq<char>, from: int)
    requires
        0 <= from,
    ensures
        first_final(a + b, a.len() + from) == a.len() + first_final(b, from),
    decreases b.len() - from,
{
    if from < b.len() {
        assert((a + b)[a.len() + from] == b[from]);
        if !is_final(b[from]) {
            lemma_final_shift(a, b, from + 1);
        }
    }
}

/// Text shows the same characters behind any other text.
proof fn lemma_shown_shift(a: Seq<char>, b: Seq<char>, at: int, style: StyleView)
    requires
        0 <= at,
    ensures
        shown_chars(shown_from(a + b, a.len() + at, style)) == shown_chars(shown_from(b, at, style)),
    decreases b.len() - at,
{
    let s = a + b;
    let n = a.len() as int;
    if at < b.len() {
        assert(s[n + at] == b[at]);
        if at + 1 < b.len() {
            assert(s[n + at + 1] == b[at + 1]);
        }
        lemma_final_shift(a, b, at + 2);
        lemma_final_range(b, at + 2);
        let end = first_final(b, at + 2);
        if end < b.len() {
            assert(s[n + end] == b[end]);
        }
        match sgr_end(b, at) {
            Some(end) => {
                assert(sgr_end(s, n + at) == Some(n + end));
                assert(s.subrange(n + at + 2, n + end) =~= b.subrange(at + 2, end));
                lemma_shown_shift(
                    a,
                    b,
                    end + 1,
                    style.applied_all(params_ops(b.subrange(at + 2, end))),
                );
            },
            None => {
                lemma_shown_shift(a, b, at + 1, style);
                let x = shown_chars(shown_from(s, n + at + 1, style));
                let y = shown_chars(shown_from(b, at + 1, style));
                assert(shown_chars(shown_from(s, n + at, style)) =~= seq![b[at]] + x);
                assert(shown_chars(shown_from(b, at, style)) =~= seq![b[at]] + y);
            },
        }
    } else {
        assert(shown_chars(shown_from(s, n + at, style)) =~= shown_chars(shown_from(b, at, style)));
    }
}

proof fn lemma_final_range(s: Seq<char>, from: int)
    requires
        0 <= from,
    ensures
        from <= first_final(s, from),
        from <= s.len() ==> first_final(s, from) <= s.len(),
    decreases s.len() - from,
{
    if from < s.len() && !is_final(s[from]) {
        lemma_final_range(s, from + 1);
    }
}

proof fn lemma_final_prefix(a: Seq<char>, b: Seq<char>, from: int)
    requires
        0 <= from,
        first_final(a, from) < a.len(),
    ensures
        first_final(a + b, from) == first_final(a, from),
    decreases a.len() - from,
{
    assert(from < a.len());
    assert((a + b)[from] == a[from]);
    if !is_final(a[from]) {
        lemma_final_prefix(a, b, from + 1);
    }
}

/// Closed text is shown the same whatever follows it.
proof fn lemma_shown_append(a: Seq<char>, b: Seq<char>, at: int, style: StyleView)
    requires
        0 <= at <= a.len(),
        forall|i: int|
            0 <= i < shown_from(a, at, style).len() ==> (#[trigger] shown_from(a, at, style)[i]).0
                != '\x1b',
    ensures
        shown_chars(shown_from(a + b, at, style)) == shown_chars(shown_from(a, at, style)) + shown_chars(
            shown_from(a + b, a.len() as int, style_from(a, at, style)),
        ),
    decreases a.len() - at,
{
    let s = a + b;
    let tail = shown_chars(shown_from(s, a.len() as int, style_from(a, at, style)));
    if at < a.len() {
        assert(s[at] == a[at]);
        match sgr_end(a, at) {
            Some(end) => {
                let after = style.applied_all(params_ops(a.subrange(at + 2, end)));
                lemma_final_range(a, at + 2);
                lemma_final_prefix(a, b, at + 2);
                assert(s[at + 1] == a[at + 1]);
                assert(s[end] == a[end]);
                assert(s.subrange(at + 2, end) =~= a.subrange(at + 2, end));
                assert(shown_from(a, at, style) == shown_from(a, end + 1, after));
                lemma_shown_append(a, b, end + 1, after);
            },
            None => {
                let all = shown_from(a, at, style);
                let rest = shown_from(a, at + 1, style);
                assert(all =~= seq![(a[at], at + 1, style)] + rest);
                assert(all[0].0 != '\x1b');
                assert forall|i: int| 0 <= i < rest.len() implies (#[trigger] rest[i]).0 != '\x1b' by {
                    assert(rest[i] == all[i + 1]);
                }
                lemma_shown_append(a, b, at + 1, style);
                assert(sgr_end(s, at) is None);
                let more = shown_from(s, at + 1, style);
                assert(shown_from(s, at, style) =~= seq![(a[at], at + 1, style)] + more);
                assert(shown_chars(shown_from(s, at, style)) =~= seq![a[at]] + shown_chars(more));
                assert(shown_chars(all) =~= seq![a[at]] + shown_chars(rest));
                assert(seq![a[at]] + (shown_chars(rest) + tail) =~= shown_chars(all) + tail);
            },
        }
    } else {
        assert(shown_chars(shown_from(s, at, style)) =~= shown_chars(shown_from(a, at, style)) + tail);
    }
}

/// Closed text followed by any text shows first the one and then the other.
pub proof fn visible_in_pieces(a: Seq<char>, b: Seq<char>)
    requires
        closed_text(a),
    ensures
        visible(a + b) == visible(a) + visible(b),
{
    let plain = StyleView::plain();
    let run = shown_from(a, 0, plain);
    assert forall|i: int| 0 <= i < run.len() implies (#[trigger] run[i]).0 != '\x1b' by {
        assert(visible(a)[i] == run[i].0);
    }
    lemma_shown_append(a, b, 0, plain);
    lemma_shown_shift(a, b, 0, style_after(a));
    lemma_style_free(b, 0, style_after(a), plain);
}

/// One sequence that selects a style shows nothing.
proof fn lemma_sequence_invisible(params: Seq<char>)
    requires
        no_final(params),
    ensures
        visible(sgr_sequence(params)) == Seq::<char>::empty(),
{
    reveal_strlit("\x1b[");
    reveal_strlit("m");
    let s = sgr_sequence(params);
    assert(s.len() == params.len() + 3);
    assert(s[0] == '\x1b' && s[1] == '[' && s[s.len() - 1] == 'm');
    assert forall|i: int| 2 <= i < s.len() - 1 implies !is_final(#[trigger] s[i]) by {
        assert(s[i] == params[i - 2]);
    }
    lemma_final_at(s, 2);
    assert(sgr_end(s, 0) == Some(s.len() - 1));
    reveal_with_fuel(shown_from, 2);
    assert(shown(s) =~= Seq::<Shown>::empty());
    assert(visible(s) =~= Seq::<char>::empty());
}

proof fn lemma_final_at(s: Seq<char>, from: int)
    requires
        0 <= from < s.len(),
        is_final(s[s.len() - 1]),
        forall|i: int| from <= i < s.len() - 1 ==> !is_final(#[trigger] s[i]),
    ensures
        first_final(s, from) == s.len() - 1,
    decreases s.len() - from,
{
    if from < s.len() - 1 {
        assert(!is_final(s[from]));
        lemma_final_at(s, from + 1);
    }
}

proof fn lemma_styling_invisible(params: Seq<Seq<char>>)
    requires
        none_final(params),
    ensures
        visible(sequences(params)) == Seq::<char>::empty(),
    decreases params.len(),
{
    if params.len() == 0 {
        assert(visible(sequences(params)) =~= Seq::<char>::empty());
    } else {
        let rest = params.drop_first();
        assert(none_final(rest)) by {
            assert forall|i: int| 0 <= i < rest.len() implies no_final(#[trigger] rest[i]) by {
                assert(rest[i] == params[i + 1]);
            }
        }
        assert(no_final(params[0]));
        lemma_sequence_invisible(params[0]);
        lemma_styling_invisible(rest);
        visible_in_pieces(sgr_sequence(params[0]), sequences(rest));
        assert(visible(sequences(params)) =~= Seq::<char>::empty());
    }
}

/// Styling shows nothing.
pub proof fn styling_is_invisible(s: Seq<char>)
    requires
        styling(s),
    ensures
        visible(s) == Seq::<char>::empty(),
{
    let params = choose|params: Seq<Seq<char>>| none_final(params) && #[trigger] sequences(params) == s;
    lemma_styling_invisible(params);
}

/// A character that is not an escape is shown.
proof fn lemma_one_visible(c: char)
    requires
        c != '\x1b',
    ensures
        visible(seq![c]) == seq![c],
{
    let s = seq![c];
    assert(sgr_end(s, 0) is None);
    assert(shown_from(s, 1, StyleView::plain()) =~= Seq::<Shown>::empty());
    assert(shown(s) =~= seq![(c, 1int, StyleView::plain())]);
    assert(visible(s) =~= seq![c]);
}

proof fn lemma_scan_visible(mode: ModeView, s: Seq<char>)
    ensures
        ({
            let p = FilterView::start(ModeView::Plain).scan(s);
            let q = FilterView::start(mode).scan(s);
            &&& q.mode == mode
            &&& p.mode is Plain
            &&& q.state == p.state
            &&& visible(q.out) == p.out
            &&& all_printable(p.out)
        }),
    decreases s.len(),
{
    let plain = FilterView::start(ModeView::Plain);
    if s.len() == 0 {
        assert(visible(Seq::empty()) =~= Seq::<char>::empty());
    } else {
        lemma_scan_visible(mode, s.drop_last());
        let p0 = plain.scan(s.drop_last());
        let q0 = FilterView::start(mode).scan(s.drop_last());
        let c = s.last();
        assert(closed_text(q0.out)) by {
            assert forall|i: int| 0 <= i < visible(q0.out).len() implies #[trigger] visible(q0.out)[i]
                != '\x1b' by {
                assert(printable(p0.out[i]));
            }
        }
        if p0.state is Ground && printable(c) {
            visible_in_pieces(q0.out, seq![c]);
            lemma_one_visible(c);
            assert(q0.out.push(c) =~= q0.out + seq![c]);
            assert(p0.out.push(c) =~= p0.out + seq![c]);
        } else if p0.state is Csi && c == 'm' {
            let ops = params_ops(p0.state->Csi_0);
            lemma_styling_ops(mode, ops);
            styling_is_invisible(ops_output(mode, ops));
            visible_in_pieces(q0.out, ops_output(mode, ops));
            lemma_styling_ops(ModeView::Plain, ops);
            lemma_plain_silent(ops);
            assert(p0.out + Seq::<char>::empty() =~= p0.out);
        }
    }
}

proof fn lemma_plain_silent(ops: Seq<Sgr>)
    ensures
        ops_output(ModeView::Plain, ops) == Seq::<char>::empty(),
    decreases ops.len(),
{
    if ops.len() > 0 {
        lemma_plain_silent(ops.drop_first());
        assert(ops_output(ModeView::Plain, ops) =~= Seq::<char>::empty());
    }
}

/// Filtered text shows its plain content, however it is styled.
pub proof fn filtered_shows_content(mode: ModeView, s: Seq<char>)
    ensures
        visible(filtered(mode, s)) == filtered(ModeView::Plain, s),
{
    lemma_scan_visible(mode, s);
    let p = FilterView::start(ModeView::Plain).scan(s);
    let q = FilterView::start(mode).scan(s);
    if mode is Preformat && q.style != StyleView::plain() {
        lemma_styling_sgr(Sgr::Reset);
        styling_is_invisible("\x1b[0m"@);
        assert(closed_text(q.out)) by {
            assert forall|i: int| 0 <= i < visible(q.out).len() implies #[trigger] visible(q.out)[i]
                != '\x1b' by {
                assert(printable(p.out[i]));
            }
        }
        visible_in_pieces(q.out, "\x1b[0m"@);
        assert(visible(q.out) + Seq::<char>::empty() =~= visible(q.out));
    }
}

/// Styling measures nothing: styled text and its plain content agree on every
/// column.
pub proof fn styling_takes_no_cells(mode: ModeView, s: Seq<char>)
    ensures
        cells(visible(filtered(mode, s))) == cells(visible(filtered(ModeView::Plain, s))),
{
    filtered_shows_content(mode, s);
    filtered_shows_content(ModeView::Plain, s);
}

/// A sequence that selects a style takes no cells, whatever follows it.
pub proof fn sequences_take_no_cells(params: Seq<char>, s: Seq<char>)
    requires
        no_final(params),
    ensures
        visible(sgr_sequence(params) + s) == visible(s),
        cells(visible(sgr_sequence(params) + s)) == cells(visible(s)),
{
    lemma_sequence_invisible(params);
    visible_in_pieces(sgr_sequence(params), s);
    assert(visible(sgr_sequence(params)) + visible(s) =~= visible(s));
}

proof fn lemma_printable_concat(a: Seq<char>, b: Seq<char>)
    requires
        all_printable(a),
        all_printable(b),
    ensures
        all_printable(a + b),
{
    assert forall|i: int| 0 <= i < (a + b).len() implies printable(#[trigger] (a + b)[i]) by {
        if i < a.len() {
            assert((a + b)[i] == a[i]);
        } else {
            assert((a + b)[i] == b[i - a.len()]);
        }
    }
}

/// Whatever is rendered for a terminal that cannot style is free of control
/// characters but newlines and tabs.
pub proof fn unstyled_output_is_printable(item: Item, parent: StyleView, argument: bool)
    ensures
        rendered(item, parent, false, argument) matches Ok(s) ==> all_printable(s),
    decreases item, segment_count(item) + 1,
{
    match item {
        Item::Text(text) => {
            plain_is_printable(text@);
        },
        Item::Fmt(segments) => {
            lemma_segments_printable(item, segments@.len(), parent, argument);
        },
        Item::Bound { spec, value, verbatim, display } => {
            if rendered(*value, StyleView::plain(), false, argument) is Ok {
                plain_is_printable(
                    crate::term::render::laid_out(
                        spec,
                        rendered(*value, StyleView::plain(), false, argument)->Ok_0,
                    ),
                );
            }
            if verbatim is Ok {
                plain_is_printable(verbatim->Ok_0@);
            }
            if display is Ok {
                plain_is_printable(display->Ok_0@);
            }
        },
        Item::Plain { verbatim, display } => {
            if verbatim is Ok {
                plain_is_printable(verbatim->Ok_0@);
            }
            if display is Ok {
                plain_is_printable(display->Ok_0@);
            }
        },
    }
}

proof fn lemma_segments_printable(item: Item, n: nat, parent: StyleView, argument: bool)
    requires
        item is Fmt,
        n <= segment_count(item),
    ensures
        rendered_segments(item, n, parent, false, argument) matches Ok(s) ==> all_printable(s),
    decreases item, n,
{
    if n > 0 {
        lemma_segments_printable(item, (n - 1) as nat, parent, argument);
        match item {
            Item::Fmt(segments) => {
                if let Segment::Item(inner) = segments@[n - 1] {
                    unstyled_output_is_printable(inner, parent, argument);
                    let before = rendered_segments(item, (n - 1) as nat, parent, false, argument);
                    let s = rendered(inner, parent, false, argument);
                    if before is Ok && s is Ok {
                        lemma_printable_concat(before->Ok_0, s->Ok_0);
                    }
                }
            },
            _ => {},
        }
    }
}

/// Indenting by nothing changes nothing.
pub proof fn no_indent_keeps_text(s: Seq<char>)
    ensures
        indented(s, 0) == s,
    decreases s.len(),
{
    if s.len() == 0 {
        assert(s =~= Seq::<char>::empty());
    } else {
        no_indent_keeps_text(s.drop_last());
        assert(repeated(' ', 0) =~= Seq::<char>::empty());
        assert(indented(s, 0) =~= s);
    }
}

} // verus!

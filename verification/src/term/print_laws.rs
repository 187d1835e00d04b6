//! What `echo` and `print` write, in terms of what they write of each argument.

use vstd::prelude::*;
use crate::error::ErrorView;
use crate::term::filter::{is_final, printable, FilterView, ModeView};
use crate::term::filter_laws::{
    all_printable, lemma_scan_sequence, lemma_style_params_no_final, nameable,
    printable_is_unchanged, written_style_is_selected,
};
use crate::term::cells::{cells, counted};
use crate::term::layout::{
    clipped, first_final, lemma_reset_ops, sgr_end, shown, shown_chars, shown_from, style_after, style_from, visible,
};
use crate::term::render::{
    laid_out, rendered, rendered_args, rendered_segments, styled_args, Align, Arg, Item, Segment,
    Spec,
};
use crate::term::sgr::params_ops;
use crate::term::style::{sgr_sequence, style_params, StyleView};
use crate::term::texts::echoed;
use crate::text::{joined, split};

verus! {

broadcast use vstd::string::group_string_axioms;

/// Echoing one argument alone.
pub open spec fn echoed_alone(arg: Arg, ansi: bool) -> Result<Seq<char>, ErrorView> {
    echoed(seq![arg], 1, ansi)
}

/// The first arguments are echoed the same whatever follows them.
proof fn lemma_echoed_prefix(a: Seq<Arg>, b: Seq<Arg>, n: nat, ansi: bool)
    requires
        n <= a.len(),
        n <= b.len(),
        forall|i: int| 0 <= i < n ==> a[i] == b[i],
    ensures
        echoed(a, n, ansi) == echoed(b, n, ansi),
    decreases n,
{
    if n > 0 {
        lemma_echoed_prefix(a, b, (n - 1) as nat, ansi);
    }
}

/// Echoing one argument more writes a space and what echoing it alone writes.
pub proof fn echo_puts_a_space_between(args: Seq<Arg>, last: Arg, ansi: bool)
    requires
        args.len() > 0,
    ensures
        match (echoed(args, args.len(), ansi), echoed_alone(last, ansi)) {
            (Ok(line), Ok(text)) => echoed(args.push(last), args.len() + 1, ansi) == Ok::<
                Seq<char>,
                ErrorView,
            >(line + seq![' '] + text),
            (Err(e), _) => echoed(args.push(last), args.len() + 1, ansi) == Err::<
                Seq<char>,
                ErrorView,
            >(e),
            (Ok(_), Err(e)) => echoed(args.push(last), args.len() + 1, ansi) == Err::<
                Seq<char>,
                ErrorView,
            >(e),
        },
{
    let all = args.push(last);
    reveal_strlit(" ");
    assert(" "@ =~= seq![' ']);
    lemma_echoed_prefix(all, args, args.len(), ansi);
    reveal_with_fuel(echoed, 2);
}

/// Echoing nothing writes nothing.
pub proof fn echo_of_nothing_is_empty(ansi: bool)
    ensures
        echoed(Seq::empty(), 0, ansi) == Ok::<Seq<char>, ErrorView>(Seq::empty()),
{
}

/// Whether an argument is a plain value in its place, shown as `text`.
pub open spec fn plainly(arg: Arg, text: Seq<char>) -> bool {
    arg matches Arg::Pos(Item::Plain { verbatim: Ok(s), .. }) && s@ == text && all_printable(text)
}

/// A plain value is echoed as it is.
pub proof fn plain_values_are_echoed_as_they_are(arg: Arg, text: Seq<char>, ansi: bool)
    requires
        plainly(arg, text),
    ensures
        echoed_alone(arg, ansi) == Ok::<Seq<char>, ErrorView>(text),
{
    reveal_with_fuel(echoed, 2);
    printable_is_unchanged(ModeView::Plain, text);
}

/// A value that a keyword names is echoed with the keyword and a colon before
/// it.
pub proof fn keywords_are_echoed_before_their_values(key: String, item: Item, ansi: bool)
    requires
        all_printable(key@),
    ensures
        echoed_alone(Arg::Key(key, item), ansi) == match echoed_alone(Arg::Pos(item), ansi) {
            Ok(text) => Ok::<Seq<char>, ErrorView>(key@ + seq![':', ' '] + text),
            Err(e) => Err(e),
        },
{
    reveal_with_fuel(echoed, 2);
    reveal_strlit(": ");
    assert(": "@ =~= seq![':', ' ']);
    printable_is_unchanged(ModeView::Plain, key@);
}

/// Text without the separator is one part of what it ends.
proof fn lemma_split_more(before: Seq<char>, text: Seq<char>, sep: char)
    requires
        !text.contains(sep),
    ensures
        split(before + seq![sep] + text, sep) == split(before, sep).push(text),
    decreases text.len(),
{
    let all = before + seq![sep] + text;
    if text.len() == 0 {
        assert(all.drop_last() =~= before);
        assert(text =~= Seq::<char>::empty());
    } else {
        let init = text.drop_last();
        assert(!init.contains(sep)) by {
            if init.contains(sep) {
                let i = choose|i: int| 0 <= i < init.len() && init[i] == sep;
                assert(text[i] == sep);
            }
        }
        lemma_split_more(before, init, sep);
        assert(all.drop_last() =~= before + seq![sep] + init);
        assert(text.contains(text.last()));
        assert(all.last() == text.last());
        let parts = split(before, sep).push(init);
        assert(parts.drop_last() =~= split(before, sep));
        assert(init.push(text.last()) =~= text);
    }
}

proof fn lemma_split_one(text: Seq<char>, sep: char)
    requires
        !text.contains(sep),
    ensures
        split(text, sep) == seq![text],
    decreases text.len(),
{
    if text.len() == 0 {
        assert(text =~= Seq::<char>::empty());
    } else {
        let init = text.drop_last();
        assert(!init.contains(sep)) by {
            if init.contains(sep) {
                let i = choose|i: int| 0 <= i < init.len() && init[i] == sep;
                assert(text[i] == sep);
            }
        }
        lemma_split_one(init, sep);
        assert(text.contains(text.last()));
        assert(init.push(text.last()) =~= text);
        assert(seq![init].drop_last().push(init.push(text.last())) =~= seq![text]);
    }
}

/// A line that was echoed of plain values without spaces can be taken apart at
/// its spaces.
#[verifier::rlimit(60)]
pub proof fn echoed_words_come_back(args: Seq<Arg>, texts: Seq<Seq<char>>, ansi: bool)
    requires
        args.len() > 0,
        texts.len() == args.len(),
        forall|i: int|
            0 <= i < args.len() ==> plainly(#[trigger] args[i], texts[i]) && !texts[i].contains(' '),
    ensures
        echoed(args, args.len(), ansi) is Ok,
        split(echoed(args, args.len(), ansi)->Ok_0, ' ') == texts,
    decreases args.len(),
{
    let last = args.last();
    let text = texts.last();
    assert(plainly(args[args.len() - 1], texts[args.len() - 1]));
    plain_values_are_echoed_as_they_are(last, text, ansi);
    if args.len() == 1 {
        assert(args =~= seq![last]);
        lemma_split_one(text, ' ');
        assert(texts =~= seq![text]);
    } else {
        let init = args.drop_last();
        assert forall|i: int| 0 <= i < init.len() implies plainly(
            #[trigger] init[i],
            texts.drop_last()[i],
        ) && !texts.drop_last()[i].contains(' ') by {
            assert(init[i] == args[i]);
        }
        echoed_words_come_back(init, texts.drop_last(), ansi);
        echo_puts_a_space_between(init, last, ansi);
        assert(init.push(last) =~= args);
        lemma_split_more(echoed(init, init.len(), ansi)->Ok_0, text, ' ');
        assert(texts.drop_last().push(text) =~= texts);
    }
}

/// The text of plain arguments one after the other.
pub open spec fn run_of(texts: Seq<Seq<char>>) -> Seq<char>
    decreases texts.len(),
{
    if texts.len() == 0 {
        Seq::empty()
    } else {
        run_of(texts.drop_last()) + texts.last()
    }
}

/// Whether an argument is a plain value in its place, displayed as `text`.
pub open spec fn displayed(arg: Arg, text: Seq<char>) -> bool {
    arg matches Arg::Pos(Item::Plain { display: Ok(s), .. }) && s@ == text && all_printable(text)
}

proof fn lemma_run(args: Seq<Arg>, texts: Seq<Seq<char>>, n: nat, style: StyleView, ansi: bool)
    requires
        texts.len() == args.len(),
        n <= args.len(),
        forall|i: int| 0 <= i < args.len() ==> displayed(#[trigger] args[i], texts[i]),
    ensures
        rendered_args(args, n, style, ansi) == Ok::<Seq<char>, ErrorView>(
            run_of(texts.take(n as int)),
        ),
        all_printable(run_of(texts.take(n as int))),
    decreases n,
{
    if n > 0 {
        let m = (n - 1) as nat;
        lemma_run(args, texts, m, style, ansi);
        assert(texts.take(n as int).drop_last() =~= texts.take(m as int));
        assert(displayed(args[n - 1], texts[n - 1]));
        printable_is_unchanged(ModeView::Plain, texts[n - 1]);
        let run = run_of(texts.take(n as int));
        assert forall|i: int| 0 <= i < run.len() implies printable(#[trigger] run[i]) by {
            let before = run_of(texts.take(m as int));
            if i < before.len() {
                assert(run[i] == before[i]);
            } else {
                assert(run[i] == texts[n - 1][i - before.len()]);
            }
        }
    }
}

/// Text without escape characters, followed by a reset, is all shown in the
/// style that is selected before it.
proof fn lemma_shown_run(s: Seq<char>, at: int, to: int, style: StyleView)
    requires
        0 <= at <= to,
        s.len() == to + 4,
        forall|i: int| at <= i < to ==> (#[trigger] s[i]) != '\x1b',
        s.skip(to) == "\x1b[0m"@,
    ensures
        shown_from(s, at, style).len() == to - at,
        forall|i: int|
            0 <= i < to - at ==> (#[trigger] shown_from(s, at, style)[i]).0 == s[at + i]
                && shown_from(s, at, style)[i].2 == style,
        style_from(s, at, style) == StyleView::plain(),
    decreases to - at,
{
    if at < to {
        lemma_shown_run(s, at + 1, to, style);
        let rest = shown_from(s, at + 1, style);
        let all = shown_from(s, at, style);
        assert(s[at] != '\x1b');
        assert(sgr_end(s, at) is None);
        assert(all =~= seq![(s[at], at + 1, style)] + rest);
        assert forall|i: int| 0 <= i < to - at implies (#[trigger] all[i]).0 == s[at + i]
            && all[i].2 == style by {
            if i > 0 {
                assert(all[i] == rest[i - 1]);
            }
        }
    } else {
        reveal_strlit("\x1b[0m");
        assert(s.skip(to)[0] == s[to] && s.skip(to)[1] == s[to + 1] && s.skip(to)[2] == s[to + 2]
            && s.skip(to)[3] == s[to + 3]);
        reveal_with_fuel(first_final, 3);
        assert(sgr_end(s, to) == Some(to + 3));
        lemma_reset_ops();
        assert(s.subrange(to + 2, to + 3) =~= seq!['0']);
        reveal_with_fuel(StyleView::applied_all, 2);
        reveal_with_fuel(shown_from, 2);
        reveal_with_fuel(style_from, 2);
    }
}

/// Printing plain values in a style shows all of them, one after the other, in
/// exactly that style, and leaves no style selected. Where styling is not
/// wanted, their text is all there is.
pub proof fn print_shows_its_style(args: Seq<Arg>, texts: Seq<Seq<char>>, style: StyleView)
    requires
        texts.len() == args.len(),
        forall|i: int| 0 <= i < args.len() ==> displayed(#[trigger] args[i], texts[i]),
        style.valid(),
        nameable(style),
    ensures
        styled_args(args, style, false) == Ok::<Seq<char>, ErrorView>(run_of(texts)),
        styled_args(args, style, true) is Ok,
        ({
            let out = styled_args(args, style, true)->Ok_0;
            &&& visible(out) == run_of(texts)
            &&& forall|i: int| 0 <= i < shown(out).len() ==> (#[trigger] shown(out)[i]).2 == style
            &&& style_after(out) == StyleView::plain()
        }),
{
    lemma_run(args, texts, args.len(), style, true);
    lemma_run(args, texts, args.len(), style, false);
    assert(texts.take(args.len() as int) =~= texts);
    let body = run_of(texts);
    let out = styled_args(args, style, true)->Ok_0;
    assert forall|i: int| 0 <= i < body.len() implies (#[trigger] body[i]) != '\x1b' by {
        assert(printable(body[i]));
    }
    if style == StyleView::plain() {
        lemma_plain_run(body, 0);
    } else {
        let params = joined(style_params(style), ";"@);
        let enc = sgr_sequence(params);
        lemma_style_params_no_final(style);
        written_style_is_selected(style);
        lemma_scan_sequence(
            FilterView::start(ModeView::Preformat),
            params,
        );
        reveal_strlit("\x1b[");
        reveal_strlit("m");
        reveal_strlit("\x1b[0m");
        let n = enc.len() as int;
        assert(enc[0] == '\x1b' && enc[1] == '[' && enc[n - 1] == 'm');
        assert forall|i: int| 2 <= i < n - 1 implies !is_final(
            #[trigger] enc[i],
        ) by {
            assert(enc[i] == params[i - 2]);
        }
        assert(forall|i: int| 0 <= i < n ==> out[i] == enc[i]);
        assert(forall|i: int| 0 <= i < body.len() ==> out[n + i] == body[i]);
        lemma_final_in(out, 2, n - 1);
        assert(sgr_end(out, 0) == Some(n - 1));
        assert(out.subrange(2, n - 1) =~= params);
        assert(StyleView::plain().applied_all(params_ops(params)) == style);
        let to = n + body.len();
        assert(out.skip(to) =~= "\x1b[0m"@);
        assert forall|i: int| n <= i < to implies (#[trigger] out[i]) != '\x1b' by {
            assert(out[i] == body[i - n]);
        }
        lemma_shown_run(out, n, to, style);
        assert(shown(out) == shown_from(out, n, style));
        assert(visible(out) =~= body);
    }
}

/// Where the first final character stands.
proof fn lemma_final_in(s: Seq<char>, from: int, end: int)
    requires
        0 <= from <= end < s.len(),
        is_final(s[end]),
        forall|i: int| from <= i < end ==> !is_final(#[trigger] s[i]),
    ensures
        first_final(s, from) == end,
    decreases end - from,
{
    if from < end {
        assert(!is_final(s[from]));
        lemma_final_in(s, from + 1, end);
    }
}

proof fn lemma_plain_run(s: Seq<char>, at: int)
    requires
        0 <= at <= s.len(),
        forall|i: int| 0 <= i < s.len() ==> (#[trigger] s[i]) != '\x1b',
    ensures
        shown_chars(shown_from(s, at, StyleView::plain())) == s.skip(at),
        forall|i: int|
            0 <= i < shown_from(s, at, StyleView::plain()).len() ==> (#[trigger] shown_from(
                s,
                at,
                StyleView::plain(),
            )[i]).2 == StyleView::plain(),
        style_from(s, at, StyleView::plain()) == StyleView::plain(),
    decreases s.len() - at,
{
    let plain = StyleView::plain();
    if at < s.len() {
        lemma_plain_run(s, at + 1);
        assert(s[at] != '\x1b');
        let rest = shown_from(s, at + 1, plain);
        let all = shown_from(s, at, plain);
        assert(all =~= seq![(s[at], at + 1, plain)] + rest);
        assert(shown_chars(all) =~= seq![s[at]] + shown_chars(rest));
        assert(seq![s[at]] + s.skip(at + 1) =~= s.skip(at));
        assert forall|i: int| 0 <= i < all.len() implies (#[trigger] all[i]).2 == plain by {
            if i > 0 {
                assert(all[i] == rest[i - 1]);
            }
        }
    } else {
        assert(shown_chars(shown_from(s, at, plain)) =~= s.skip(at));
    }
    if at == 0 {
        assert(s.skip(0) =~= s);
    }
}

/// A sequence renders as its segments do, one after the other; one that still
/// has a parameter cannot be rendered.
pub proof fn sequences_render_their_segments(
    before: Vec<Segment>,
    after: Vec<Segment>,
    last: Segment,
    parent: StyleView,
    ansi: bool,
    argument: bool,
)
    requires
        after@ == before@.push(last),
    ensures
        ({
            let all = rendered(Item::Fmt(after), parent, ansi, argument);
            match (rendered(Item::Fmt(before), parent, ansi, argument), last) {
                (Err(e), _) => all == Err::<Seq<char>, ErrorView>(e),
                (Ok(_), Segment::Param(_)) => all is Err,
                (Ok(s), Segment::Item(item)) => match rendered(item, parent, ansi, argument) {
                    Ok(t) => all == Ok::<Seq<char>, ErrorView>(s + t),
                    Err(e) => all == Err::<Seq<char>, ErrorView>(e),
                },
            }
        }),
        before@.len() == 0 ==> rendered(Item::Fmt(before), parent, ansi, argument) == Ok::<
            Seq<char>,
            ErrorView,
        >(Seq::empty()),
{
    let a = Item::Fmt(before);
    let b = Item::Fmt(after);
    lemma_segments_prefix(a, b, before@.len(), parent, ansi, argument);
    assert(rendered(a, parent, ansi, argument) == rendered_segments(
        a,
        before@.len(),
        parent,
        ansi,
        argument,
    ));
    assert(rendered(b, parent, ansi, argument) == rendered_segments(
        b,
        after@.len(),
        parent,
        ansi,
        argument,
    ));
    assert(after@[after@.len() - 1] == last);
}

proof fn lemma_segments_prefix(
    a: Item,
    b: Item,
    n: nat,
    parent: StyleView,
    ansi: bool,
    argument: bool,
)
    requires
        a is Fmt,
        b is Fmt,
        n <= a->Fmt_0@.len(),
        n <= b->Fmt_0@.len(),
        forall|i: int| 0 <= i < n ==> a->Fmt_0@[i] == b->Fmt_0@[i],
    ensures
        rendered_segments(a, n, parent, ansi, argument) == rendered_segments(
            b,
            n,
            parent,
            ansi,
            argument,
        ),
    decreases n,
{
    if n > 0 {
        lemma_segments_prefix(a, b, (n - 1) as nat, parent, ansi, argument);
    }
}

/// Whether `s` is `content` between fill characters, `left` and `right` of
/// them.
pub open spec fn between(s: Seq<char>, fill: char, left: nat, content: Seq<char>, right: nat) -> bool {
    &&& s.len() == left + content.len() + right
    &&& s.subrange(left as int, (left + content.len()) as int) == content
    &&& forall|i: int| 0 <= i < left ==> (#[trigger] s[i]) == fill
    &&& forall|i: int| left + content.len() <= i < s.len() ==> (#[trigger] s[i]) == fill
}

/// How many fill characters stand left and right of a text that takes
/// `measured` cells: as many as are missing, on the side that the alignment
/// leaves free.
pub open spec fn fills(spec: Spec, measured: usize, left: nat, right: nat) -> bool {
    &&& left + right == match spec.width {
        Some(width) if width > measured => (width - measured) as nat,
        _ => 0nat,
    }
    &&& spec.align is Left ==> left == 0
    &&& spec.align is Right ==> right == 0
    &&& spec.align is Center ==> left <= right <= left + 1
}

/// Whether text is laid out with so many fill characters on both sides.
pub open spec fn pads(spec: Spec, content: Seq<char>, left: nat, right: nat) -> bool {
    let body = match spec.precision {
        Some(precision) => clipped(content, precision),
        None => content,
    };
    fills(spec, counted(cells(visible(body))), left, right) && between(
        laid_out(spec, content),
        spec.fill_char(),
        left,
        body,
        right,
    )
}

/// Laying text out pads it to its width and changes nothing of it, but for
/// clipping it to the precision.
pub proof fn layout_pads_to_the_width(spec: Spec, content: Seq<char>)
    ensures
        exists|left: nat, right: nat| #[trigger] pads(spec, content, left, right),
{
    let body = match spec.precision {
        Some(precision) => clipped(content, precision),
        None => content,
    };
    let measured = counted(cells(visible(body)));
    let s = laid_out(spec, content);
    let missing: nat = match spec.width {
        Some(width) if width > measured => (width - measured) as nat,
        _ => 0nat,
    };
    let left: nat = match spec.align {
        Align::Left => 0,
        Align::Right => missing,
        Align::Center => missing / 2,
    };
    let right = (missing - left) as nat;
    assert(s.subrange(left as int, (left + body.len()) as int) =~= body);
    assert(between(s, spec.fill_char(), left, body, right));
    assert(pads(spec, content, left, right));
}

} // verus!

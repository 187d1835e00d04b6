//! What styled text looks like inside other styled text.

use vstd::prelude::*;
use crate::term::filter::{op_output, ops_output, printable, restored, FilterView, ModeView};
use crate::term::filter_laws::{
    canonical, encoding_round_trips, lemma_ops_canonical, nameable, scan_in_pieces,
    written_style_is_selected,
};
use crate::term::sgr::{params_ops, sgr_values};
use crate::term::style::{attr_encoding, sgr_encoding, style_encoding, Sgr, StyleView};

verus! {

/// A style on top of another: what it selects counts, and the other shows
/// through wherever it selects nothing.
pub open spec fn on_top(parent: StyleView, own: StyleView) -> StyleView {
    StyleView {
        fg: if own.fg is Some {
            own.fg
        } else {
            parent.fg
        },
        bg: if own.bg is Some {
            own.bg
        } else {
            parent.bg
        },
        attrs: Seq::new(8, |i: int| own.attrs[i] || parent.attrs[i]),
    }
}

/// A terminal that has a style selected.
pub open spec fn selecting(style: StyleView) -> FilterView {
    FilterView { style, ..FilterView::start(ModeView::Preformat) }
}

/// Whether a terminal is between sequences, with a style selected.
spec fn selects(f: FilterView, style: StyleView) -> bool {
    f.mode is Preformat && f.state is Ground && f.style == style
}

/// What a terminal selects does not depend on what it showed.
proof fn lemma_scan_style(f: FilterView, g: FilterView, input: Seq<char>)
    requires
        f.mode == g.mode,
        f.state == g.state,
        f.style == g.style,
    ensures
        f.scan(input).mode == g.scan(input).mode,
        f.scan(input).state == g.scan(input).state,
        f.scan(input).style == g.scan(input).style,
    decreases input.len(),
{
    if input.len() > 0 {
        lemma_scan_style(f, g, input.drop_last());
    }
}

proof fn lemma_one_op(f: FilterView, op: Sgr)
    requires
        f.mode is Preformat,
        f.state is Ground,
        canonical(op),
    ensures
        selects(f.scan(sgr_encoding(op)), f.style.applied(op)),
{
    encoding_round_trips(f, op);
    let ops = seq![op];
    assert(ops.drop_first() =~= Seq::<Sgr>::empty());
    reveal_with_fuel(StyleView::applied_all, 2);
}

proof fn lemma_attr(f: FilterView, parent: StyleView, attr: int)
    requires
        f.mode is Preformat,
        f.state is Ground,
        f.style.valid(),
        parent.valid(),
        0 <= attr < 8,
    ensures
        selects(
            f.scan(attr_encoding(parent, attr)),
            if parent.attrs[attr] {
                f.style.applied(Sgr::AttrOn(attr as usize))
            } else {
                f.style
            },
        ),
{
    if parent.attrs[attr] {
        lemma_one_op(f, Sgr::AttrOn(attr as usize));
    }
}

/// One change inside a parent does to the terminal what the change does to the
/// text's own style, with the parent below.
proof fn lemma_nested_op(f: FilterView, parent: StyleView, own: StyleView, op: Sgr)
    requires
        parent.valid(),
        nameable(parent),
        own.valid(),
        canonical(op),
        selects(f, on_top(parent, own)),
    ensures
        own.applied(op).valid(),
        selects(
            f.scan(op_output(ModeView::Child(parent), op)),
            on_top(parent, own.applied(op)),
        ),
{
    let first = f.scan(sgr_encoding(op));
    let rest = restored(parent, op);
    lemma_one_op(f, op);
    scan_in_pieces(f, sgr_encoding(op), rest);
    let target = on_top(parent, own.applied(op));
    let all = first.scan(rest);
    match op {
        Sgr::Reset => {
            written_style_is_selected(parent);
            lemma_scan_style(first, FilterView::start(ModeView::Preformat), rest);
            assert(rest == style_encoding(parent));
            assert(FilterView::start(ModeView::Preformat).scan(rest).mode is Preformat) by {
                lemma_mode(FilterView::start(ModeView::Preformat), rest);
            }
            assert(target =~= parent);
        },
        Sgr::AttrOn(attr) => {
            assert(first.style =~= target);
            assert(first.scan(rest) == first);
        },
        Sgr::AttrOff(attr, code) => {
            lemma_attr(first, parent, attr as int);
            assert(all.style =~= target);
        },
        Sgr::IntensityOff => {
            let bold = attr_encoding(parent, 0);
            let dim = attr_encoding(parent, 1);
            scan_in_pieces(first, bold, dim);
            lemma_attr(first, parent, 0);
            lemma_attr(first.scan(bold), parent, 1);
            assert(all.style =~= target);
        },
        Sgr::Fg(None) => {
            if parent.fg is Some {
                lemma_one_op(first, Sgr::Fg(parent.fg));
            } else {
                assert(first.scan(rest) == first);
            }
            assert(all.style =~= target);
        },
        Sgr::Bg(None) => {
            if parent.bg is Some {
                lemma_one_op(first, Sgr::Bg(parent.bg));
            } else {
                assert(first.scan(rest) == first);
            }
            assert(all.style =~= target);
        },
        _ => {
            assert(first.scan(rest) == first);
            assert(first.style =~= target);
        },
    }
}

proof fn lemma_mode(f: FilterView, input: Seq<char>)
    ensures
        f.scan(input).mode == f.mode,
    decreases input.len(),
{
    if input.len() > 0 {
        lemma_mode(f, input.drop_last());
    }
}

proof fn lemma_nested_ops(f: FilterView, parent: StyleView, own: StyleView, ops: Seq<Sgr>)
    requires
        parent.valid(),
        nameable(parent),
        own.valid(),
        forall|i: int| 0 <= i < ops.len() ==> canonical(#[trigger] ops[i]),
        selects(f, on_top(parent, own)),
    ensures
        own.applied_all(ops).valid(),
        selects(
            f.scan(ops_output(ModeView::Child(parent), ops)),
            on_top(parent, own.applied_all(ops)),
        ),
    decreases ops.len(),
{
    if ops.len() > 0 {
        let mode = ModeView::Child(parent);
        let rest = ops.drop_first();
        assert(canonical(ops[0]));
        lemma_nested_op(f, parent, own, ops[0]);
        scan_in_pieces(f, op_output(mode, ops[0]), ops_output(mode, rest));
        assert forall|i: int| 0 <= i < rest.len() implies canonical(#[trigger] rest[i]) by {
            assert(rest[i] == ops[i + 1]);
        }
        lemma_nested_ops(f.scan(op_output(mode, ops[0])), parent, own.applied(ops[0]), rest);
    }
}

/// Text inside other text never loses the style around it: at every point the
/// terminal has selected what the text itself selects there, on top of the
/// style around it. So text that leaves no style selected leaves the style
/// around it.
pub proof fn nested_text_keeps_its_surroundings(parent: StyleView, s: Seq<char>)
    requires
        parent.valid(),
        nameable(parent),
    ensures
        ({
            let own = FilterView::start(ModeView::Preformat).scan(s).style;
            let out = FilterView::start(ModeView::Child(parent)).scan(s).out;
            let terminal = selecting(parent).scan(out);
            &&& terminal.state is Ground
            &&& terminal.style == on_top(parent, own)
            &&& own == StyleView::plain() ==> terminal.style == parent
        }),
{
    lemma_nested(parent, s);
    assert(on_top(parent, StyleView::plain()) =~= parent);
}

proof fn lemma_nested(parent: StyleView, s: Seq<char>)
    requires
        parent.valid(),
        nameable(parent),
    ensures
        ({
            let own = FilterView::start(ModeView::Preformat).scan(s);
            let child = FilterView::start(ModeView::Child(parent)).scan(s);
            &&& own.mode is Preformat
            &&& child.mode == ModeView::Child(parent)
            &&& own.state == child.state
            &&& own.style.valid()
            &&& selects(selecting(parent).scan(child.out), on_top(parent, own.style))
        }),
    decreases s.len(),
{
    if s.len() == 0 {
        assert(on_top(parent, StyleView::plain()) =~= parent);
    } else {
        lemma_nested(parent, s.drop_last());
        let own = FilterView::start(ModeView::Preformat).scan(s.drop_last());
        let child = FilterView::start(ModeView::Child(parent)).scan(s.drop_last());
        let after = child.step(s.last());
        let c = s.last();
        let f = selecting(parent);
        if child.state is Ground && c != '\x1b' && c != '\u{9b}' && c != '\u{90}' && c != '\u{9d}'
            && c != '\u{9e}' && c != '\u{9f}' && printable(c) {
            assert(after.out.drop_last() =~= child.out);
            assert(f.scan(after.out) == f.scan(child.out).step(c));
        } else if child.state is Csi && c == 'm' {
            let ops = params_ops(child.state->Csi_0);
            lemma_ops_canonical(sgr_values(child.state->Csi_0), 0);
            lemma_nested_ops(f.scan(child.out), parent, own.style, ops);
            scan_in_pieces(f, child.out, ops_output(ModeView::Child(parent), ops));
        } else {
            assert(after.out == child.out);
        }
    }
}

} // verus!

//! What holds of every filtered text.

use vstd::prelude::*;
use crate::term::filter::{
    filtered, is_final, op_output, ops_output, printable, restored, FilterView, ModeView, ScanView,
};
use crate::term::sgr::{
    component, extended_color, params_ops, sgr_ops, sgr_value, sgr_values, simple_op,
};
use crate::term::style::{
    attr_code, attr_encoding, attr_params, color_params, optional_color_params, sgr_encoding,
    sgr_sequence, style_encoding, style_params, Color, Sgr, StyleView,
};
use crate::text::{all_digits, decimal, digit, is_digit, joined, lemma_split_nonempty, number, split};

verus! {

broadcast use vstd::string::group_string_axioms;

/// Text may be written in any pieces: only its characters in order count.
pub proof fn scan_in_pieces(f: FilterView, a: Seq<char>, b: Seq<char>)
    ensures
        f.scan(a + b) == f.scan(a).scan(b),
    decreases b.len(),
{
    if b.len() == 0 {
        assert(a + b =~= a);
    } else {
        scan_in_pieces(f, a, b.drop_last());
        assert((a + b).drop_last() =~= a + b.drop_last());
    }
}

/// Scanning one character more.
pub proof fn lemma_scan_push(f: FilterView, a: Seq<char>, c: char)
    ensures
        f.scan(a.push(c)) == f.scan(a).step(c),
{
    assert(a.push(c).drop_last() =~= a);
}

/// Whether all of `s` may stand outside escape sequences.
pub open spec fn all_printable(s: Seq<char>) -> bool {
    forall|i: int| 0 <= i < s.len() ==> printable(#[trigger] s[i])
}

proof fn lemma_plain_scan(s: Seq<char>)
    ensures
        all_printable(FilterView::start(ModeView::Plain).scan(s).out),
        FilterView::start(ModeView::Plain).scan(s).mode is Plain,
        FilterView::start(ModeView::Plain).scan(s).style == StyleView::plain(),
    decreases s.len(),
{
    if s.len() > 0 {
        lemma_plain_scan(s.drop_last());
        let f = FilterView::start(ModeView::Plain).scan(s.drop_last());
        if f.state is Csi {
            lemma_plain_ops(params_ops(f.state->Csi_0));
        }
    }
}

proof fn lemma_plain_ops(ops: Seq<Sgr>)
    ensures
        ops_output(ModeView::Plain, ops) == Seq::<char>::empty(),
    decreases ops.len(),
{
    if ops.len() > 0 {
        lemma_plain_ops(ops.drop_first());
        assert(ops_output(ModeView::Plain, ops) =~= Seq::<char>::empty());
    }
}

/// Plain text holds no control characters but newlines and tabs.
pub proof fn plain_is_printable(s: Seq<char>)
    ensures
        all_printable(filtered(ModeView::Plain, s)),
{
    lemma_plain_scan(s);
}

/// Text without control characters passes every filter unchanged.
pub proof fn printable_is_unchanged(mode: ModeView, s: Seq<char>)
    requires
        all_printable(s),
    ensures
        filtered(mode, s) == s,
        FilterView::start(mode).scan(s) == (FilterView { out: s, ..FilterView::start(mode) }),
    decreases s.len(),
{
    if s.len() == 0 {
        assert(s =~= Seq::<char>::empty());
    } else {
        assert forall|i: int| 0 <= i < s.drop_last().len() implies printable(
            #[trigger] s.drop_last()[i],
        ) by {
            assert(s.drop_last()[i] == s[i]);
        }
        printable_is_unchanged(mode, s.drop_last());
        assert(printable(s[s.len() - 1]));
        assert(s.drop_last().push(s.last()) =~= s);
    }
}

/// Filtering to plain text twice changes nothing more.
pub proof fn plain_is_idempotent(s: Seq<char>)
    ensures
        filtered(ModeView::Plain, filtered(ModeView::Plain, s)) == filtered(ModeView::Plain, s),
{
    plain_is_printable(s);
    printable_is_unchanged(ModeView::Plain, filtered(ModeView::Plain, s));
}

/// Whether `s` holds no character that ends a control sequence.
pub open spec fn no_final(s: Seq<char>) -> bool {
    forall|i: int| 0 <= i < s.len() ==> !is_final(#[trigger] s[i])
}

/// Digits and separators end no sequence.
pub proof fn lemma_decimal(n: nat)
    ensures
        decimal(n).len() > 0,
        all_digits(decimal(n)),
        no_final(decimal(n)),
        number(decimal(n)) == n,
    decreases n,
{
    if n < 10 {
        let s = seq![digit(n)];
        assert(s.drop_last() =~= Seq::<char>::empty());
        assert(number(Seq::<char>::empty()) == 0);
    } else {
        lemma_decimal(n / 10);
        assert(decimal(n).drop_last() =~= decimal(n / 10));
        assert(is_digit(digit(n % 10)));
        let d = decimal(n);
        assert forall|i: int| 0 <= i < d.len() implies is_digit(#[trigger] d[i]) && !is_final(d[i]) by {
            if i < d.len() - 1 {
                assert(d[i] == decimal(n / 10)[i]);
                assert(is_digit(decimal(n / 10)[i]));
            }
        }
    }
}

/// A control sequence collects its parameters.
pub proof fn lemma_scan_params(f: FilterView, params: Seq<char>)
    requires
        f.state is Csi,
        no_final(params),
    ensures
        f.scan(params) == f.to(ScanView::Csi(f.state->Csi_0 + params)),
    decreases params.len(),
{
    if params.len() == 0 {
        assert(f.state->Csi_0 + params =~= f.state->Csi_0);
    } else {
        assert(no_final(params.drop_last())) by {
            assert forall|i: int| 0 <= i < params.drop_last().len() implies !is_final(
                #[trigger] params.drop_last()[i],
            ) by {
                assert(params.drop_last()[i] == params[i]);
            }
        }
        lemma_scan_params(f, params.drop_last());
        assert(!is_final(params[params.len() - 1]));
        assert((f.state->Csi_0 + params.drop_last()).push(params.last()) =~= f.state->Csi_0 + params);
    }
}

/// A whole sequence performs its rendition changes.
pub proof fn lemma_scan_sequence(f: FilterView, params: Seq<char>)
    requires
        f.state is Ground,
        no_final(params),
    ensures
        f.scan(sgr_sequence(params)) == f.restyled(params_ops(params)),
{
    reveal_strlit("\x1b[");
    reveal_strlit("m");
    let intro = "\x1b["@;
    assert(intro =~= Seq::<char>::empty().push('\x1b').push('['));
    let f1 = f.to(ScanView::Csi(Seq::empty()));
    assert(f.scan(Seq::<char>::empty()) == f);
    lemma_scan_push(f, Seq::empty(), '\x1b');
    lemma_scan_push(f, Seq::<char>::empty().push('\x1b'), '[');
    assert(f.scan(intro) == f1);
    scan_in_pieces(f, intro, params);
    lemma_scan_params(f1, params);
    assert(Seq::<char>::empty() + params =~= params);
    assert(sgr_sequence(params) =~= (intro + params).push('m'));
    lemma_scan_push(f, intro + params, 'm');
    assert(f.scan(sgr_sequence(params)) =~= f.restyled(params_ops(params)));
}

/// The sequences with the given parameters, one after the other.
pub open spec fn sequences(params: Seq<Seq<char>>) -> Seq<char>
    decreases params.len(),
{
    if params.len() == 0 {
        Seq::empty()
    } else {
        sgr_sequence(params[0]) + sequences(params.drop_first())
    }
}

/// Whether none of the parameters ends its sequence early.
pub open spec fn none_final(params: Seq<Seq<char>>) -> bool {
    forall|i: int| 0 <= i < params.len() ==> no_final(#[trigger] params[i])
}

/// Whether `s` consists of sequences that select styles, and nothing else.
pub open spec fn styling(s: Seq<char>) -> bool {
    exists|params: Seq<Seq<char>>| none_final(params) && #[trigger] sequences(params) == s
}

proof fn lemma_sequences_concat(a: Seq<Seq<char>>, b: Seq<Seq<char>>)
    ensures
        sequences(a + b) == sequences(a) + sequences(b),
    decreases a.len(),
{
    if a.len() == 0 {
        assert(a + b =~= b);
        assert(sequences(a) + sequences(b) =~= sequences(b));
    } else {
        lemma_sequences_concat(a.drop_first(), b);
        assert((a + b).drop_first() =~= a.drop_first() + b);
        assert(sequences(a + b) =~= sequences(a) + sequences(b));
    }
}

pub proof fn lemma_styling_concat(a: Seq<char>, b: Seq<char>)
    requires
        styling(a),
        styling(b),
    ensures
        styling(a + b),
{
    let p = choose|params: Seq<Seq<char>>| none_final(params) && #[trigger] sequences(params) == a;
    let q = choose|params: Seq<Seq<char>>| none_final(params) && #[trigger] sequences(params) == b;
    lemma_sequences_concat(p, q);
    assert(none_final(p + q)) by {
        assert forall|i: int| 0 <= i < (p + q).len() implies no_final(#[trigger] (p + q)[i]) by {
            if i < p.len() {
                assert((p + q)[i] == p[i]);
            } else {
                assert((p + q)[i] == q[i - p.len()]);
            }
        }
    }
    assert(sequences(p + q) == a + b);
}

pub proof fn lemma_styling_empty()
    ensures
        styling(Seq::<char>::empty()),
{
    assert(sequences(Seq::empty()) == Seq::<char>::empty());
}

pub proof fn lemma_styling_sequence(params: Seq<char>)
    requires
        no_final(params),
    ensures
        styling(sgr_sequence(params)),
{
    let all = seq![params];
    reveal_with_fuel(sequences, 2);
    assert(all.drop_first() =~= Seq::<Seq<char>>::empty());
    assert(sequences(all) =~= sgr_sequence(params));
}

/// To plain text, styling means nothing.
pub proof fn lemma_styling_dropped(f: FilterView, params: Seq<Seq<char>>)
    requires
        f.mode is Plain,
        f.state is Ground,
        none_final(params),
    ensures
        f.scan(sequences(params)) == f,
    decreases params.len(),
{
    if params.len() > 0 {
        let rest = params.drop_first();
        assert(none_final(rest)) by {
            assert forall|i: int| 0 <= i < rest.len() implies no_final(#[trigger] rest[i]) by {
                assert(rest[i] == params[i + 1]);
            }
        }
        assert(no_final(params[0]));
        lemma_scan_sequence(f, params[0]);
        lemma_plain_ops(params_ops(params[0]));
        assert(f.out + Seq::<char>::empty() =~= f.out);
        scan_in_pieces(f, sgr_sequence(params[0]), sequences(rest));
        lemma_styling_dropped(f, rest);
    }
}

proof fn lemma_no_final_concat(a: Seq<char>, b: Seq<char>)
    requires
        no_final(a),
        no_final(b),
    ensures
        no_final(a + b),
{
    assert forall|i: int| 0 <= i < (a + b).len() implies !is_final(#[trigger] (a + b)[i]) by {
        if i < a.len() {
            assert((a + b)[i] == a[i]);
        } else {
            assert((a + b)[i] == b[i - a.len()]);
        }
    }
}

proof fn lemma_color_params_no_final(color: Color, foreground: bool)
    ensures
        no_final(color_params(color, foreground)),
{
    reveal_strlit("38;5;");
    reveal_strlit("48;5;");
    reveal_strlit("38;2;");
    reveal_strlit("48;2;");
    reveal_strlit(";");
    match color {
        Color::Ansi(value) => {
            lemma_decimal((if foreground { 30 } else { 40nat }) + value as nat);
            lemma_decimal((if foreground { 82 } else { 92nat }) + value as nat);
        },
        Color::Indexed(value) => {
            lemma_decimal(value as nat);
            lemma_no_final_concat(if foreground { "38;5;"@ } else { "48;5;"@ }, decimal(value as nat));
        },
        Color::Rgb(r, g, b) => {
            lemma_decimal(r as nat);
            lemma_decimal(g as nat);
            lemma_decimal(b as nat);
            let p0 = if foreground { "38;2;"@ } else { "48;2;"@ };
            lemma_no_final_concat(p0, decimal(r as nat));
            lemma_no_final_concat(p0 + decimal(r as nat), ";"@);
            lemma_no_final_concat(p0 + decimal(r as nat) + ";"@, decimal(g as nat));
            lemma_no_final_concat(p0 + decimal(r as nat) + ";"@ + decimal(g as nat), ";"@);
            lemma_no_final_concat(
                p0 + decimal(r as nat) + ";"@ + decimal(g as nat) + ";"@,
                decimal(b as nat),
            );
        },
    }
}

/// The sequences with fixed parameters, in the general form.
proof fn lemma_fixed_sequences()
    ensures
        "\x1b[0m"@ == sgr_sequence(decimal(0)),
        "\x1b[22m"@ == sgr_sequence(decimal(22)),
        "\x1b[39m"@ == sgr_sequence(decimal(39)),
        "\x1b[49m"@ == sgr_sequence(decimal(49)),
{
    reveal_strlit("\x1b[");
    reveal_strlit("m");
    reveal_strlit("\x1b[0m");
    reveal_strlit("\x1b[22m");
    reveal_strlit("\x1b[39m");
    reveal_strlit("\x1b[49m");
    reveal_with_fuel(decimal, 3);
    assert("\x1b[0m"@ =~= sgr_sequence(decimal(0)));
    assert("\x1b[22m"@ =~= sgr_sequence(decimal(22)));
    assert("\x1b[39m"@ =~= sgr_sequence(decimal(39)));
    assert("\x1b[49m"@ =~= sgr_sequence(decimal(49)));
}

pub proof fn lemma_styling_sgr(op: Sgr)
    ensures
        styling(sgr_encoding(op)),
{
    lemma_fixed_sequences();
    match op {
        Sgr::Reset => {
            lemma_decimal(0);
            lemma_styling_sequence(decimal(0));
        },
        Sgr::AttrOn(attr) => {
            lemma_decimal(attr_code(attr as int));
            lemma_styling_sequence(decimal(attr_code(attr as int)));
        },
        Sgr::AttrOff(_, code) => {
            lemma_decimal(code as nat);
            lemma_styling_sequence(decimal(code as nat));
        },
        Sgr::IntensityOff => {
            lemma_decimal(22);
            lemma_styling_sequence(decimal(22));
        },
        Sgr::Fg(None) => {
            lemma_decimal(39);
            lemma_styling_sequence(decimal(39));
        },
        Sgr::Bg(None) => {
            lemma_decimal(49);
            lemma_styling_sequence(decimal(49));
        },
        Sgr::Fg(Some(color)) => {
            lemma_color_params_no_final(color, true);
            lemma_styling_sequence(color_params(color, true));
        },
        Sgr::Bg(Some(color)) => {
            lemma_color_params_no_final(color, false);
            lemma_styling_sequence(color_params(color, false));
        },
    }
}

proof fn lemma_attr_params_no_final(attrs: Seq<bool>, n: nat)
    ensures
        forall|i: int|
            0 <= i < attr_params(attrs, n).len() ==> no_final(#[trigger] attr_params(attrs, n)[i]),
    decreases n,
{
    if n > 0 {
        lemma_attr_params_no_final(attrs, (n - 1) as nat);
        lemma_decimal(attr_code(n - 1));
        let params = attr_params(attrs, n);
        let before = attr_params(attrs, (n - 1) as nat);
        assert forall|i: int| 0 <= i < params.len() implies no_final(#[trigger] params[i]) by {
            if i < before.len() {
                assert(params[i] == before[i]);
            }
        }
    }
}

proof fn lemma_joined_no_final(parts: Seq<Seq<char>>)
    requires
        forall|i: int| 0 <= i < parts.len() ==> no_final(#[trigger] parts[i]),
    ensures
        no_final(joined(parts, ";"@)),
    decreases parts.len(),
{
    if parts.len() > 1 {
        reveal_strlit(";");
        assert forall|i: int| 0 <= i < parts.drop_last().len() implies no_final(
            #[trigger] parts.drop_last()[i],
        ) by {
            assert(parts.drop_last()[i] == parts[i]);
        }
        lemma_joined_no_final(parts.drop_last());
        lemma_no_final_concat(joined(parts.drop_last(), ";"@), ";"@);
        assert(no_final(parts[parts.len() - 1]));
        lemma_no_final_concat(joined(parts.drop_last(), ";"@) + ";"@, parts.last());
    }
}

pub proof fn lemma_style_params_no_final(style: StyleView)
    ensures
        no_final(joined(style_params(style), ";"@)),
{
    lemma_attr_params_no_final(style.attrs, 8);
    let parts = style_params(style);
    let a = attr_params(style.attrs, 8);
    let b = optional_color_params(style.fg, true);
    if style.fg is Some {
        lemma_color_params_no_final(style.fg->0, true);
    }
    if style.bg is Some {
        lemma_color_params_no_final(style.bg->0, false);
    }
    assert forall|i: int| 0 <= i < parts.len() implies no_final(#[trigger] parts[i]) by {
        if i < a.len() {
            assert(parts[i] == a[i]);
        } else if i < a.len() + b.len() {
            assert(parts[i] == b[i - a.len()]);
        } else {
            assert(parts[i] == optional_color_params(style.bg, false)[i - a.len() - b.len()]);
        }
    }
    lemma_joined_no_final(parts);
}

proof fn lemma_styling_attr(style: StyleView, attr: int)
    ensures
        styling(attr_encoding(style, attr)),
{
    lemma_styling_empty();
    lemma_decimal(attr_code(attr));
    lemma_styling_sequence(decimal(attr_code(attr)));
}

proof fn lemma_styling_op(mode: ModeView, op: Sgr)
    ensures
        styling(op_output(mode, op)),
{
    lemma_styling_empty();
    lemma_styling_sgr(op);
    if mode is Child {
        let parent = mode->Child_0;
        match op {
            Sgr::Reset => {
                lemma_style_params_no_final(parent);
                lemma_styling_sequence(joined(style_params(parent), ";"@));
            },
            Sgr::AttrOff(attr, _) => {
                lemma_styling_attr(parent, attr as int);
            },
            Sgr::IntensityOff => {
                lemma_styling_attr(parent, 0);
                lemma_styling_attr(parent, 1);
                lemma_styling_concat(attr_encoding(parent, 0), attr_encoding(parent, 1));
            },
            Sgr::Fg(None) => {
                if parent.fg is Some {
                    lemma_styling_sgr(Sgr::Fg(parent.fg));
                }
            },
            Sgr::Bg(None) => {
                if parent.bg is Some {
                    lemma_styling_sgr(Sgr::Bg(parent.bg));
                }
            },
            _ => {},
        }
        lemma_styling_concat(sgr_encoding(op), restored(parent, op));
    }
}

/// Rendition changes are written as styling.
pub proof fn lemma_styling_ops(mode: ModeView, ops: Seq<Sgr>)
    ensures
        styling(ops_output(mode, ops)),
    decreases ops.len(),
{
    lemma_styling_empty();
    if ops.len() > 0 {
        lemma_styling_op(mode, ops[0]);
        lemma_styling_ops(mode, ops.drop_first());
        lemma_styling_concat(op_output(mode, ops[0]), ops_output(mode, ops.drop_first()));
    }
}

proof fn lemma_content(mode: ModeView, s: Seq<char>)
    ensures
        ({
            let plain = FilterView::start(ModeView::Plain);
            let p = plain.scan(s);
            let q = FilterView::start(mode).scan(s);
            &&& q.mode == mode
            &&& q.state == p.state
            &&& plain.scan(q.out) == (FilterView { out: p.out, ..plain })
        }),
    decreases s.len(),
{
    let plain = FilterView::start(ModeView::Plain);
    if s.len() > 0 {
        lemma_content(mode, s.drop_last());
        let p0 = plain.scan(s.drop_last());
        let q0 = FilterView::start(mode).scan(s.drop_last());
        lemma_plain_scan(s.drop_last());
        let c = s.last();
        if p0.state is Ground && printable(c) {
            lemma_scan_push(plain, q0.out, c);
        } else if p0.state is Csi && c == 'm' {
            let ops = params_ops(p0.state->Csi_0);
            lemma_styling_ops(mode, ops);
            let params = choose|params: Seq<Seq<char>>|
                none_final(params) && #[trigger] sequences(params) == ops_output(mode, ops);
            lemma_styling_dropped(plain.scan(q0.out), params);
            scan_in_pieces(plain, q0.out, ops_output(mode, ops));
            lemma_plain_ops(ops);
            assert(p0.out + Seq::<char>::empty() =~= p0.out);
        }
    }
}

/// Styling is not content: dropping it from any filtered text leaves what
/// filtering to plain text would have left in the first place.
pub proof fn styling_keeps_content(mode: ModeView, s: Seq<char>)
    ensures
        filtered(ModeView::Plain, filtered(mode, s)) == filtered(ModeView::Plain, s),
{
    let plain = FilterView::start(ModeView::Plain);
    lemma_content(mode, s);
    let q = FilterView::start(mode).scan(s);
    lemma_plain_scan(s);
    if mode is Preformat && q.style != StyleView::plain() {
        lemma_styling_sgr(Sgr::Reset);
        let params = choose|params: Seq<Seq<char>>|
            none_final(params) && #[trigger] sequences(params) == "\x1b[0m"@;
        lemma_styling_dropped(plain.scan(q.out), params);
        scan_in_pieces(plain, q.out, "\x1b[0m"@);
    }
}

/// Whether `op` is a change that some parameters ask for.
pub open spec fn canonical(op: Sgr) -> bool {
    match op {
        Sgr::AttrOn(attr) => attr < 8,
        Sgr::AttrOff(attr, code) => simple_op(code as u16) == Some(op),
        Sgr::Fg(Some(Color::Ansi(value))) => value < 16,
        Sgr::Bg(Some(Color::Ansi(value))) => value < 16,
        _ => true,
    }
}

pub proof fn lemma_ops_canonical(values: Seq<Option<u16>>, at: int)
    ensures
        forall|i: int| 0 <= i < sgr_ops(values, at).len() ==> canonical(#[trigger] sgr_ops(values, at)[i]),
    decreases values.len() - at,
{
    if 0 <= at < values.len() {
        let next = match values[at] {
            Some(value) if simple_op(value) is None && (value == 38 || value == 48) => {
                match extended_color(values, at + 1) {
                    Some((_, used)) => at + 1 + (if used == 2 { 2int } else { 4int }),
                    None => at + 1,
                }
            },
            _ => at + 1,
        };
        lemma_ops_canonical(values, next);
        let ops = sgr_ops(values, at);
        let rest = sgr_ops(values, next);
        assert forall|i: int| 0 <= i < ops.len() implies canonical(#[trigger] ops[i]) by {
            if ops.len() == rest.len() {
                assert(ops == rest);
            } else if i > 0 {
                assert(ops[i] == rest[i - 1]);
            }
        }
    }
}

proof fn lemma_split_digits(s: Seq<char>)
    requires
        all_digits(s),
    ensures
        split(s, ';') == seq![s],
    decreases s.len(),
{
    if s.len() == 0 {
        assert(s =~= Seq::<char>::empty());
    } else {
        assert forall|i: int| 0 <= i < s.drop_last().len() implies is_digit(
            #[trigger] s.drop_last()[i],
        ) by {
            assert(s.drop_last()[i] == s[i]);
        }
        lemma_split_digits(s.drop_last());
        assert(is_digit(s[s.len() - 1]));
        assert(s.drop_last().push(s.last()) =~= s);
        assert(split(s, ';') =~= seq![s]);
    }
}

proof fn lemma_split_concat(a: Seq<char>, b: Seq<char>)
    ensures
        split(a.push(';') + b, ';') == split(a, ';') + split(b, ';'),
    decreases b.len(),
{
    lemma_split_nonempty(b, ';');
    let whole = a.push(';') + b;
    if b.len() == 0 {
        assert(whole =~= a.push(';'));
        assert(whole.drop_last() =~= a);
        assert(split(whole, ';') =~= split(a, ';') + split(b, ';'));
    } else {
        lemma_split_concat(a, b.drop_last());
        lemma_split_nonempty(b.drop_last(), ';');
        assert(whole.drop_last() =~= a.push(';') + b.drop_last());
        assert(split(whole, ';') =~= split(a, ';') + split(b, ';'));
    }
}

/// One decimal parameter has its value.
proof fn lemma_value(n: nat)
    requires
        n <= u16::MAX,
    ensures
        sgr_values(decimal(n)) == seq![Some(n as u16)],
{
    lemma_decimal(n);
    lemma_split_digits(decimal(n));
    assert(is_digit(decimal(n)[0]));
    assert(sgr_values(decimal(n)) =~= seq![Some(n as u16)]);
}

/// Another parameter in front.
proof fn lemma_value_front(n: nat, rest: Seq<char>)
    requires
        n <= u16::MAX,
    ensures
        sgr_values(decimal(n).push(';') + rest) == seq![Some(n as u16)] + sgr_values(rest),
{
    lemma_value(n);
    lemma_split_concat(decimal(n), rest);
    lemma_split_nonempty(rest, ';');
    lemma_decimal(n);
    lemma_split_digits(decimal(n));
    let f = |value: Seq<char>| sgr_value(value);
    assert((split(decimal(n), ';') + split(rest, ';')).map_values(f) =~= split(
        decimal(n),
        ';',
    ).map_values(f) + split(rest, ';').map_values(f));
}

proof fn lemma_color_values(color: Color, foreground: bool)
    requires
        color is Ansi ==> color->Ansi_0 < 16,
    ensures
        ({
            let lead: u16 = if foreground { 38 } else { 48 };
            sgr_values(color_params(color, foreground)) == match color {
                Color::Ansi(value) => if value <= 7 {
                    seq![Some(((if foreground { 30 } else { 40int }) + value) as u16)]
                } else {
                    seq![Some(((if foreground { 82 } else { 92int }) + value) as u16)]
                },
                Color::Indexed(value) => seq![Some(lead), Some(5u16), Some(value as u16)],
                Color::Rgb(r, g, b) => seq![
                    Some(lead),
                    Some(2u16),
                    Some(r as u16),
                    Some(g as u16),
                    Some(b as u16),
                ],
            }
        }),
{
    reveal_strlit("38;5;");
    reveal_strlit("48;5;");
    reveal_strlit("38;2;");
    reveal_strlit("48;2;");
    reveal_strlit(";");
    reveal_with_fuel(decimal, 3);
    let lead: nat = if foreground { 38 } else { 48 };
    match color {
        Color::Ansi(value) => {
            lemma_value((if foreground { 30 } else { 40nat }) + value as nat);
            lemma_value((if foreground { 82 } else { 92nat }) + value as nat);
        },
        Color::Indexed(value) => {
            let c = decimal(value as nat);
            lemma_value(value as nat);
            lemma_value_front(5, c);
            lemma_value_front(lead, decimal(5).push(';') + c);
            assert(color_params(color, foreground) =~= decimal(lead).push(';') + (decimal(5).push(';')
                + c));
            assert(sgr_values(color_params(color, foreground)) =~= seq![
                Some(lead as u16),
                Some(5u16),
                Some(value as u16),
            ]);
        },
        Color::Rgb(r, g, b) => {
            let s3 = decimal(b as nat);
            let s2 = decimal(g as nat).push(';') + s3;
            let s1 = decimal(r as nat).push(';') + s2;
            lemma_value(b as nat);
            lemma_value_front(g as nat, s3);
            lemma_value_front(r as nat, s2);
            lemma_value_front(2, s1);
            lemma_value_front(lead, decimal(2).push(';') + s1);
            assert(color_params(color, foreground) =~= decimal(lead).push(';') + (decimal(2).push(';')
                + s1));
            assert(sgr_values(color_params(color, foreground)) =~= seq![
                Some(lead as u16),
                Some(2u16),
                Some(r as u16),
                Some(g as u16),
                Some(b as u16),
            ]);
        },
    }
}

proof fn lemma_single(values: Seq<Option<u16>>, value: u16)
    requires
        values == seq![Some(value)],
        simple_op(value) is Some,
    ensures
        sgr_ops(values, 0) == seq![simple_op(value)->0],
{
    assert(sgr_ops(values, 1) =~= Seq::<Sgr>::empty());
    assert(sgr_ops(values, 0) =~= seq![simple_op(value)->0]);
}

proof fn lemma_color_ops(color: Color, foreground: bool)
    requires
        color is Ansi ==> color->Ansi_0 < 16,
    ensures
        params_ops(color_params(color, foreground)) == seq![
            if foreground {
                Sgr::Fg(Some(color))
            } else {
                Sgr::Bg(Some(color))
            },
        ],
{
    lemma_color_values(color, foreground);
    let values = sgr_values(color_params(color, foreground));
    match color {
        Color::Ansi(value) => {
            lemma_single(values, values[0]->0);
        },
        Color::Indexed(value) => {
            assert(sgr_ops(values, 3) =~= Seq::<Sgr>::empty());
            assert(component(values, 2) == Some(value));
        },
        Color::Rgb(r, g, b) => {
            assert(sgr_ops(values, 5) =~= Seq::<Sgr>::empty());
            assert(component(values, 2) == Some(r));
            assert(component(values, 3) == Some(g));
            assert(component(values, 4) == Some(b));
        },
    }
    assert(sgr_ops(values, 0) =~= seq![
        if foreground {
            Sgr::Fg(Some(color))
        } else {
            Sgr::Bg(Some(color))
        },
    ]);
}

/// A sequence written for one rendition change asks for exactly that change.
pub proof fn encoding_round_trips(f: FilterView, op: Sgr)
    requires
        canonical(op),
        f.state is Ground,
    ensures
        f.scan(sgr_encoding(op)) == f.restyled(seq![op]),
{
    lemma_fixed_sequences();
    match op {
        Sgr::Reset => {
            lemma_decimal(0);
            lemma_value(0);
            lemma_single(sgr_values(decimal(0)), 0);
            lemma_scan_sequence(f, decimal(0));
        },
        Sgr::AttrOn(attr) => {
            let code = attr_code(attr as int);
            lemma_decimal(code);
            lemma_value(code);
            lemma_single(sgr_values(decimal(code)), code as u16);
            lemma_scan_sequence(f, decimal(code));
        },
        Sgr::AttrOff(_, code) => {
            lemma_decimal(code as nat);
            lemma_value(code as nat);
            lemma_single(sgr_values(decimal(code as nat)), code as u16);
            lemma_scan_sequence(f, decimal(code as nat));
        },
        Sgr::IntensityOff => {
            lemma_decimal(22);
            lemma_value(22);
            lemma_single(sgr_values(decimal(22)), 22);
            lemma_scan_sequence(f, decimal(22));
        },
        Sgr::Fg(None) => {
            lemma_decimal(39);
            lemma_value(39);
            lemma_single(sgr_values(decimal(39)), 39);
            lemma_scan_sequence(f, decimal(39));
        },
        Sgr::Bg(None) => {
            lemma_decimal(49);
            lemma_value(49);
            lemma_single(sgr_values(decimal(49)), 49);
            lemma_scan_sequence(f, decimal(49));
        },
        Sgr::Fg(Some(color)) => {
            lemma_color_params_no_final(color, true);
            lemma_color_ops(color, true);
            lemma_scan_sequence(f, color_params(color, true));
        },
        Sgr::Bg(Some(color)) => {
            lemma_color_params_no_final(color, false);
            lemma_color_ops(color, false);
            lemma_scan_sequence(f, color_params(color, false));
        },
    }
}

proof fn lemma_rescan_ops(f: FilterView, ops: Seq<Sgr>)
    requires
        f.mode is Preformat,
        f.state is Ground,
        forall|i: int| 0 <= i < ops.len() ==> canonical(#[trigger] ops[i]),
    ensures
        f.scan(ops_output(f.mode, ops)) == f.restyled(ops),
    decreases ops.len(),
{
    if ops.len() == 0 {
        assert(f.out + Seq::<char>::empty() =~= f.out);
        assert(f.restyled(ops) =~= f);
    } else {
        let head = sgr_encoding(ops[0]);
        let tail = ops_output(f.mode, ops.drop_first());
        encoding_round_trips(f, ops[0]);
        let f1 = f.restyled(seq![ops[0]]);
        assert(seq![ops[0]].drop_first() =~= Seq::<Sgr>::empty());
        reveal_with_fuel(ops_output, 2);
        reveal_with_fuel(StyleView::applied_all, 2);
        assert(ops_output(f.mode, seq![ops[0]]) =~= head);
        assert forall|i: int| 0 <= i < ops.drop_first().len() implies canonical(
            #[trigger] ops.drop_first()[i],
        ) by {
            assert(ops.drop_first()[i] == ops[i + 1]);
        }
        lemma_rescan_ops(f1, ops.drop_first());
        scan_in_pieces(f, head, tail);
        assert(f.out + head + tail =~= f.out + (head + tail));
        assert(f1.restyled(ops.drop_first()).out =~= f.restyled(ops).out);
    }
}

proof fn lemma_preformat_rescan(s: Seq<char>)
    ensures
        ({
            let start = FilterView::start(ModeView::Preformat);
            let q = start.scan(s);
            q.mode is Preformat && start.scan(q.out) == q.to(ScanView::Ground)
        }),
    decreases s.len(),
{
    let start = FilterView::start(ModeView::Preformat);
    if s.len() > 0 {
        lemma_preformat_rescan(s.drop_last());
        let q0 = start.scan(s.drop_last());
        let c = s.last();
        if q0.state is Ground && printable(c) {
            lemma_scan_push(start, q0.out, c);
        } else if q0.state is Csi && c == 'm' {
            let params = q0.state->Csi_0;
            let ops = params_ops(params);
            lemma_ops_canonical(sgr_values(params), 0);
            lemma_rescan_ops(q0.to(ScanView::Ground), ops);
            scan_in_pieces(start, q0.out, ops_output(q0.mode, ops));
        }
    }
}

/// Preformatted text is canonical: filtering it again changes nothing, so it
/// also ends with no style selected.
pub proof fn preformatted_is_canonical(s: Seq<char>)
    ensures
        filtered(ModeView::Preformat, filtered(ModeView::Preformat, s)) == filtered(
            ModeView::Preformat,
            s,
        ),
        FilterView::start(ModeView::Preformat).scan(filtered(ModeView::Preformat, s)).style
            == StyleView::plain(),
        FilterView::start(ModeView::Preformat).scan(filtered(ModeView::Preformat, s)).state is Ground,
{
    let start = FilterView::start(ModeView::Preformat);
    lemma_preformat_rescan(s);
    let q = start.scan(s);
    if q.style != StyleView::plain() {
        scan_in_pieces(start, q.out, "\x1b[0m"@);
        encoding_round_trips(q.to(ScanView::Ground), Sgr::Reset);
        let ops = seq![Sgr::Reset];
        assert(ops.drop_first() =~= Seq::<Sgr>::empty());
        reveal_with_fuel(ops_output, 2);
        reveal_with_fuel(StyleView::applied_all, 2);
        assert(ops_output(ModeView::Preformat, ops) =~= "\x1b[0m"@);
    }
}

/// Parameters in front do not change what later ones mean on their own.
proof fn lemma_shift(front: Seq<Option<u16>>, rest: Seq<Option<u16>>, at: int)
    requires
        at >= 0,
    ensures
        sgr_ops(front + rest, front.len() + at) == sgr_ops(rest, at),
    decreases rest.len() - at,
{
    let whole = front + rest;
    let n = front.len() as int;
    if at < rest.len() {
        assert(whole[n + at] == rest[at]);
        lemma_shift(front, rest, at + 1);
        assert forall|k: int| k >= 0 implies component(whole, n + k) == #[trigger] component(rest, k) by {
            if k < rest.len() {
                assert(whole[n + k] == rest[k]);
            }
        }
        if at + 1 < rest.len() {
            assert(whole[n + at + 1] == rest[at + 1]);
        }
        assert(component(whole, n + (at + 2)) == component(rest, at + 2));
        assert(component(whole, n + (at + 3)) == component(rest, at + 3));
        assert(component(whole, n + (at + 4)) == component(rest, at + 4));
        assert(extended_color(whole, n + at + 1) == extended_color(rest, at + 1));
        if at + 3 <= rest.len() {
            lemma_shift(front, rest, at + 3);
        }
        if at + 5 <= rest.len() {
            lemma_shift(front, rest, at + 5);
        }
    }
}

/// Whether the parameter text `part` asks for `op` wherever it stands.
spec fn asks(part: Seq<char>, op: Sgr) -> bool {
    forall|rest: Seq<Option<u16>>| #[trigger]
        sgr_ops(sgr_values(part) + rest, 0) == seq![op] + sgr_ops(rest, 0)
}

proof fn lemma_asks_simple(code: nat)
    requires
        code <= u16::MAX,
        simple_op(code as u16) is Some,
    ensures
        asks(decimal(code), simple_op(code as u16)->0),
{
    lemma_value(code);
    let values = sgr_values(decimal(code));
    assert forall|rest: Seq<Option<u16>>| #[trigger]
        sgr_ops(values + rest, 0) == seq![simple_op(code as u16)->0] + sgr_ops(rest, 0) by {
        lemma_shift(values, rest, 0);
        assert((values + rest)[0] == values[0]);
    }
}

proof fn lemma_asks_color(color: Color, foreground: bool)
    requires
        color is Ansi ==> color->Ansi_0 < 16,
    ensures
        asks(
            color_params(color, foreground),
            if foreground {
                Sgr::Fg(Some(color))
            } else {
                Sgr::Bg(Some(color))
            },
        ),
{
    lemma_color_values(color, foreground);
    let values = sgr_values(color_params(color, foreground));
    let op = if foreground {
        Sgr::Fg(Some(color))
    } else {
        Sgr::Bg(Some(color))
    };
    assert forall|rest: Seq<Option<u16>>| #[trigger]
        sgr_ops(values + rest, 0) == seq![op] + sgr_ops(rest, 0) by {
        lemma_shift(values, rest, 0);
        let whole = values + rest;
        assert(forall|i: int| 0 <= i < values.len() ==> whole[i] == values[i]);
        match color {
            Color::Ansi(_) => {},
            Color::Indexed(index) => {
                assert(component(whole, 2) == Some(index));
            },
            Color::Rgb(r, g, b) => {
                assert(component(whole, 2) == Some(r));
                assert(component(whole, 3) == Some(g));
                assert(component(whole, 4) == Some(b));
            },
        }
    }
}

proof fn lemma_joined_asks(parts: Seq<Seq<char>>, ops: Seq<Sgr>, rest: Seq<Option<u16>>)
    requires
        parts.len() == ops.len(),
        parts.len() > 0,
        forall|i: int| 0 <= i < parts.len() ==> asks(#[trigger] parts[i], ops[i]),
    ensures
        sgr_ops(sgr_values(joined(parts, ";"@)) + rest, 0) == ops + sgr_ops(rest, 0),
    decreases parts.len(),
{
    let last = parts.last();
    assert(asks(parts[parts.len() - 1], ops[parts.len() - 1]));
    if parts.len() == 1 {
        assert(ops =~= seq![ops[0]]);
    } else {
        reveal_strlit(";");
        let init = joined(parts.drop_last(), ";"@);
        assert forall|i: int| 0 <= i < parts.drop_last().len() implies asks(
            #[trigger] parts.drop_last()[i],
            ops.drop_last()[i],
        ) by {
            assert(asks(parts[i], ops[i]));
        }
        lemma_joined_asks(parts.drop_last(), ops.drop_last(), sgr_values(last) + rest);
        assert(joined(parts, ";"@) =~= init.push(';') + last);
        lemma_split_concat(init, last);
        let f = |value: Seq<char>| sgr_value(value);
        assert((split(init, ';') + split(last, ';')).map_values(f) =~= split(init, ';').map_values(f)
            + split(last, ';').map_values(f));
        assert(sgr_values(joined(parts, ";"@)) + rest =~= sgr_values(init) + (sgr_values(last) + rest));
        assert(ops.drop_last() + (seq![ops.last()] + sgr_ops(rest, 0)) =~= ops + sgr_ops(rest, 0));
    }
}

/// The changes that turn the first `n` attributes on.
spec fn attr_ops(attrs: Seq<bool>, n: nat) -> Seq<Sgr>
    decreases n,
{
    if n == 0 {
        Seq::empty()
    } else if attrs[n - 1] {
        attr_ops(attrs, (n - 1) as nat).push(Sgr::AttrOn((n - 1) as usize))
    } else {
        attr_ops(attrs, (n - 1) as nat)
    }
}

proof fn lemma_applied_push(style: StyleView, ops: Seq<Sgr>, op: Sgr)
    ensures
        style.applied_all(ops.push(op)) == style.applied_all(ops).applied(op),
    decreases ops.len(),
{
    if ops.len() == 0 {
        assert(ops.push(op).drop_first() =~= Seq::<Sgr>::empty());
        reveal_with_fuel(StyleView::applied_all, 2);
    } else {
        assert(ops.push(op).drop_first() =~= ops.drop_first().push(op));
        lemma_applied_push(style.applied(ops[0]), ops.drop_first(), op);
    }
}

proof fn lemma_attr_ops(attrs: Seq<bool>, n: nat)
    requires
        attrs.len() == 8,
        n <= 8,
    ensures
        attr_ops(attrs, n).len() == attr_params(attrs, n).len(),
        forall|i: int|
            0 <= i < attr_ops(attrs, n).len() ==> asks(
                #[trigger] attr_params(attrs, n)[i],
                attr_ops(attrs, n)[i],
            ),
        StyleView::plain().applied_all(attr_ops(attrs, n)) == (StyleView {
            attrs: Seq::new(8, |i: int| i < n && attrs[i]),
            ..StyleView::plain()
        }),
    decreases n,
{
    if n == 0 {
        assert(Seq::new(8, |i: int| i < n && attrs[i]) =~= StyleView::plain().attrs);
    } else {
        let before = (n - 1) as nat;
        lemma_attr_ops(attrs, before);
        let wanted = Seq::new(8, |i: int| i < n && attrs[i]);
        let had = Seq::new(8, |i: int| i < before && attrs[i]);
        if attrs[n - 1] {
            lemma_asks_simple(attr_code(n - 1));
            lemma_applied_push(
                StyleView::plain(),
                attr_ops(attrs, before),
                Sgr::AttrOn((n - 1) as usize),
            );
            assert(wanted =~= had.update(n - 1, true));
            assert forall|i: int| 0 <= i < attr_ops(attrs, n).len() implies asks(
                #[trigger] attr_params(attrs, n)[i],
                attr_ops(attrs, n)[i],
            ) by {
                if i < attr_ops(attrs, before).len() {
                    assert(asks(attr_params(attrs, before)[i], attr_ops(attrs, before)[i]));
                }
            }
        } else {
            assert(wanted =~= had);
        }
    }
}

/// Whether the style uses no named color beyond the sixteen.
pub open spec fn nameable(style: StyleView) -> bool {
    &&& style.fg matches Some(Color::Ansi(value)) ==> value < 16
    &&& style.bg matches Some(Color::Ansi(value)) ==> value < 16
}

/// Writing a style selects it: a terminal with nothing selected that reads
/// the sequence ends up with exactly that style.
pub proof fn written_style_is_selected(style: StyleView)
    requires
        style.valid(),
        nameable(style),
    ensures
        FilterView::start(ModeView::Preformat).scan(style_encoding(style)).style == style,
        FilterView::start(ModeView::Preformat).scan(style_encoding(style)).state is Ground,
{
    let start = FilterView::start(ModeView::Preformat);
    if style != StyleView::plain() {
        let parts = style_params(style);
        let a = attr_params(style.attrs, 8);
        let mut ops = attr_ops(style.attrs, 8);
        lemma_attr_ops(style.attrs, 8);
        assert(Seq::new(8, |i: int| i < 8 && style.attrs[i]) =~= style.attrs);
        let b = optional_color_params(style.fg, true);
        let base = ops;
        if style.fg is Some {
            lemma_asks_color(style.fg->0, true);
            lemma_applied_push(StyleView::plain(), ops, Sgr::Fg(style.fg));
            ops = ops.push(Sgr::Fg(style.fg));
        }
        let with_fg = ops;
        if style.bg is Some {
            lemma_asks_color(style.bg->0, false);
            lemma_applied_push(StyleView::plain(), ops, Sgr::Bg(style.bg));
            ops = ops.push(Sgr::Bg(style.bg));
        }
        assert forall|i: int| 0 <= i < parts.len() implies asks(#[trigger] parts[i], ops[i]) by {
            if i < a.len() {
                assert(parts[i] == a[i] && ops[i] == base[i]);
                assert(asks(a[i], base[i]));
            } else if i < a.len() + b.len() {
                assert(parts[i] == b[i - a.len()]);
                assert(ops[i] == with_fg[i]);
            } else {
                assert(parts[i] == optional_color_params(style.bg, false)[i - a.len() - b.len()]);
            }
        }
        assert(StyleView::plain().applied_all(ops) =~= style);
        if parts.len() == 0 {
            assert(ops =~= Seq::<Sgr>::empty());
            assert(false);
        }
        lemma_joined_asks(parts, ops, Seq::empty());
        let params = joined(parts, ";"@);
        assert(sgr_values(params) + Seq::<Option<u16>>::empty() =~= sgr_values(params));
        assert(ops + sgr_ops(Seq::empty(), 0) =~= ops);
        lemma_style_params_no_final(style);
        lemma_scan_sequence(start, params);
    }
}

} // verus!

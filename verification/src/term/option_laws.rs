//! What style options select.

use vstd::prelude::*;
use crate::term::options::{attr_option, color_option, mixture, named_color, StyleOptions};
use crate::term::sgr::{simple_op, sgr_ops};
use crate::term::style::{
    Color, Sgr, StyleView, BLINK, BOLD, DIM, HIDDEN, ITALIC, REVERSE, STRIKETHROUGH, UNDERLINE,
};
use crate::value::Value;

verus! {

broadcast use vstd::string::group_string_axioms;

/// The eight colors of a terminal, in the order of their numbers.
pub open spec fn color_names() -> Seq<Seq<char>> {
    seq!["BLACK"@, "RED"@, "GREEN"@, "YELLOW"@, "BLUE"@, "MAGENTA"@, "CYAN"@, "WHITE"@]
}

/// Whether `name` is what the color with the number `k` is called: the bright
/// ones come after the others, in the same order.
pub open spec fn calls(name: Seq<char>, k: int) -> bool {
    ||| 0 <= k < 8 && name == color_names()[k]
    ||| 8 <= k < 16 && name == "BRIGHT_"@ + color_names()[k - 8]
}

/// Whether a value is the component `n` of a mixture.
pub open spec fn is_component(value: Value, n: u8) -> bool {
    value matches Value::Int(i) && i == n as int
}

/// Whether three values are the components of a mixture.
pub open spec fn are_components(values: Seq<Value>, r: u8, g: u8, b: u8) -> bool {
    values.len() == 3 && is_component(values[0], r) && is_component(values[1], g) && is_component(
        values[2],
        b,
    )
}

/// Whether a value means a color, or `:INHERIT:` none.
pub open spec fn means_color(value: Value, color: Option<Color>) -> bool {
    match color {
        None => value matches Value::Sym(s) && s@ == "INHERIT"@,
        Some(Color::Ansi(k)) => value matches Value::Sym(s) && calls(s@, k as int),
        Some(Color::Indexed(n)) => value matches Value::Int(i) && i == n as int,
        Some(Color::Rgb(r, g, b)) => match value {
            Value::Array(values) => are_components(values@, r, g, b),
            Value::Tuple(values) => are_components(values@, r, g, b),
            _ => false,
        },
    }
}

/// Whether a value turns an attribute on, or `:INHERIT:` off.
pub open spec fn means_attr(value: Value, on: bool) -> bool {
    if on {
        value == Value::Bool(true)
    } else {
        value matches Value::Sym(s) && s@ == "INHERIT"@
    }
}

/// Whether an optional color value makes `after` of `before`.
pub open spec fn colored(value: Option<Value>, before: Option<Color>,
    after: Option<Color>) -> bool {
    match value {
        None => after == before,
        Some(value) => means_color(value, after),
    }
}

/// Whether an optional attribute value makes `after` of `before`.
pub open spec fn switched(value: Option<Value>, before: bool, after: bool) -> bool {
    match value {
        None => after == before,
        Some(value) => means_attr(value, after),
    }
}

proof fn lemma_color_names()
    ensures
        "BLACK"@ != "RED"@,
        "BLACK"@ != "GREEN"@,
        "BLACK"@ != "YELLOW"@,
        "BLACK"@ != "BLUE"@,
        "BLACK"@ != "MAGENTA"@,
        "BLACK"@ != "CYAN"@,
        "BLACK"@ != "WHITE"@,
        "BLACK"@ != "BRIGHT_BLACK"@,
        "BLACK"@ != "BRIGHT_RED"@,
        "BLACK"@ != "BRIGHT_GREEN"@,
        "BLACK"@ != "BRIGHT_YELLOW"@,
        "BLACK"@ != "BRIGHT_BLUE"@,
        "BLACK"@ != "BRIGHT_MAGENTA"@,
        "BLACK"@ != "BRIGHT_CYAN"@,
        "BLACK"@ != "BRIGHT_WHITE"@,
        "BLACK"@ != "INHERIT"@,
        "RED"@ != "GREEN"@,
        "RED"@ != "YELLOW"@,
        "RED"@ != "BLUE"@,
        "RED"@ != "MAGENTA"@,
        "RED"@ != "CYAN"@,
        "RED"@ != "WHITE"@,
        "RED"@ != "BRIGHT_BLACK"@,
        "RED"@ != "BRIGHT_RED"@,
        "RED"@ != "BRIGHT_GREEN"@,
        "RED"@ != "BRIGHT_YELLOW"@,
        "RED"@ != "BRIGHT_BLUE"@,
        "RED"@ != "BRIGHT_MAGENTA"@,
        "RED"@ != "BRIGHT_CYAN"@,
        "RED"@ != "BRIGHT_WHITE"@,
        "RED"@ != "INHERIT"@,
        "GREEN"@ != "YELLOW"@,
        "GREEN"@ != "BLUE"@,
        "GREEN"@ != "MAGENTA"@,
        "GREEN"@ != "CYAN"@,
        "GREEN"@ != "WHITE"@,
        "GREEN"@ != "BRIGHT_BLACK"@,
        "GREEN"@ != "BRIGHT_RED"@,
        "GREEN"@ != "BRIGHT_GREEN"@,
        "GREEN"@ != "BRIGHT_YELLOW"@,
        "GREEN"@ != "BRIGHT_BLUE"@,
        "GREEN"@ != "BRIGHT_MAGENTA"@,
        "GREEN"@ != "BRIGHT_CYAN"@,
        "GREEN"@ != "BRIGHT_WHITE"@,
        "GREEN"@ != "INHERIT"@,
        "YELLOW"@ != "BLUE"@,
        "YELLOW"@ != "MAGENTA"@,
        "YELLOW"@ != "CYAN"@,
        "YELLOW"@ != "WHITE"@,
        "YELLOW"@ != "BRIGHT_BLACK"@,
        "YELLOW"@ != "BRIGHT_RED"@,
        "YELLOW"@ != "BRIGHT_GREEN"@,
        "YELLOW"@ != "BRIGHT_YELLOW"@,
        "YELLOW"@ != "BRIGHT_BLUE"@,
        "YELLOW"@ != "BRIGHT_MAGENTA"@,
        "YELLOW"@ != "BRIGHT_CYAN"@,
        "YELLOW"@ != "BRIGHT_WHITE"@,
        "YELLOW"@ != "INHERIT"@,
        "BLUE"@ != "MAGENTA"@,
        "BLUE"@ != "CYAN"@,
        "BLUE"@ != "WHITE"@,
        "BLUE"@ != "BRIGHT_BLACK"@,
        "BLUE"@ != "BRIGHT_RED"@,
        "BLUE"@ != "BRIGHT_GREEN"@,
        "BLUE"@ != "BRIGHT_YELLOW"@,
        "BLUE"@ != "BRIGHT_BLUE"@,
        "BLUE"@ != "BRIGHT_MAGENTA"@,
        "BLUE"@ != "BRIGHT_CYAN"@,
        "BLUE"@ != "BRIGHT_WHITE"@,
        "BLUE"@ != "INHERIT"@,
        "MAGENTA"@ != "CYAN"@,
        "MAGENTA"@ != "WHITE"@,
        "MAGENTA"@ != "BRIGHT_BLACK"@,
        "MAGENTA"@ != "BRIGHT_RED"@,
        "MAGENTA"@ != "BRIGHT_GREEN"@,
        "MAGENTA"@ != "BRIGHT_YELLOW"@,
        "MAGENTA"@ != "BRIGHT_BLUE"@,
        "MAGENTA"@ != "BRIGHT_MAGENTA"@,
        "MAGENTA"@ != "BRIGHT_CYAN"@,
        "MAGENTA"@ != "BRIGHT_WHITE"@,
        "MAGENTA"@ != "INHERIT"@,
        "CYAN"@ != "WHITE"@,
        "CYAN"@ != "BRIGHT_BLACK"@,
        "CYAN"@ != "BRIGHT_RED"@,
        "CYAN"@ != "BRIGHT_GREEN"@,
        "CYAN"@ != "BRIGHT_YELLOW"@,
        "CYAN"@ != "BRIGHT_BLUE"@,
        "CYAN"@ != "BRIGHT_MAGENTA"@,
        "CYAN"@ != "BRIGHT_CYAN"@,
        "CYAN"@ != "BRIGHT_WHITE"@,
        "CYAN"@ != "INHERIT"@,
        "WHITE"@ != "BRIGHT_BLACK"@,
        "WHITE"@ != "BRIGHT_RED"@,
        "WHITE"@ != "BRIGHT_GREEN"@,
        "WHITE"@ != "BRIGHT_YELLOW"@,
        "WHITE"@ != "BRIGHT_BLUE"@,
        "WHITE"@ != "BRIGHT_MAGENTA"@,
        "WHITE"@ != "BRIGHT_CYAN"@,
        "WHITE"@ != "BRIGHT_WHITE"@,
        "WHITE"@ != "INHERIT"@,
        "BRIGHT_BLACK"@ != "BRIGHT_RED"@,
        "BRIGHT_BLACK"@ != "BRIGHT_GREEN"@,
        "BRIGHT_BLACK"@ != "BRIGHT_YELLOW"@,
        "BRIGHT_BLACK"@ != "BRIGHT_BLUE"@,
        "BRIGHT_BLACK"@ != "BRIGHT_MAGENTA"@,
        "BRIGHT_BLACK"@ != "BRIGHT_CYAN"@,
        "BRIGHT_BLACK"@ != "BRIGHT_WHITE"@,
        "BRIGHT_BLACK"@ != "INHERIT"@,
        "BRIGHT_RED"@ != "BRIGHT_GREEN"@,
        "BRIGHT_RED"@ != "BRIGHT_YELLOW"@,
        "BRIGHT_RED"@ != "BRIGHT_BLUE"@,
        "BRIGHT_RED"@ != "BRIGHT_MAGENTA"@,
        "BRIGHT_RED"@ != "BRIGHT_CYAN"@,
        "BRIGHT_RED"@ != "BRIGHT_WHITE"@,
        "BRIGHT_RED"@ != "INHERIT"@,
        "BRIGHT_GREEN"@ != "BRIGHT_YELLOW"@,
        "BRIGHT_GREEN"@ != "BRIGHT_BLUE"@,
        "BRIGHT_GREEN"@ != "BRIGHT_MAGENTA"@,
        "BRIGHT_GREEN"@ != "BRIGHT_CYAN"@,
        "BRIGHT_GREEN"@ != "BRIGHT_WHITE"@,
        "BRIGHT_GREEN"@ != "INHERIT"@,
        "BRIGHT_YELLOW"@ != "BRIGHT_BLUE"@,
        "BRIGHT_YELLOW"@ != "BRIGHT_MAGENTA"@,
        "BRIGHT_YELLOW"@ != "BRIGHT_CYAN"@,
        "BRIGHT_YELLOW"@ != "BRIGHT_WHITE"@,
        "BRIGHT_YELLOW"@ != "INHERIT"@,
        "BRIGHT_BLUE"@ != "BRIGHT_MAGENTA"@,
        "BRIGHT_BLUE"@ != "BRIGHT_CYAN"@,
        "BRIGHT_BLUE"@ != "BRIGHT_WHITE"@,
        "BRIGHT_BLUE"@ != "INHERIT"@,
        "BRIGHT_MAGENTA"@ != "BRIGHT_CYAN"@,
        "BRIGHT_MAGENTA"@ != "BRIGHT_WHITE"@,
        "BRIGHT_MAGENTA"@ != "INHERIT"@,
        "BRIGHT_CYAN"@ != "BRIGHT_WHITE"@,
        "BRIGHT_CYAN"@ != "INHERIT"@,
        "BRIGHT_WHITE"@ != "INHERIT"@,
        "BRIGHT_"@ + "BLACK"@ == "BRIGHT_BLACK"@,
        "BRIGHT_"@ + "RED"@ == "BRIGHT_RED"@,
        "BRIGHT_"@ + "GREEN"@ == "BRIGHT_GREEN"@,
        "BRIGHT_"@ + "YELLOW"@ == "BRIGHT_YELLOW"@,
        "BRIGHT_"@ + "BLUE"@ == "BRIGHT_BLUE"@,
        "BRIGHT_"@ + "MAGENTA"@ == "BRIGHT_MAGENTA"@,
        "BRIGHT_"@ + "CYAN"@ == "BRIGHT_CYAN"@,
        "BRIGHT_"@ + "WHITE"@ == "BRIGHT_WHITE"@,
{
    reveal_strlit("BLACK");
    reveal_strlit("RED");
    reveal_strlit("GREEN");
    reveal_strlit("YELLOW");
    reveal_strlit("BLUE");
    reveal_strlit("MAGENTA");
    reveal_strlit("CYAN");
    reveal_strlit("WHITE");
    reveal_strlit("BRIGHT_BLACK");
    reveal_strlit("BRIGHT_RED");
    reveal_strlit("BRIGHT_GREEN");
    reveal_strlit("BRIGHT_YELLOW");
    reveal_strlit("BRIGHT_BLUE");
    reveal_strlit("BRIGHT_MAGENTA");
    reveal_strlit("BRIGHT_CYAN");
    reveal_strlit("BRIGHT_WHITE");
    reveal_strlit("INHERIT");
    reveal_strlit("BRIGHT_");
    assert("BLACK"@.len() == 5 && "BLACK"@[0] == 'B' && "BLACK"@[2] == 'A');
    assert("RED"@.len() == 3 && "RED"@[0] == 'R' && "RED"@[2] == 'D');
    assert("GREEN"@.len() == 5 && "GREEN"@[0] == 'G' && "GREEN"@[2] == 'E');
    assert("YELLOW"@.len() == 6 && "YELLOW"@[0] == 'Y' && "YELLOW"@[2] == 'L');
    assert("BLUE"@.len() == 4 && "BLUE"@[0] == 'B' && "BLUE"@[2] == 'U');
    assert("MAGENTA"@.len() == 7 && "MAGENTA"@[0] == 'M' && "MAGENTA"@[2] == 'G');
    assert("CYAN"@.len() == 4 && "CYAN"@[0] == 'C' && "CYAN"@[2] == 'A');
    assert("WHITE"@.len() == 5 && "WHITE"@[0] == 'W' && "WHITE"@[2] == 'I');
    assert("BRIGHT_BLACK"@.len() == 12 && "BRIGHT_BLACK"@[0] == 'B' && "BRIGHT_BLACK"@[2] == 'I'
        && "BRIGHT_BLACK"@[7] == 'B' && "BRIGHT_BLACK"@[9] == 'A');
    assert("BRIGHT_RED"@.len() == 10 && "BRIGHT_RED"@[0] == 'B' && "BRIGHT_RED"@[2] == 'I'
        && "BRIGHT_RED"@[7] == 'R' && "BRIGHT_RED"@[9] == 'D');
    assert("BRIGHT_GREEN"@.len() == 12 && "BRIGHT_GREEN"@[0] == 'B' && "BRIGHT_GREEN"@[2] == 'I'
        && "BRIGHT_GREEN"@[7] == 'G' && "BRIGHT_GREEN"@[9] == 'E');
    assert("BRIGHT_YELLOW"@.len() == 13 && "BRIGHT_YELLOW"@[0] == 'B'
        && "BRIGHT_YELLOW"@[2] == 'I' && "BRIGHT_YELLOW"@[7] == 'Y' && "BRIGHT_YELLOW"@[9] == 'L');
    assert("BRIGHT_BLUE"@.len() == 11 && "BRIGHT_BLUE"@[0] == 'B' && "BRIGHT_BLUE"@[2] == 'I'
        && "BRIGHT_BLUE"@[7] == 'B' && "BRIGHT_BLUE"@[9] == 'U');
    assert("BRIGHT_MAGENTA"@.len() == 14 && "BRIGHT_MAGENTA"@[0] == 'B'
        && "BRIGHT_MAGENTA"@[2] == 'I' && "BRIGHT_MAGENTA"@[7] == 'M'
        && "BRIGHT_MAGENTA"@[9] == 'G');
    assert("BRIGHT_CYAN"@.len() == 11 && "BRIGHT_CYAN"@[0] == 'B' && "BRIGHT_CYAN"@[2] == 'I'
        && "BRIGHT_CYAN"@[7] == 'C' && "BRIGHT_CYAN"@[9] == 'A');
    assert("BRIGHT_WHITE"@.len() == 12 && "BRIGHT_WHITE"@[0] == 'B' && "BRIGHT_WHITE"@[2] == 'I'
        && "BRIGHT_WHITE"@[7] == 'W' && "BRIGHT_WHITE"@[9] == 'I');
    assert("INHERIT"@.len() == 7 && "INHERIT"@[0] == 'I' && "INHERIT"@[2] == 'H');
    assert("BRIGHT_"@ + "BLACK"@ =~= "BRIGHT_BLACK"@);
    assert("BRIGHT_"@ + "RED"@ =~= "BRIGHT_RED"@);
    assert("BRIGHT_"@ + "GREEN"@ =~= "BRIGHT_GREEN"@);
    assert("BRIGHT_"@ + "YELLOW"@ =~= "BRIGHT_YELLOW"@);
    assert("BRIGHT_"@ + "BLUE"@ =~= "BRIGHT_BLUE"@);
    assert("BRIGHT_"@ + "MAGENTA"@ =~= "BRIGHT_MAGENTA"@);
    assert("BRIGHT_"@ + "CYAN"@ =~= "BRIGHT_CYAN"@);
    assert("BRIGHT_"@ + "WHITE"@ =~= "BRIGHT_WHITE"@);
}

/// A color is called by its name, and by no other.
pub proof fn colors_are_called_by_name(name: Seq<char>, k: u8)
    ensures
        named_color(name) == Some(Color::Ansi(k)) <==> calls(name, k as int),
        named_color(name) matches Some(color) ==> color is Ansi,
{
    lemma_color_names();
    assert(named_color(name) == Some(Color::Ansi(k)) ==> calls(name, k as int));
    if calls(name, k as int) {
        if k == 0 {
            assert(name == "BLACK"@);
        }
        if k == 1 {
            assert(name == "RED"@);
        }
        if k == 2 {
            assert(name == "GREEN"@);
        }
        if k == 3 {
            assert(name == "YELLOW"@);
        }
        if k == 4 {
            assert(name == "BLUE"@);
        }
        if k == 5 {
            assert(name == "MAGENTA"@);
        }
        if k == 6 {
            assert(name == "CYAN"@);
        }
        if k == 7 {
            assert(name == "WHITE"@);
        }
        if k == 8 {
            assert(name == "BRIGHT_BLACK"@);
        }
        if k == 9 {
            assert(name == "BRIGHT_RED"@);
        }
        if k == 10 {
            assert(name == "BRIGHT_GREEN"@);
        }
        if k == 11 {
            assert(name == "BRIGHT_YELLOW"@);
        }
        if k == 12 {
            assert(name == "BRIGHT_BLUE"@);
        }
        if k == 13 {
            assert(name == "BRIGHT_MAGENTA"@);
        }
        if k == 14 {
            assert(name == "BRIGHT_CYAN"@);
        }
        if k == 15 {
            assert(name == "BRIGHT_WHITE"@);
        }
    }
}

/// A color option selects the color that its value means, without a value it
/// keeps the color there was, and any other value is refused.
pub proof fn color_options_mean_their_colors(
    value: Option<Value>,
    name: Seq<char>,
    base: Option<Color>,
    color: Option<Color>,
)
    ensures
        color_option(value, name, base) matches Ok(c) ==> colored(value, base, c),
        colored(value, base, color) ==> color_option(value, name, base) == Ok::<
            Option<Color>,
            crate::error::ErrorView,
        >(color),
{
    lemma_color_names();
    if let Some(Value::Sym(s)) = value {
        if let Some(Color::Ansi(k)) = named_color(s@) {
            colors_are_called_by_name(s@, k);
        }
        if let Some(Color::Ansi(k)) = color {
            colors_are_called_by_name(s@, k);
            if calls(s@, k as int) {
                assert(s@ != "INHERIT"@);
            }
        }
        colors_are_called_by_name(s@, 0);
    }
}

/// An attribute option turns its attribute on or off as its value says, without
/// a value it keeps it as it was, and any other value is refused.
pub proof fn attribute_options_mean_their_values(
    value: Option<Value>,
    name: Seq<char>,
    base: bool,
    on: bool,
)
    ensures
        attr_option(value, name, base) matches Ok(r) ==> switched(value, base, r),
        switched(value, base, on) ==> attr_option(value, name, base) == Ok::<
            bool,
            crate::error::ErrorView,
        >(on),
{
}

/// Whether a style follows from another by the options given, each of which
/// speaks of what its keyword names.
pub open spec fn follows(options: StyleOptions, base: StyleView, style: StyleView) -> bool {
    &&& style.attrs.len() == 8
    &&& colored(options.fg, base.fg, style.fg)
    &&& colored(options.bg, base.bg, style.bg)
    &&& switched(options.bold, base.attrs[BOLD as int], style.attrs[BOLD as int])
    &&& switched(options.dim, base.attrs[DIM as int], style.attrs[DIM as int])
    &&& switched(options.italic, base.attrs[ITALIC as int], style.attrs[ITALIC as int])
    &&& switched(options.underline, base.attrs[UNDERLINE as int], style.attrs[UNDERLINE as int])
    &&& switched(options.blink, base.attrs[BLINK as int], style.attrs[BLINK as int])
    &&& switched(options.reverse, base.attrs[REVERSE as int], style.attrs[REVERSE as int])
    &&& switched(options.hidden, base.attrs[HIDDEN as int], style.attrs[HIDDEN as int])
    &&& switched(
        options.strikethrough,
        base.attrs[STRIKETHROUGH as int],
        style.attrs[STRIKETHROUGH as int],
    )
}

proof fn lemma_attrs_from(options: StyleOptions, i: int, base: StyleView)
    requires
        0 <= i <= 8,
    ensures
        options.attrs_from(i, base) matches Ok(attrs) ==> attrs.len() == 8 - i && forall|j: int|
            i <= j < 8 ==> options.attr_result(j, base) == Ok::<bool, crate::error::ErrorView>(
                #[trigger] attrs[j - i],
            ),
        (forall|j: int| i <= j < 8 ==> (#[trigger] options.attr_result(j, base)) is Ok)
            ==> options.attrs_from(i, base) is Ok,
    decreases 8 - i,
{
    if i < 8 {
        lemma_attrs_from(options, i + 1, base);
        if let Ok(attrs) = options.attrs_from(i, base) {
            let rest = options.attrs_from(i + 1, base)->Ok_0;
            assert forall|j: int| i <= j < 8 implies options.attr_result(j, base) == Ok::<
                bool,
                crate::error::ErrorView,
            >(#[trigger] attrs[j - i]) by {
                if j > i {
                    assert(attrs[j - i] == rest[j - (i + 1)]);
                }
            }
        }
    }
}

/// The options make a style in which each speaks of what its keyword names and
/// the rest is as it was; whatever they can make they do make.
pub proof fn options_change_what_they_name(
    options: StyleOptions,
    base: StyleView,
    style: StyleView,
)
    requires
        base.valid(),
    ensures
        options.resolved(base) matches Ok(r) ==> follows(options, base, r),
        follows(options, base, style) ==> options.resolved(base) == Ok::<
            StyleView,
            crate::error::ErrorView,
        >(style),
{
    lemma_attrs_from(options, 0, base);
    color_options_mean_their_colors(options.fg, "fg"@, base.fg, style.fg);
    color_options_mean_their_colors(options.bg, "bg"@, base.bg, style.bg);
    if let Ok(r) = options.resolved(base) {
        color_options_mean_their_colors(options.fg, "fg"@, base.fg, r.fg);
        color_options_mean_their_colors(options.bg, "bg"@, base.bg, r.bg);
        assert forall|j: int| 0 <= j < 8 implies switched(
            options.attr_value(j),
            base.attrs[j],
            #[trigger] r.attrs[j],
        ) by {
            assert(r.attrs[j] == r.attrs[j - 0]);
        }
        assert(forall|j: int| 0 <= j < 8 ==> #[trigger] r.attrs[j] == r.attrs[j + 0]);
    }
    if follows(options, base, style) {
        assert forall|j: int| 0 <= j < 8 implies #[trigger] options.attr_result(j, base) == Ok::<
            bool,
            crate::error::ErrorView,
        >(style.attrs[j]) by {
            attribute_options_mean_their_values(
                options.attr_value(j),
                StyleOptions::attr_name(j),
                base.attrs[j],
                style.attrs[j],
            );
        }
        let attrs = options.attrs_from(0, base)->Ok_0;
        assert forall|j: int| 0 <= j < 8 implies attrs[j] == style.attrs[j] by {
            assert(attrs[j] == attrs[j - 0]);
            assert(options.attr_result(j, base) == Ok::<bool,
                crate::error::ErrorView>(style.attrs[j]));
        }
        assert(attrs =~= style.attrs);
    }
}

/// What a terminal takes each parameter for.
pub open spec fn terminal_meaning(op: Sgr, value: int) -> bool {
    match op {
        Sgr::Reset => value == 0,
        Sgr::AttrOn(attr) => {
            ||| attr == BOLD && value == 1
            ||| attr == DIM && value == 2
            ||| attr == ITALIC && value == 3
            ||| attr == UNDERLINE && value == 4
            ||| attr == BLINK && (value == 5 || value == 6)
            ||| attr == REVERSE && value == 7
            ||| attr == HIDDEN && value == 8
            ||| attr == STRIKETHROUGH && value == 9
        },
        Sgr::AttrOff(attr, code) => code == value && {
            ||| attr == ITALIC && value == 23
            ||| attr == UNDERLINE && value == 24
            ||| attr == BLINK && value == 25
            ||| attr == REVERSE && value == 27
            ||| attr == HIDDEN && value == 28
            ||| attr == STRIKETHROUGH && value == 29
        },
        Sgr::IntensityOff => value == 22,
        Sgr::Fg(None) => value == 39,
        Sgr::Bg(None) => value == 49,
        Sgr::Fg(Some(Color::Ansi(k))) => (k < 8 && value == 30 + k) || (8 <= k < 16 && value == 90
            + k - 8),
        Sgr::Bg(Some(Color::Ansi(k))) => (k < 8 && value == 40 + k) || (8 <= k < 16 && value == 100
            + k - 8),
        _ => false,
    }
}

/// A parameter that stands alone asks for what a terminal takes it for.
pub proof fn parameters_mean_what_terminals_do(value: u16, op: Sgr)
    ensures
        simple_op(value) == Some(op) <==> terminal_meaning(op, value as int),
{
}

/// A palette entry and a mixture are asked for by 38 in front and by 48 behind,
/// whatever comes after them.
pub proof fn extended_parameters_select_colors(
    values: Seq<Option<u16>>,
    at: int,
    foreground: bool,
    color: Color,
)
    requires
        0 <= at,
        color is Ansi ==> false,
        color matches Color::Indexed(n) ==> at + 3 <= values.len() && values[at + 1] == Some(5u16)
            && values[at + 2] == Some(n as u16),
        color matches Color::Rgb(r, g, b) ==> at + 5 <= values.len() && values[at + 1] == Some(2u16)
            && values[at + 2] == Some(r as u16) && values[at + 3] == Some(g as u16) && values[at
            + 4] == Some(b as u16),
        values[at] == Some(if foreground { 38u16 } else { 48u16 }),
    ensures
        sgr_ops(values, at) == seq![
            if foreground { Sgr::Fg(Some(color)) } else { Sgr::Bg(Some(color)) },
        ] + sgr_ops(values, at + (if color is Indexed { 3int } else { 5int })),
{
}

} // verus!

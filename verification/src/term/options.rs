//! Style options: the keywords that name colors and attributes.

use vstd::prelude::*;
use crate::error::{outcome, Error, ErrorView};
use crate::term::style::{Color, Style, StyleView};
use crate::text::str_eq;
use crate::value::Value;

verus! {

broadcast use vstd::string::group_string_axioms;

/// The options that were given, each by its keyword.
pub struct StyleOptions {
    pub fg: Option<Value>,
    pub bg: Option<Value>,
    pub bold: Option<Value>,
    pub dim: Option<Value>,
    pub italic: Option<Value>,
    pub underline: Option<Value>,
    pub blink: Option<Value>,
    pub reverse: Option<Value>,
    pub hidden: Option<Value>,
    pub strikethrough: Option<Value>,
}

/// The named color called `name`.
pub open spec fn named_color(name: Seq<char>) -> Option<Color> {
    if name == "BLACK"@ {
        Some(Color::Ansi(0))
    } else if name == "RED"@ {
        Some(Color::Ansi(1))
    } else if name == "GREEN"@ {
        Some(Color::Ansi(2))
    } else if name == "YELLOW"@ {
        Some(Color::Ansi(3))
    } else if name == "BLUE"@ {
        Some(Color::Ansi(4))
    } else if name == "MAGENTA"@ {
        Some(Color::Ansi(5))
    } else if name == "CYAN"@ {
        Some(Color::Ansi(6))
    } else if name == "WHITE"@ {
        Some(Color::Ansi(7))
    } else if name == "BRIGHT_BLACK"@ {
        Some(Color::Ansi(8))
    } else if name == "BRIGHT_RED"@ {
        Some(Color::Ansi(9))
    } else if name == "BRIGHT_GREEN"@ {
        Some(Color::Ansi(10))
    } else if name == "BRIGHT_YELLOW"@ {
        Some(Color::Ansi(11))
    } else if name == "BRIGHT_BLUE"@ {
        Some(Color::Ansi(12))
    } else if name == "BRIGHT_MAGENTA"@ {
        Some(Color::Ansi(13))
    } else if name == "BRIGHT_CYAN"@ {
        Some(Color::Ansi(14))
    } else if name == "BRIGHT_WHITE"@ {
        Some(Color::Ansi(15))
    } else {
        None
    }
}

/// The named color called `name`.
pub fn color_by_name(name: &str) -> (r: Option<Color>)
    ensures
        r == named_color(name@),
{
    if str_eq(name, "BLACK") {
        Some(Color::Ansi(0))
    } else if str_eq(name, "RED") {
        Some(Color::Ansi(1))
    } else if str_eq(name, "GREEN") {
        Some(Color::Ansi(2))
    } else if str_eq(name, "YELLOW") {
        Some(Color::Ansi(3))
    } else if str_eq(name, "BLUE") {
        Some(Color::Ansi(4))
    } else if str_eq(name, "MAGENTA") {
        Some(Color::Ansi(5))
    } else if str_eq(name, "CYAN") {
        Some(Color::Ansi(6))
    } else if str_eq(name, "WHITE") {
        Some(Color::Ansi(7))
    } else if str_eq(name, "BRIGHT_BLACK") {
        Some(Color::Ansi(8))
    } else if str_eq(name, "BRIGHT_RED") {
        Some(Color::Ansi(9))
    } else if str_eq(name, "BRIGHT_GREEN") {
        Some(Color::Ansi(10))
    } else if str_eq(name, "BRIGHT_YELLOW") {
        Some(Color::Ansi(11))
    } else if str_eq(name, "BRIGHT_BLUE") {
        Some(Color::Ansi(12))
    } else if str_eq(name, "BRIGHT_MAGENTA") {
        Some(Color::Ansi(13))
    } else if str_eq(name, "BRIGHT_CYAN") {
        Some(Color::Ansi(14))
    } else if str_eq(name, "BRIGHT_WHITE") {
        Some(Color::Ansi(15))
    } else {
        None
    }
}

/// The component that one of three values gives, or the error it causes.
pub open spec fn component_of(name: Seq<char>, value: Value) -> Result<u8, ErrorView> {
    match value {
        Value::Int(n) => if 0 <= n <= 255 {
            Ok(n as u8)
        } else {
            Err(ErrorView::Value(name + ": RGB component out of range"@))
        },
        _ => Err(ErrorView::Type(name + ": RGB components must be int"@)),
    }
}

/// The color that three components mix, or the first error.
pub open spec fn mixture(name: Seq<char>, values: Seq<Value>) -> Result<Color, ErrorView> {
    if values.len() != 3 {
        Err(ErrorView::Value(name + ": expected 3 color components"@))
    } else {
        match component_of(name, values[0]) {
            Err(e) => Err(e),
            Ok(r) => match component_of(name, values[1]) {
                Err(e) => Err(e),
                Ok(g) => match component_of(name, values[2]) {
                    Err(e) => Err(e),
                    Ok(b) => Ok(Color::Rgb(r, g, b)),
                },
            },
        }
    }
}

/// The color that an option selects: a name, a palette index or a mixture.
/// Without the option it is `base`, and `:INHERIT:` takes it away.
pub open spec fn color_option(value: Option<Value>, name: Seq<char>, base: Option<Color>) -> Result<
    Option<Color>,
    ErrorView,
> {
    match value {
        None => Ok(base),
        Some(Value::Sym(s)) => if s@ == "INHERIT"@ {
            Ok(None)
        } else {
            match named_color(s@) {
                Some(color) => Ok(Some(color)),
                None => Err(ErrorView::Value(name + ": unknown color"@)),
            }
        },
        Some(Value::Int(n)) => if 0 <= n <= 255 {
            Ok(Some(Color::Indexed(n as u8)))
        } else {
            Err(ErrorView::Value(name + ": color index out of range"@))
        },
        Some(Value::Array(values)) => match mixture(name, values@) {
            Ok(color) => Ok(Some(color)),
            Err(e) => Err(e),
        },
        Some(Value::Tuple(values)) => match mixture(name, values@) {
            Ok(color) => Ok(Some(color)),
            Err(e) => Err(e),
        },
        Some(_) => Err(ErrorView::Type(name + ": expected Sym, int, array, or Tuple"@)),
    }
}

/// Whether an option turns an attribute on. Without the option it is as in
/// `base`, and `:INHERIT:` takes it away.
pub open spec fn attr_option(value: Option<Value>, name: Seq<char>, base: bool) -> Result<
    bool,
    ErrorView,
> {
    match value {
        None => Ok(base),
        Some(Value::Bool(true)) => Ok(true),
        Some(Value::Sym(s)) if s@ == "INHERIT"@ => Ok(false),
        Some(_) => Err(ErrorView::Value(name + ": expected true or :INHERIT:"@)),
    }
}

/// `name` followed by `message`.
pub(crate) fn named(name: &str, message: &str) -> (s: String)
    ensures
        s@ == name@ + message@,
{
    name.to_owned().concat(message)
}

fn parse_component(name: &str, value: &Value) -> (r: Result<u8, Error>)
    ensures
        outcome(r) == component_of(name@, *value),
{
    match value {
        Value::Int(n) => if 0 <= *n && *n <= 255 {
            Ok(*n as u8)
        } else {
            Err(Error::Value(named(name, ": RGB component out of range")))
        },
        _ => Err(Error::Type(named(name, ": RGB components must be int"))),
    }
}

/// The color that three components mix.
pub fn parse_color_components(name: &str, values: &Vec<Value>) -> (r: Result<Color, Error>)
    ensures
        outcome(r) == mixture(name@, values@),
{
    if values.len() != 3 {
        return Err(Error::Value(named(name, ": expected 3 color components")));
    }
    let red = match parse_component(name, &values[0]) {
        Ok(n) => n,
        Err(e) => return Err(e),
    };
    let green = match parse_component(name, &values[1]) {
        Ok(n) => n,
        Err(e) => return Err(e),
    };
    let blue = match parse_component(name, &values[2]) {
        Ok(n) => n,
        Err(e) => return Err(e),
    };
    Ok(Color::Rgb(red, green, blue))
}

/// The color that an option selects.
pub fn color(value: &Option<Value>, name: &str, base: Option<Color>) -> (r: Result<
    Option<Color>,
    Error,
>)
    ensures
        outcome(r) == color_option(*value, name@, base),
{
    match value {
        None => Ok(base),
        Some(Value::Sym(s)) => if str_eq(s.as_str(), "INHERIT") {
            Ok(None)
        } else {
            match color_by_name(s.as_str()) {
                Some(color) => Ok(Some(color)),
                None => Err(Error::Value(named(name, ": unknown color"))),
            }
        },
        Some(Value::Int(n)) => if 0 <= *n && *n <= 255 {
            Ok(Some(Color::Indexed(*n as u8)))
        } else {
            Err(Error::Value(named(name, ": color index out of range")))
        },
        Some(Value::Array(values)) => match parse_color_components(name, values) {
            Ok(color) => Ok(Some(color)),
            Err(e) => Err(e),
        },
        Some(Value::Tuple(values)) => match parse_color_components(name, values) {
            Ok(color) => Ok(Some(color)),
            Err(e) => Err(e),
        },
        Some(_) => Err(Error::Type(named(name, ": expected Sym, int, array, or Tuple"))),
    }
}

/// Whether an option turns an attribute on.
pub fn attr(value: &Option<Value>, name: &str, base: bool) -> (r: Result<bool, Error>)
    ensures
        outcome(r) == attr_option(*value, name@, base),
{
    match value {
        None => Ok(base),
        Some(Value::Bool(true)) => Ok(true),
        Some(Value::Sym(s)) => if str_eq(s.as_str(), "INHERIT") {
            Ok(false)
        } else {
            Err(Error::Value(named(name, ": expected true or :INHERIT:")))
        },
        Some(_) => Err(Error::Value(named(name, ": expected true or :INHERIT:"))),
    }
}

impl StyleOptions {
    /// No option given.
    pub open spec fn none(self) -> bool {
        &&& self.fg is None
        &&& self.bg is None
        &&& forall|i: int| 0 <= i < 8 ==> (#[trigger] self.attr_value(i)) is None
    }

    /// The option for the attribute `i`.
    pub open spec fn attr_value(self, i: int) -> Option<Value> {
        if i == 0 {
            self.bold
        } else if i == 1 {
            self.dim
        } else if i == 2 {
            self.italic
        } else if i == 3 {
            self.underline
        } else if i == 4 {
            self.blink
        } else if i == 5 {
            self.reverse
        } else if i == 6 {
            self.hidden
        } else {
            self.strikethrough
        }
    }

    /// The keyword of the attribute `i`.
    pub open spec fn attr_name(i: int) -> Seq<char> {
        if i == 0 {
            "bold"@
        } else if i == 1 {
            "dim"@
        } else if i == 2 {
            "italic"@
        } else if i == 3 {
            "underline"@
        } else if i == 4 {
            "blink"@
        } else if i == 5 {
            "reverse"@
        } else if i == 6 {
            "hidden"@
        } else {
            "strikethrough"@
        }
    }

    /// What the option for the attribute `i` makes of `base`.
    pub open spec fn attr_result(self, i: int, base: StyleView) -> Result<bool, ErrorView> {
        attr_option(self.attr_value(i), Self::attr_name(i), base.attrs[i])
    }

    /// The first attribute from `i` on whose option is an error.
    pub open spec fn attrs_from(self, i: int, base: StyleView) -> Result<Seq<bool>, ErrorView>
        decreases 8 - i,
    {
        if i >= 8 {
            Ok(Seq::empty())
        } else {
            match self.attr_result(i, base) {
                Err(e) => Err(e),
                Ok(on) => match self.attrs_from(i + 1, base) {
                    Err(e) => Err(e),
                    Ok(rest) => Ok(seq![on] + rest),
                },
            }
        }
    }

    /// The style that the options make of `base`, or the first error among
    /// them: colors first, then the attributes in order.
    pub open spec fn resolved(self, base: StyleView) -> Result<StyleView, ErrorView> {
        match color_option(self.fg, "fg"@, base.fg) {
            Err(e) => Err(e),
            Ok(fg) => match color_option(self.bg, "bg"@, base.bg) {
                Err(e) => Err(e),
                Ok(bg) => match self.attrs_from(0, base) {
                    Err(e) => Err(e),
                    Ok(attrs) => Ok(StyleView { fg, bg, attrs }),
                },
            },
        }
    }

    /// The option for the attribute `i`.
    fn attr_at(&self, i: usize) -> (r: (&Option<Value>, &'static str))
        requires
            i < 8,
        ensures
            *r.0 == self.attr_value(i as int),
            r.1@ == Self::attr_name(i as int),
    {
        match i {
            0 => (&self.bold, "bold"),
            1 => (&self.dim, "dim"),
            2 => (&self.italic, "italic"),
            3 => (&self.underline, "underline"),
            4 => (&self.blink, "blink"),
            5 => (&self.reverse, "reverse"),
            6 => (&self.hidden, "hidden"),
            _ => (&self.strikethrough, "strikethrough"),
        }
    }
}

/// Resolves style options against `base`.
pub fn parse_style(options: &StyleOptions, base: Style) -> (r: Result<Style, Error>)
    ensures
        crate::error::viewed(r) == options.resolved(base@),
{
    let fg = match color(&options.fg, "fg", base.fg) {
        Ok(fg) => fg,
        Err(e) => return Err(e),
    };
    let bg = match color(&options.bg, "bg", base.bg) {
        Ok(bg) => bg,
        Err(e) => return Err(e),
    };
    let mut style = Style { fg, bg, attrs: base.attrs };
    let ghost all = options.attrs_from(0, base@);
    let mut i: usize = 0;
    assert(style.attrs@.take(0) =~= Seq::<bool>::empty());
    while i < 8
        invariant
            i <= 8,
            style.fg == fg,
            style.bg == bg,
            color_option(options.fg, "fg"@, base.fg) == Ok::<Option<Color>, ErrorView>(fg),
            color_option(options.bg, "bg"@, base.bg) == Ok::<Option<Color>, ErrorView>(bg),
            all == options.attrs_from(0, base@),
            match options.attrs_from(i as int, base@) {
                Ok(rest) => all == Ok::<Seq<bool>, ErrorView>(style.attrs@.take(i as int) + rest),
                Err(e) => all == Err::<Seq<bool>, ErrorView>(e),
            },
        decreases 8 - i,
    {
        let (value, name) = options.attr_at(i);
        let on = match attr(value, name, base.attrs[i]) {
            Ok(on) => on,
            Err(e) => return Err(e),
        };
        let ghost before = style.attrs@;
        style.attrs[i] = on;
        proof {
            assert(style.attrs@.take(i + 1) =~= before.take(i as int) + seq![on]);
            if let Ok(rest) = options.attrs_from(i + 1, base@) {
                assert(style.attrs@.take(i + 1) + rest =~= before.take(i as int) + (seq![on] + rest));
            }
        }
        i = i + 1;
    }
    assert(style.attrs@.take(8) + Seq::<bool>::empty() =~= style.attrs@);
    Ok(style)
}

/// Without any option the base style stays as it is.
pub proof fn no_options_keep_style(options: StyleOptions, base: StyleView)
    requires
        options.none(),
        base.valid(),
    ensures
        options.resolved(base) == Ok::<StyleView, ErrorView>(base),
{
    lemma_attrs_kept(options, 0, base);
    assert(base.attrs.skip(0) =~= base.attrs);
}

proof fn lemma_attrs_kept(options: StyleOptions, i: int, base: StyleView)
    requires
        options.none(),
        base.valid(),
        0 <= i <= 8,
    ensures
        options.attrs_from(i, base) == Ok::<Seq<bool>, ErrorView>(base.attrs.skip(i)),
    decreases 8 - i,
{
    if i < 8 {
        lemma_attrs_kept(options, i + 1, base);
        assert(options.attr_value(i) is None);
        assert(seq![base.attrs[i]] + base.attrs.skip(i + 1) =~= base.attrs.skip(i));
    } else {
        assert(base.attrs.skip(8) =~= Seq::<bool>::empty());
    }
}

} // verus!

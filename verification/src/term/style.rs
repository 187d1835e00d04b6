//! Text styles and the escape sequences that select them.

use vstd::prelude::*;
use crate::text::{decimal, joined, push_decimal};

verus! {

pub const BOLD: usize = 0;

pub const DIM: usize = 1;

pub const ITALIC: usize = 2;

pub const UNDERLINE: usize = 3;

pub const BLINK: usize = 4;

pub const REVERSE: usize = 5;

pub const HIDDEN: usize = 6;

pub const STRIKETHROUGH: usize = 7;

pub const ATTR_COUNT: usize = 8;

/// The parameter that turns the attribute `index` on.
pub open spec fn attr_code(index: int) -> nat {
    if index < 5 {
        (index + 1) as nat
    } else {
        (index + 2) as nat
    }
}

/// The parameter that turns the attribute `index` on.
pub fn index_to_code(index: usize) -> (code: u8)
    requires
        index < ATTR_COUNT,
    ensures
        code == attr_code(index as int),
{
    match index {
        0 => 1,
        1 => 2,
        2 => 3,
        3 => 4,
        4 => 5,
        5 => 7,
        6 => 8,
        _ => 9,
    }
}

/// A color: one of the sixteen named ones, a palette entry, or a mixture.
#[derive(Clone, Copy, Debug, PartialEq, Eq, Structural)]
pub enum Color {
    Ansi(u8),
    Indexed(u8),
    Rgb(u8, u8, u8),
}

/// What a run of text looks like. The default style is no style at all.
#[derive(Clone, Copy, Debug, PartialEq, Eq)]
pub struct Style {
    pub fg: Option<Color>,
    pub bg: Option<Color>,
    pub attrs: [bool; 8],
}

/// The mathematical content of a [`Style`].
#[verifier::ext_equal]
pub struct StyleView {
    pub fg: Option<Color>,
    pub bg: Option<Color>,
    pub attrs: Seq<bool>,
}

impl View for Style {
    type V = StyleView;

    open spec fn view(&self) -> StyleView {
        StyleView { fg: self.fg, bg: self.bg, attrs: self.attrs@ }
    }
}

impl StyleView {
    /// The style that changes nothing.
    pub open spec fn plain() -> StyleView {
        StyleView { fg: None, bg: None, attrs: Seq::new(8, |i: int| false) }
    }

    /// Whether every attribute has its place.
    pub open spec fn valid(self) -> bool {
        self.attrs.len() == 8
    }

    /// The style after one rendition change.
    pub open spec fn applied(self, op: Sgr) -> StyleView {
        match op {
            Sgr::Reset => StyleView::plain(),
            Sgr::AttrOn(attr) => StyleView { attrs: self.attrs.update(attr as int, true), ..self },
            Sgr::AttrOff(attr, _) => StyleView {
                attrs: self.attrs.update(attr as int, false),
                ..self
            },
            Sgr::IntensityOff => StyleView {
                attrs: self.attrs.update(0, false).update(1, false),
                ..self
            },
            Sgr::Fg(color) => StyleView { fg: color, ..self },
            Sgr::Bg(color) => StyleView { bg: color, ..self },
        }
    }

    /// The style after `ops`, in order.
    pub open spec fn applied_all(self, ops: Seq<Sgr>) -> StyleView
        decreases ops.len(),
    {
        if ops.len() == 0 {
            self
        } else {
            self.applied(ops[0]).applied_all(ops.drop_first())
        }
    }
}

/// One change of rendition: what a parameter of an SGR sequence asks for.
#[derive(Clone, Copy, Debug, PartialEq, Eq, Structural)]
pub enum Sgr {
    Reset,
    AttrOn(usize),
    AttrOff(usize, u8),
    IntensityOff,
    Fg(Option<Color>),
    Bg(Option<Color>),
}

impl Sgr {
    /// Whether the attribute named, if any, exists.
    pub open spec fn valid(self) -> bool {
        match self {
            Sgr::AttrOn(attr) => attr < 8,
            Sgr::AttrOff(attr, _) => attr < 8,
            _ => true,
        }
    }
}

/// The parameters that select `color`.
pub open spec fn color_params(color: Color, foreground: bool) -> Seq<char> {
    match color {
        Color::Ansi(value) => if value <= 7 {
            decimal((if foreground { 30 } else { 40nat }) + value as nat)
        } else {
            decimal((if foreground { 82 } else { 92nat }) + value as nat)
        },
        Color::Indexed(value) => (if foreground { "38;5;"@ } else { "48;5;"@ }) + decimal(value as nat),
        Color::Rgb(r, g, b) => (if foreground { "38;2;"@ } else { "48;2;"@ }) + decimal(r as nat) + ";"@
            + decimal(g as nat) + ";"@ + decimal(b as nat),
    }
}

/// The parameters of the first `n` attributes that are on.
pub open spec fn attr_params(attrs: Seq<bool>, n: nat) -> Seq<Seq<char>>
    decreases n,
{
    if n == 0 {
        Seq::empty()
    } else if attrs[n - 1] {
        attr_params(attrs, (n - 1) as nat).push(decimal(attr_code(n - 1)))
    } else {
        attr_params(attrs, (n - 1) as nat)
    }
}

/// The parameters of an optional color: none, or the one.
pub open spec fn optional_color_params(color: Option<Color>, foreground: bool) -> Seq<Seq<char>> {
    match color {
        Some(color) => seq![color_params(color, foreground)],
        None => Seq::empty(),
    }
}

/// All parameters of a style: attributes, then foreground, then background.
pub open spec fn style_params(style: StyleView) -> Seq<Seq<char>> {
    attr_params(style.attrs, 8) + optional_color_params(style.fg, true) + optional_color_params(
        style.bg,
        false,
    )
}

/// A control sequence that sets renditions by `params`.
pub open spec fn sgr_sequence(params: Seq<char>) -> Seq<char> {
    "\x1b["@ + params + "m"@
}

/// What selects `style` when nothing is selected: a single sequence, or
/// nothing at all for the plain style.
pub open spec fn style_encoding(style: StyleView) -> Seq<char> {
    if style == StyleView::plain() {
        Seq::empty()
    } else {
        sgr_sequence(joined(style_params(style), ";"@))
    }
}

/// What turns the attribute `attr` on, if `style` has it.
pub open spec fn attr_encoding(style: StyleView, attr: int) -> Seq<char> {
    if style.attrs[attr] {
        sgr_sequence(decimal(attr_code(attr)))
    } else {
        Seq::empty()
    }
}

/// The sequence that performs exactly one rendition change.
pub open spec fn sgr_encoding(op: Sgr) -> Seq<char> {
    match op {
        Sgr::Reset => "\x1b[0m"@,
        Sgr::AttrOn(attr) => sgr_sequence(decimal(attr_code(attr as int))),
        Sgr::AttrOff(_, code) => sgr_sequence(decimal(code as nat)),
        Sgr::IntensityOff => "\x1b[22m"@,
        Sgr::Fg(None) => "\x1b[39m"@,
        Sgr::Bg(None) => "\x1b[49m"@,
        Sgr::Fg(Some(color)) => sgr_sequence(color_params(color, true)),
        Sgr::Bg(Some(color)) => sgr_sequence(color_params(color, false)),
    }
}

impl Default for Style {
    fn default() -> (style: Style)
        ensures
            style@ == StyleView::plain(),
    {
        let style = Style { fg: None, bg: None, attrs: [false; 8] };
        assert(style@ =~= StyleView::plain());
        style
    }
}

impl Style {
    /// Whether this is the plain style.
    pub fn is_plain(&self) -> (r: bool)
        ensures
            r == (self@ == StyleView::plain()),
    {
        let mut i: usize = 0;
        while i < 8
            invariant
                i <= 8,
                forall|j: int| 0 <= j < i ==> !self.attrs@[j],
            decreases 8 - i,
        {
            if self.attrs[i] {
                assert(!StyleView::plain().attrs[i as int]);
                return false;
            }
            i = i + 1;
        }
        assert(self@.attrs =~= StyleView::plain().attrs);
        self.fg.is_none() && self.bg.is_none()
    }

    /// Appends what selects this style.
    pub fn write(&self, out: &mut String)
        ensures
            final(out)@ == old(out)@ + style_encoding(self@),
    {
        if self.is_plain() {
            assert(out@ =~= old(out)@ + style_encoding(self@));
            return;
        }
        let ghost base = out@ + "\x1b["@;
        out.append("\x1b[");
        let mut first = true;
        let mut i: usize = 0;
        assert(out@ =~= base + joined(attr_params(self.attrs@, 0), ";"@));
        while i < 8
            invariant
                i <= 8,
                out@ == base + joined(attr_params(self.attrs@, i as nat), ";"@),
                first == (attr_params(self.attrs@, i as nat).len() == 0),
            decreases 8 - i,
        {
            if self.attrs[i] {
                let ghost done = attr_params(self.attrs@, i as nat);
                write_separator(out, &mut first);
                push_decimal(out, index_to_code(i) as u128);
                proof {
                    lemma_joined_push(done, decimal(attr_code(i as int)), ";"@);
                }
            }
            i = i + 1;
        }
        let ghost mut done = attr_params(self.attrs@, 8);
        if let Some(color) = self.fg {
            write_separator(out, &mut first);
            write_color_params(out, color, true);
            proof {
                lemma_joined_push(done, color_params(color, true), ";"@);
                done = done.push(color_params(color, true));
            }
        }
        assert(done =~= attr_params(self.attrs@, 8) + optional_color_params(self.fg, true));
        if let Some(color) = self.bg {
            write_separator(out, &mut first);
            write_color_params(out, color, false);
            proof {
                lemma_joined_push(done, color_params(color, false), ";"@);
                done = done.push(color_params(color, false));
            }
        }
        assert(done =~= style_params(self@));
        out.append("m");
        assert(out@ =~= old(out)@ + style_encoding(self@));
    }

    /// Appends what turns `attr` on, if this style has it.
    pub fn write_attr(&self, out: &mut String, attr: usize)
        requires
            attr < ATTR_COUNT,
        ensures
            final(out)@ == old(out)@ + attr_encoding(self@, attr as int),
    {
        if self.attrs[attr] {
            out.append("\x1b[");
            push_decimal(out, index_to_code(attr) as u128);
            out.append("m");
        }
        assert(out@ =~= old(out)@ + attr_encoding(self@, attr as int));
    }

    /// Performs one rendition change.
    pub fn apply(&mut self, op: Sgr)
        requires
            op.valid(),
        ensures
            final(self)@ == old(self)@.applied(op),
    {
        match op {
            Sgr::Reset => {
                *self = Style::default();
            },
            Sgr::AttrOn(attr) => {
                self.attrs[attr] = true;
            },
            Sgr::AttrOff(attr, _) => {
                self.attrs[attr] = false;
            },
            Sgr::IntensityOff => {
                self.attrs[BOLD] = false;
                self.attrs[DIM] = false;
            },
            Sgr::Fg(color) => {
                self.fg = color;
            },
            Sgr::Bg(color) => {
                self.bg = color;
            },
        }
        assert(self@ =~= old(self)@.applied(op));
    }
}

/// Joining one more part.
proof fn lemma_joined_push(parts: Seq<Seq<char>>, part: Seq<char>, sep: Seq<char>)
    ensures
        joined(parts.push(part), sep) == joined(parts, sep) + (if parts.len() == 0 {
            Seq::empty()
        } else {
            sep
        }) + part,
{
    assert(parts.push(part).drop_last() =~= parts);
    assert(joined(parts.push(part), sep) =~= joined(parts, sep) + (if parts.len() == 0 {
        Seq::empty()
    } else {
        sep
    }) + part);
}

/// Appends the parameter separator, except before the first parameter.
fn write_separator(out: &mut String, first: &mut bool)
    ensures
        !*final(first),
        final(out)@ == old(out)@ + (if *old(first) {
            Seq::empty()
        } else {
            ";"@
        }),
{
    if *first {
        *first = false;
        assert(out@ =~= old(out)@ + Seq::<char>::empty());
    } else {
        out.append(";");
    }
}

/// Appends the parameters that select `color`.
pub fn write_color_params(out: &mut String, color: Color, foreground: bool)
    ensures
        final(out)@ == old(out)@ + color_params(color, foreground),
{
    match color {
        Color::Ansi(value) => {
            let base: u128 = if value <= 7 {
                if foreground { 30 } else { 40 }
            } else {
                if foreground { 82 } else { 92 }
            };
            push_decimal(out, base + value as u128);
        },
        Color::Indexed(value) => {
            if foreground {
                out.append("38;5;");
            } else {
                out.append("48;5;");
            }
            push_decimal(out, value as u128);
        },
        Color::Rgb(r, g, b) => {
            if foreground {
                out.append("38;2;");
            } else {
                out.append("48;2;");
            }
            push_decimal(out, r as u128);
            out.append(";");
            push_decimal(out, g as u128);
            out.append(";");
            push_decimal(out, b as u128);
        },
    }
    assert(out@ =~= old(out)@ + color_params(color, foreground));
}

/// Appends the sequence that selects `color`.
pub fn write_color(out: &mut String, color: Color, foreground: bool)
    ensures
        final(out)@ == old(out)@ + sgr_sequence(color_params(color, foreground)),
{
    out.append("\x1b[");
    write_color_params(out, color, foreground);
    out.append("m");
    assert(out@ =~= old(out)@ + sgr_sequence(color_params(color, foreground)));
}

/// Appends the sequence that performs one rendition change.
pub fn write_sgr_op(out: &mut String, op: Sgr)
    requires
        op.valid(),
    ensures
        final(out)@ == old(out)@ + sgr_encoding(op),
{
    match op {
        Sgr::Reset => out.append("\x1b[0m"),
        Sgr::AttrOn(index) => {
            out.append("\x1b[");
            push_decimal(out, index_to_code(index) as u128);
            out.append("m");
        },
        Sgr::AttrOff(_, code) => {
            out.append("\x1b[");
            push_decimal(out, code as u128);
            out.append("m");
        },
        Sgr::IntensityOff => out.append("\x1b[22m"),
        Sgr::Fg(None) => out.append("\x1b[39m"),
        Sgr::Bg(None) => out.append("\x1b[49m"),
        Sgr::Fg(Some(color)) => write_color(out, color, true),
        Sgr::Bg(Some(color)) => write_color(out, color, false),
    }
    assert(out@ =~= old(out)@ + sgr_encoding(op));
}

} // verus!

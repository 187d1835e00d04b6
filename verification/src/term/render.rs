//! Rendering values for the console, and the text objects they become.

use vstd::prelude::*;
use crate::error::{viewed, Error, ErrorView};
use crate::term::cells::{cells, counted};
use crate::term::filter::{filter_preformatted, filtered, Filter, FilterMode, ModeView};
use crate::term::layout::{clip_encoding, clipped, encoded_width, visible};
use crate::term::style::{style_encoding, Style, StyleView};

verus! {

broadcast use vstd::string::group_string_axioms;

/// The rendering that a format specification asks for.
#[derive(Clone, Copy, Debug, PartialEq, Eq, Structural)]
pub enum Kind {
    Str,
    Verbatim,
    Dbg,
    Numeric,
}

/// Where the content stands in its field.
#[derive(Clone, Copy, Debug, PartialEq, Eq, Structural)]
pub enum Align {
    Left,
    Right,
    Center,
}

/// What fills the rest of the field.
#[derive(Clone, Copy, Debug)]
pub enum Fill {
    Zero,
    Char(char),
}

/// A format specification.
#[derive(Clone, Copy, Debug)]
pub struct Spec {
    pub kind: Option<Kind>,
    pub sign: bool,
    pub alt: bool,
    pub fill: Fill,
    pub align: Align,
    pub width: Option<usize>,
    pub precision: Option<usize>,
}

impl Spec {
    /// Whether the specification asks for more than a layout of text.
    pub open spec fn beyond_layout(self) -> bool {
        self.sign || self.alt || self.fill is Zero
    }

    /// The character that fills the field.
    pub open spec fn fill_char(self) -> char {
        match self.fill {
            Fill::Zero => '0',
            Fill::Char(c) => c,
        }
    }
}

/// What converting a value gave.
pub type Converted = Result<String, Error>;

/// The name of a format parameter: its number, if it is one, and its text.
pub struct ParamName {
    pub position: Option<i128>,
    pub text: String,
}

/// A part of a format sequence. A parameter is a hole that nothing filled.
pub enum Segment {
    Item(Item),
    Param(ParamName),
}

/// A value to render. A text is held encoded, a sequence by its segments, and
/// a value bound to a specification together with its own conversions; any
/// other value is known by its conversions only.
pub enum Item {
    Text(String),
    Fmt(Vec<Segment>),
    Bound { spec: Spec, value: Box<Item>, verbatim: Converted, display: Converted },
    Plain { verbatim: Converted, display: Converted },
}

/// `count` times the character `c`.
pub open spec fn repeated(c: char, count: nat) -> Seq<char> {
    Seq::new(count, |i: int| c)
}

/// `content` in a field of its specification, measured in terminal cells. Of
/// an odd number of fill characters around it, one more goes to the right; that
/// is this library's own choice.
pub open spec fn padded(spec: Spec, content: Seq<char>) -> Seq<char> {
    let measured = counted(cells(visible(content)));
    match spec.width {
        Some(width) if measured < width => {
            let missing = (width - measured) as nat;
            let left = match spec.align {
                Align::Left => 0,
                Align::Right => missing,
                Align::Center => missing / 2,
            };
            repeated(spec.fill_char(), left) + content + repeated(
                spec.fill_char(),
                (missing - left) as nat,
            )
        },
        _ => content,
    }
}

/// `content` laid out: clipped to the precision, then padded to the width.
pub open spec fn laid_out(spec: Spec, content: Seq<char>) -> Seq<char> {
    match spec.precision {
        Some(precision) => padded(spec, clipped(content, precision)),
        None => padded(spec, content),
    }
}

/// The error that an unfilled parameter is.
pub open spec fn missing(name: ParamName) -> ErrorView {
    match name.position {
        Some(i) if 0 <= i <= usize::MAX => ErrorView::MissingPositional(i as int),
        _ => ErrorView::MissingKey(name.text@),
    }
}

/// The filtering of structured text inside `parent`.
pub open spec fn child_mode(parent: StyleView, ansi: bool) -> ModeView {
    if ansi {
        ModeView::Child(parent)
    } else {
        ModeView::Plain
    }
}

/// A converted value, made safe for the terminal.
pub open spec fn sanitized(verbatim: Converted, display: Converted, argument: bool) -> Result<
    Seq<char>,
    ErrorView,
> {
    match viewed(if argument { verbatim } else { display }) {
        Ok(s) => Ok(filtered(ModeView::Plain, s)),
        Err(e) => Err(e),
    }
}

/// How many segments a sequence has.
pub open spec fn segment_count(item: Item) -> nat {
    match item {
        Item::Fmt(segments) => segments@.len(),
        _ => 0,
    }
}

/// Whether the console lays the bound value out itself.
pub open spec fn lays_out(spec: Spec, value: Item) -> bool {
    &&& spec.kind is None || spec.kind == Some(Kind::Str) || spec.kind == Some(Kind::Verbatim)
    &&& !spec.beyond_layout()
    &&& value is Text || value is Fmt
}

/// What an item renders to inside `parent`: text keeps its styling, a sequence
/// is rendered segment by segment, a bound text or sequence is rendered on its
/// own and laid out, and everything else is converted and sanitized.
pub open spec fn rendered(item: Item, parent: StyleView, ansi: bool, argument: bool) -> Result<
    Seq<char>,
    ErrorView,
>
    decreases item, segment_count(item) + 1,
{
    match item {
        Item::Text(text) => Ok(filtered(child_mode(parent, ansi), text@)),
        Item::Fmt(segments) => rendered_segments(item, segments@.len(), parent, ansi, argument),
        Item::Bound { spec, value, verbatim, display } => if lays_out(spec, *value) {
            match rendered(*value, StyleView::plain(), ansi, argument) {
                Ok(encoded) => Ok(filtered(child_mode(parent, ansi), laid_out(spec, encoded))),
                Err(e) => Err(e),
            }
        } else {
            sanitized(verbatim, display, argument)
        },
        Item::Plain { verbatim, display } => sanitized(verbatim, display, argument),
    }
}

/// What the first `n` segments of a sequence render to, or the first error.
pub open spec fn rendered_segments(
    item: Item,
    n: nat,
    parent: StyleView,
    ansi: bool,
    argument: bool,
) -> Result<Seq<char>, ErrorView>
    decreases item, n,
{
    match item {
        Item::Fmt(segments) => if n == 0 || n > segments@.len() {
            Ok(Seq::empty())
        } else {
            match rendered_segments(item, (n - 1) as nat, parent, ansi, argument) {
                Err(e) => Err(e),
                Ok(before) => match segments@[n - 1] {
                    Segment::Param(name) => Err(missing(name)),
                    Segment::Item(inner) => match rendered(inner, parent, ansi, argument) {
                        Err(e) => Err(e),
                        Ok(s) => Ok(before + s),
                    },
                },
            }
        },
        _ => Ok(Seq::empty()),
    }
}

/// Appends `count` times the character `c`.
fn push_repeated(out: &mut String, c: char, count: usize)
    ensures
        final(out)@ == old(out)@ + repeated(c, count as nat),
{
    let mut i: usize = 0;
    assert(out@ =~= old(out)@ + repeated(c, 0));
    while i < count
        invariant
            i <= count,
            out@ == old(out)@ + repeated(c, i as nat),
        decreases count - i,
    {
        out.push(c);
        i = i + 1;
        assert(out@ =~= old(out)@ + repeated(c, i as nat));
    }
}

/// Appends `count` spaces.
pub fn write_spaces(out: &mut String, count: usize)
    ensures
        final(out)@ == old(out)@ + repeated(' ', count as nat),
{
    push_repeated(out, ' ', count);
}

/// Lays out already rendered text, measured in terminal cells.
pub fn lay_out(spec: &Spec, content: &str) -> (out: String)
    ensures
        out@ == laid_out(*spec, content@),
{
    let body = match spec.precision {
        Some(precision) => clip_encoding(content, precision),
        None => content.to_owned(),
    };
    let measured = encoded_width(body.as_str());
    let fill = match spec.fill {
        Fill::Zero => '0',
        Fill::Char(c) => c,
    };
    if let Some(width) = spec.width {
        if measured < width {
            let missing: usize = width - measured;
            let left: usize = match spec.align {
                Align::Left => 0,
                Align::Right => missing,
                Align::Center => missing / 2,
            };
            let mut out = String::new();
            push_repeated(&mut out, fill, left);
            out.append(body.as_str());
            push_repeated(&mut out, fill, missing - left);
            assert(out@ =~= laid_out(*spec, content@));
            return out;
        }
    }
    body
}

/// Appends structured text, its styling seen from inside `parent`.
fn append_encoded(out: &mut String, parent: Style, ansi: bool, encoded: &str)
    ensures
        final(out)@ == old(out)@ + filtered(child_mode(parent@, ansi), encoded@),
{
    let mut filter = Filter::new(
        if ansi {
            FilterMode::Child(parent)
        } else {
            FilterMode::Plain
        },
    );
    filter.write_str(encoded);
    let text = filter.finish();
    out.append(text.as_str());
}

/// Appends a converted value, made safe for the terminal.
fn append_converted(
    out: &mut String,
    verbatim: &Converted,
    display: &Converted,
    argument: bool,
) -> (r: Result<(), Error>)
    ensures
        match sanitized(*verbatim, *display, argument) {
            Ok(s) => r is Ok && final(out)@ == old(out)@ + s,
            Err(e) => r is Err && r->Err_0@ == e,
        },
{
    let converted = if argument {
        verbatim
    } else {
        display
    };
    match converted {
        Ok(s) => {
            let text = filter_preformatted(s.as_str(), false);
            out.append(text.as_str());
            Ok(())
        },
        Err(e) => Err(e.copy()),
    }
}

/// Appends what an item renders to inside `parent`.
pub fn append_value(out: &mut String, parent: Style, ansi: bool, argument: bool, value: &Item) -> (r:
    Result<(), Error>)
    ensures
        match rendered(*value, parent@, ansi, argument) {
            Ok(s) => r is Ok && final(out)@ == old(out)@ + s,
            Err(e) => r is Err && r->Err_0@ == e,
        },
    decreases value, 1nat,
{
    match value {
        Item::Text(text) => {
            append_encoded(out, parent, ansi, text.as_str());
            Ok(())
        },
        Item::Fmt(_) => append_segments(out, parent, ansi, argument, value),
        Item::Bound { spec, value: inner, verbatim, display } => {
            match bound_layout(ansi, argument, value) {
                Err(e) => Err(e),
                Ok(Some(encoded)) => {
                    append_encoded(out, parent, ansi, encoded.as_str());
                    Ok(())
                },
                Ok(None) => append_converted(out, verbatim, display, argument),
            }
        },
        Item::Plain { verbatim, display } => append_converted(out, verbatim, display, argument),
    }
}

/// Appends each segment of a sequence in turn.
pub fn append_segments(
    out: &mut String,
    parent: Style,
    ansi: bool,
    argument: bool,
    value: &Item,
) -> (r: Result<(), Error>)
    requires
        value is Fmt,
    ensures
        match rendered(*value, parent@, ansi, argument) {
            Ok(s) => r is Ok && final(out)@ == old(out)@ + s,
            Err(e) => r is Err && r->Err_0@ == e,
        },
    decreases value, 0nat,
{
    let ghost whole = rendered_segments(*value, segment_count(*value), parent@, ansi, argument);
    if let Item::Fmt(segments) = value {
        let mut i: usize = 0;
        assert(out@ =~= old(out)@ + Seq::<char>::empty());
        while i < segments.len()
            invariant
                i <= segments@.len(),
                *value == Item::Fmt(*segments),
                match rendered_segments(*value, i as nat, parent@, ansi, argument) {
                    Ok(s) => out@ == old(out)@ + s,
                    Err(_) => false,
                },
            decreases segments@.len() - i,
        {
            match &segments[i] {
                Segment::Param(name) => {
                    proof {
                        lemma_segments_error(*value, i + 1, segments@.len(), parent@, ansi, argument);
                    }
                    if let Some(position) = name.position {
                        if 0 <= position && position <= usize::MAX as i128 {
                            return Err(Error::MissingPositional(position as usize));
                        }
                    }
                    return Err(Error::MissingKey(name.text.clone()));
                },
                Segment::Item(inner) => {
                    let ghost before = rendered_segments(*value, i as nat, parent@, ansi, argument)->Ok_0;
                    if let Err(e) = append_value(out, parent, ansi, argument, inner) {
                        proof {
                            lemma_segments_error(
                                *value,
                                i + 1,
                                segments@.len(),
                                parent@,
                                ansi,
                                argument,
                            );
                        }
                        return Err(e);
                    }
                    proof {
                        let s = rendered(*inner, parent@, ansi, argument)->Ok_0;
                        assert(out@ =~= old(out)@ + (before + s));
                    }
                },
            }
            i = i + 1;
        }
    }
    Ok(())
}

/// An error among the first segments is the error of all of them.
proof fn lemma_segments_error(
    item: Item,
    n: int,
    m: nat,
    parent: StyleView,
    ansi: bool,
    argument: bool,
)
    requires
        item is Fmt,
        0 <= n <= m <= segment_count(item),
        rendered_segments(item, n as nat, parent, ansi, argument) is Err,
    ensures
        rendered_segments(item, m, parent, ansi, argument) == rendered_segments(
            item,
            n as nat,
            parent,
            ansi,
            argument,
        ),
    decreases m,
{
    if n < m {
        lemma_segments_error(item, n, (m - 1) as nat, parent, ansi, argument);
    }
}

/// Lays out a value bound to a specification, if it is a text or a sequence
/// and the specification asks for a layout only.
pub fn bound_layout(ansi: bool, argument: bool, value: &Item) -> (r: Result<Option<String>, Error>)
    ensures
        match *value {
            Item::Bound { spec, value: inner, verbatim, display } => if lays_out(spec, *inner) {
                match rendered(*inner, StyleView::plain(), ansi, argument) {
                    Ok(encoded) => r matches Ok(Some(s)) && s@ == laid_out(spec, encoded),
                    Err(e) => r is Err && r->Err_0@ == e,
                }
            } else {
                r == Ok::<Option<String>, Error>(None)
            },
            _ => r == Ok::<Option<String>, Error>(None),
        },
    decreases value, 0nat,
{
    match value {
        Item::Bound { spec, value: inner, verbatim, display } => {
            let text_kind = match spec.kind {
                None => true,
                Some(Kind::Str) => true,
                Some(Kind::Verbatim) => true,
                _ => false,
            };
            if !text_kind || spec.sign || spec.alt || matches!(spec.fill, Fill::Zero) {
                return Ok(None);
            }
            let structured = match **inner {
                Item::Text(_) => true,
                Item::Fmt(_) => true,
                _ => false,
            };
            if !structured {
                return Ok(None);
            }
            let mut encoded = String::new();
            match append_value(&mut encoded, Style::default(), ansi, argument, inner) {
                Err(e) => Err(e),
                Ok(()) => {
                    proof {
                        let s = rendered(**inner, StyleView::plain(), ansi, argument)->Ok_0;
                        assert(encoded@ =~= s);
                    }
                    Ok(Some(lay_out(spec, encoded.as_str())))
                },
            }
        },
        _ => Ok(None),
    }
}

/// An argument of a call: in its place, or by a keyword.
pub enum Arg {
    Pos(Item),
    Key(String, Item),
}

/// What positional arguments render to one after the other; a keyword among
/// them is an error.
pub open spec fn rendered_args(args: Seq<Arg>, n: nat, style: StyleView, ansi: bool) -> Result<
    Seq<char>,
    ErrorView,
>
    decreases n,
{
    if n == 0 {
        Ok(Seq::empty())
    } else {
        match rendered_args(args, (n - 1) as nat, style, ansi) {
            Err(e) => Err(e),
            Ok(before) => match args[n - 1] {
                Arg::Key(key, _) => Err(ErrorView::UnexpectedKey(key@)),
                Arg::Pos(item) => match rendered(item, style, ansi, false) {
                    Err(e) => Err(e),
                    Ok(s) => Ok(before + s),
                },
            },
        }
    }
}

/// Arguments rendered in `style`: it is selected before them and reset after.
pub open spec fn styled_args(args: Seq<Arg>, style: StyleView, ansi: bool) -> Result<
    Seq<char>,
    ErrorView,
> {
    match rendered_args(args, args.len(), style, ansi) {
        Err(e) => Err(e),
        Ok(body) => Ok(
            if ansi && style != StyleView::plain() {
                style_encoding(style) + body + "\x1b[0m"@
            } else {
                body
            },
        ),
    }
}

proof fn lemma_args_error(args: Seq<Arg>, n: nat, m: nat, style: StyleView, ansi: bool)
    requires
        n <= m,
        rendered_args(args, n, style, ansi) is Err,
    ensures
        rendered_args(args, m, style, ansi) == rendered_args(args, n, style, ansi),
    decreases m,
{
    if n < m {
        lemma_args_error(args, n, (m - 1) as nat, style, ansi);
    }
}

/// Renders arguments in `style`.
pub fn render_args(style: Style, ansi: bool, args: &Vec<Arg>) -> (r: Result<String, Error>)
    ensures
        viewed(r) == styled_args(args@, style@, ansi),
{
    let mut out = String::new();
    if ansi {
        style.write(&mut out);
    }
    let ghost start = out@;
    assert(start =~= if ansi { style_encoding(style@) } else { Seq::empty() });
    let mut i: usize = 0;
    assert(out@ =~= start + Seq::<char>::empty());
    while i < args.len()
        invariant
            i <= args@.len(),
            match rendered_args(args@, i as nat, style@, ansi) {
                Ok(s) => out@ == start + s,
                Err(_) => false,
            },
        decreases args@.len() - i,
    {
        match &args[i] {
            Arg::Key(key, _) => {
                proof {
                    lemma_args_error(args@, (i + 1) as nat, args@.len(), style@, ansi);
                }
                return Err(Error::UnexpectedKey(key.clone()));
            },
            Arg::Pos(item) => {
                let ghost before = rendered_args(args@, i as nat, style@, ansi)->Ok_0;
                if let Err(e) = append_value(&mut out, style, ansi, false, item) {
                    proof {
                        lemma_args_error(args@, (i + 1) as nat, args@.len(), style@, ansi);
                    }
                    return Err(e);
                }
                proof {
                    let s = rendered(*item, style@, ansi, false)->Ok_0;
                    assert(out@ =~= start + (before + s));
                }
            },
        }
        i = i + 1;
    }
    let ghost body = rendered_args(args@, args@.len(), style@, ansi)->Ok_0;
    if ansi && !style.is_plain() {
        out.append("\x1b[0m");
    }
    assert(out@ =~= styled_args(args@, style@, ansi)->Ok_0);
    Ok(out)
}

} // verus!

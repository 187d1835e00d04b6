//! Text objects, reusable styles, and the functions that build and print them.

use vstd::prelude::*;
use crate::error::{viewed, Error, ErrorView};
use crate::term::cells::{cells, counted};
use crate::term::filter::{filter_preformatted, filtered, ModeView};
use crate::term::layout::{clip_encoding, clipped, encoded_width, visible};
use crate::term::options::{parse_style, StyleOptions};
use crate::term::render::{
    append_value, lay_out, laid_out, render_args, rendered, repeated, styled_args, write_spaces, Arg,
    Item, Kind, Spec,
};
use crate::term::style::{Style, StyleView};
use crate::value::Value;

verus! {

broadcast use vstd::string::group_string_axioms;

/// Styled text. It holds its encoding: the content with the escape sequences
/// that style it.
#[derive(Debug)]
pub struct Text {
    encoded: String,
}

impl View for Text {
    type V = Seq<char>;

    /// The encoding.
    closed spec fn view(&self) -> Seq<char> {
        self.encoded@
    }
}

/// A value given where text is wanted.
pub enum TextArg {
    Str(String),
    Text(Text),
    Other,
}

/// How a string is shown for debugging.
pub uninterp spec fn debug_form(s: Seq<char>) -> Seq<char>;

/// The `Debug` formatting of `str`.
#[verifier::external_body]
fn debug_string(s: &str) -> (r: String)
    ensures
        r@ == debug_form(s@),
{
    format!("{:?}", s)
}

/// The encoding that a text argument stands for: a string loses whatever
/// styling it carries.
pub open spec fn argument_encoding(value: TextArg) -> Result<Seq<char>, ErrorView> {
    match value {
        TextArg::Str(s) => Ok(filtered(ModeView::Plain, s@)),
        TextArg::Text(text) => Ok(text@),
        TextArg::Other => Err(ErrorView::Type("suffix: expected `Str` or `term.Text`"@)),
    }
}

/// The encoding that a text argument stands for.
pub fn text_encoding(value: &TextArg) -> (r: Result<String, Error>)
    ensures
        viewed(r) == argument_encoding(*value),
{
    match value {
        TextArg::Str(s) => Ok(filter_preformatted(s.as_str(), false)),
        TextArg::Text(text) => Ok(text.encoded.clone()),
        TextArg::Other => Err(Error::Type("suffix: expected `Str` or `term.Text`".to_owned())),
    }
}

/// The room that a text takes, as it is measured.
pub open spec fn measured(encoded: Seq<char>) -> usize {
    counted(cells(visible(encoded)))
}

/// `encoded` clipped to `width` cells, the last of them taken by `suffix`.
pub open spec fn clipped_with(encoded: Seq<char>, width: usize, suffix: Seq<char>) -> Seq<char> {
    let end = clipped(suffix, width);
    let room = if measured(end) <= width { (width - measured(end)) as usize } else { 0 };
    clipped(encoded, room) + end
}

/// A text clipped: itself where it fits, so that only then its suffix matters.
pub open spec fn clip_result(encoded: Seq<char>, width: usize, suffix: Option<TextArg>) -> Result<
    Seq<char>,
    ErrorView,
> {
    if measured(encoded) <= width {
        Ok(encoded)
    } else {
        match suffix {
            None => Ok(clipped_with(encoded, width, Seq::empty())),
            Some(value) => match argument_encoding(value) {
                Ok(end) => Ok(clipped_with(encoded, width, end)),
                Err(e) => Err(e),
            },
        }
    }
}

/// `s` with `spaces` spaces at the start of each of its lines.
pub open spec fn indented(s: Seq<char>, spaces: nat) -> Seq<char>
    decreases s.len(),
{
    if s.len() == 0 {
        Seq::empty()
    } else {
        let before = indented(s.drop_last(), spaces);
        if s.len() == 1 || s[s.len() - 2] == '\n' {
            before + repeated(' ', spaces) + seq![s.last()]
        } else {
            before.push(s.last())
        }
    }
}

/// What the first `n` items join to, with `separator` between them.
pub open spec fn joined_items(items: Seq<Item>, n: nat, separator: Seq<char>) -> Result<
    Seq<char>,
    ErrorView,
>
    decreases n,
{
    if n == 0 {
        Ok(Seq::empty())
    } else {
        match joined_items(items, (n - 1) as nat, separator) {
            Err(e) => Err(e),
            Ok(before) => match rendered(items[n - 1], StyleView::plain(), true, false) {
                Err(e) => Err(e),
                Ok(s) => Ok(
                    if n == 1 {
                        s
                    } else {
                        before + separator + s
                    },
                ),
            },
        }
    }
}

proof fn lemma_joined_error(items: Seq<Item>, n: nat, m: nat, separator: Seq<char>)
    requires
        n <= m,
        joined_items(items, n, separator) is Err,
    ensures
        joined_items(items, m, separator) == joined_items(items, n, separator),
    decreases m,
{
    if n < m {
        lemma_joined_error(items, n, (m - 1) as nat, separator);
    }
}

impl Text {
    /// What a text is formatted to.
    pub open spec fn format_result(encoded: Seq<char>, spec: Spec) -> Result<Seq<char>, ErrorView> {
        match spec.kind {
            None => Err(ErrorView::Type("unresolved format kind"@)),
            Some(kind) => if spec.beyond_layout() {
                Err(ErrorView::Type("unsupported format option"@))
            } else {
                match kind {
                    Kind::Str => Ok(laid_out(spec, filtered(ModeView::Plain, encoded))),
                    Kind::Verbatim => Ok(laid_out(spec, filtered(ModeView::Plain, encoded))),
                    Kind::Dbg => Ok(
                        laid_out(spec, "<term.Text "@ + debug_form(encoded) + ">"@),
                    ),
                    Kind::Numeric => Err(ErrorView::Type("unsupported format option"@)),
                }
            },
        }
    }

    /// The text as a plain string: its content without the styling.
    pub fn display(&self) -> (s: String)
        ensures
            s@ == filtered(ModeView::Plain, self@),
    {
        filter_preformatted(self.encoded.as_str(), false)
    }

    /// The text for debugging.
    pub fn debug(&self) -> (s: String)
        ensures
            s@ == "<term.Text "@ + debug_form(self@) + ">"@,
    {
        let inner = debug_string(self.encoded.as_str());
        "<term.Text ".to_owned().concat(inner.as_str()).concat(">")
    }

    /// The text formatted, measured in terminal cells.
    pub fn fmt(&self, spec: &Spec) -> (r: Result<String, Error>)
        ensures
            viewed(r) == Self::format_result(self@, *spec),
    {
        let kind = match spec.kind {
            Some(kind) => kind,
            None => return Err(Error::Type("unresolved format kind".to_owned())),
        };
        if spec.sign || spec.alt || matches!(spec.fill, crate::term::render::Fill::Zero) {
            return Err(Error::Type("unsupported format option".to_owned()));
        }
        let content = match kind {
            Kind::Str => self.display(),
            Kind::Verbatim => self.display(),
            Kind::Dbg => self.debug(),
            Kind::Numeric => return Err(Error::Type("unsupported format option".to_owned())),
        };
        Ok(lay_out(spec, content.as_str()))
    }

    /// The encoding.
    pub fn encode(&self) -> (s: String)
        ensures
            s@ == self@,
    {
        self.encoded.clone()
    }

    /// The terminal cells that the text takes.
    pub fn width(&self) -> (w: usize)
        ensures
            w == measured(self@),
    {
        encoded_width(self.encoded.as_str())
    }

    /// The text clipped to `width` cells, ending in `suffix` if anything had
    /// to go.
    pub fn clip(&self, width: usize, suffix: &Option<TextArg>) -> (r: Result<Text, Error>)
        ensures
            viewed(r) == clip_result(self@, width, *suffix),
    {
        if self.width() <= width {
            return Ok(Text { encoded: self.encoded.clone() });
        }
        let wanted = match suffix {
            None => String::new(),
            Some(value) => match text_encoding(value) {
                Ok(s) => s,
                Err(e) => return Err(e),
            },
        };
        assert(suffix is None ==> wanted@ =~= Seq::<char>::empty());
        let end = clip_encoding(wanted.as_str(), width);
        let end_width = encoded_width(end.as_str());
        let mut encoded = clip_encoding(self.encoded.as_str(), width.saturating_sub(end_width));
        encoded.append(end.as_str());
        Ok(Text { encoded })
    }

    /// The text with `spaces` spaces at the start of each line.
    pub fn indent(&self, spaces: usize) -> (text: Text)
        ensures
            text@ == indented(self@, spaces as nat),
    {
        let mut out = String::new();
        let mut line_start = true;
        let ghost s = self@;
        for c in iter: self.encoded.chars()
            invariant
                iter.seq() == s,
                out@ == indented(s.take(iter.index()), spaces as nat),
                line_start == (iter.index() == 0 || s[iter.index() - 1] == '\n'),
        {
            let ghost k = iter.index();
            proof {
                assert(s.take(k + 1).drop_last() =~= s.take(k));
            }
            if line_start {
                write_spaces(&mut out, spaces);
                out.push(c);
                assert(out@ =~= indented(s.take(k), spaces as nat) + repeated(' ', spaces as nat)
                    + seq![c]);
            } else {
                out.push(c);
            }
            line_start = c == '\n';
        }
        assert(s.take(s.len() as int) =~= s);
        Text { encoded: out }
    }

    /// Items rendered and joined, with this text between them.
    pub fn join(&self, items: &Vec<Item>) -> (r: Result<Text, Error>)
        ensures
            viewed(r) == joined_items(items@, items@.len(), self@),
    {
        let mut encoded = String::new();
        let mut i: usize = 0;
        while i < items.len()
            invariant
                i <= items@.len(),
                joined_items(items@, i as nat, self@) == Ok::<Seq<char>, ErrorView>(encoded@),
            decreases items@.len() - i,
        {
            let ghost before = encoded@;
            if i > 0 {
                encoded.append(self.encoded.as_str());
            }
            if let Err(e) = append_value(&mut encoded, Style::default(), true, false, &items[i]) {
                proof {
                    lemma_joined_error(items@, (i + 1) as nat, items@.len(), self@);
                }
                return Err(e);
            }
            proof {
                let s = rendered(items@[i as int], StyleView::plain(), true, false)->Ok_0;
                assert(encoded@ =~= if i == 0 { s } else { before + self@ + s });
            }
            i = i + 1;
        }
        Ok(Text { encoded })
    }
}

/// Text from a string that may carry styling of its own, made canonical.
pub fn create_preformatted_text(value: &str) -> (text: Text)
    ensures
        text@ == filtered(ModeView::Preformat, value@),
{
    Text { encoded: filter_preformatted(value, true) }
}

/// A text from its canonical encoding.
pub fn preformatted_text(value: &str) -> (text: Text)
    ensures
        text@ == filtered(ModeView::Preformat, value@),
{
    create_preformatted_text(value)
}

/// Text from a value, which has to be a string; it may carry styling of its
/// own.
pub fn preformat(value: &Value) -> (r: Result<Text, Error>)
    ensures
        viewed(r) == match *value {
            Value::Str(s) => Ok(filtered(ModeView::Preformat, s@)),
            _ => Err(ErrorView::Type("preformat: expected Str"@)),
        },
{
    match value {
        Value::Str(s) => Ok(create_preformatted_text(s.as_str())),
        _ => Err(Error::Type("preformat: expected Str".to_owned())),
    }
}

/// What options and arguments make of `base`: styled text.
pub open spec fn text_result(options: StyleOptions, base: StyleView, args: Seq<Arg>, ansi: bool) -> Result<
    Seq<char>,
    ErrorView,
> {
    match options.resolved(base) {
        Err(e) => Err(e),
        Ok(style) => styled_args(args, style, ansi),
    }
}

/// Builds text from `args`, whether or not any styling is applied.
pub fn make_text(options: &StyleOptions, base: Style, args: &Vec<Arg>) -> (r: Result<Text, Error>)
    ensures
        viewed(r) == text_result(*options, base@, args@, true),
{
    let style = match parse_style(options, base) {
        Ok(style) => style,
        Err(e) => return Err(e),
    };
    match render_args(style, true, args) {
        Ok(encoded) => Ok(Text { encoded }),
        Err(e) => Err(e),
    }
}

/// Builds a reusable style, which takes keywords only.
pub fn make_style(options: &StyleOptions, base: Style, args: &Vec<Arg>) -> (r: Result<Style, Error>)
    ensures
        viewed(r) == match options.resolved(base@) {
            Err(e) => Err(e),
            Ok(style) => if args@.len() == 0 {
                Ok(style)
            } else {
                Err(ErrorView::UnexpectedPositional(0))
            },
        },
{
    let style = match parse_style(options, base) {
        Ok(style) => style,
        Err(e) => return Err(e),
    };
    if args.len() != 0 {
        return Err(Error::UnexpectedPositional(0));
    }
    Ok(style)
}

/// What applying a style gives: text, or a style derived from it.
#[derive(Debug)]
pub enum Applied {
    Style(Style),
    Text(Text),
}

/// The mathematical content of an [`Applied`].
pub enum AppliedView {
    Style(StyleView),
    Text(Seq<char>),
}

impl View for Applied {
    type V = AppliedView;

    open spec fn view(&self) -> AppliedView {
        match self {
            Applied::Style(style) => AppliedView::Style(style@),
            Applied::Text(text) => AppliedView::Text(text@),
        }
    }
}

/// Applies a style: to arguments, giving text, or to nothing, giving the
/// style that the options derive from it.
pub fn apply_style(options: &StyleOptions, base: Style, args: &Vec<Arg>) -> (r: Result<Applied, Error>)
    ensures
        viewed(r) == match options.resolved(base@) {
            Err(e) => Err(e),
            Ok(style) => if args@.len() == 0 {
                Ok(AppliedView::Style(style))
            } else {
                match styled_args(args@, style, true) {
                    Ok(encoded) => Ok(AppliedView::Text(encoded)),
                    Err(e) => Err(e),
                }
            },
        },
{
    let style = match parse_style(options, base) {
        Ok(style) => style,
        Err(e) => return Err(e),
    };
    if args.len() == 0 {
        return Ok(Applied::Style(style));
    }
    match render_args(style, true, args) {
        Ok(encoded) => Ok(Applied::Text(Text { encoded })),
        Err(e) => Err(e),
    }
}

/// What `print` writes: its arguments in the style that the options name.
pub fn print(options: &StyleOptions, ansi: bool, args: &Vec<Arg>) -> (r: Result<String, Error>)
    ensures
        viewed(r) == text_result(*options, StyleView::plain(), args@, ansi),
{
    let style = match parse_style(options, Style::default()) {
        Ok(style) => style,
        Err(e) => return Err(e),
    };
    render_args(style, ansi, args)
}

/// What one argument of `echo` becomes; a keyword shows its name.
pub open spec fn echoed_arg(arg: Arg, ansi: bool) -> Result<Seq<char>, ErrorView> {
    match arg {
        Arg::Pos(item) => rendered(item, StyleView::plain(), ansi, true),
        Arg::Key(key, item) => match rendered(item, StyleView::plain(), ansi, true) {
            Ok(s) => Ok(filtered(ModeView::Plain, key@) + ": "@ + s),
            Err(e) => Err(e),
        },
    }
}

/// What the first `n` arguments of `echo` become, with spaces between.
pub open spec fn echoed(args: Seq<Arg>, n: nat, ansi: bool) -> Result<Seq<char>, ErrorView>
    decreases n,
{
    if n == 0 {
        Ok(Seq::empty())
    } else {
        match echoed(args, (n - 1) as nat, ansi) {
            Err(e) => Err(e),
            Ok(before) => match echoed_arg(args[n - 1], ansi) {
                Err(e) => Err(e),
                Ok(s) => Ok(
                    if n == 1 {
                        s
                    } else {
                        before + " "@ + s
                    },
                ),
            },
        }
    }
}

proof fn lemma_echoed_error(args: Seq<Arg>, n: nat, m: nat, ansi: bool)
    requires
        n <= m,
        echoed(args, n, ansi) is Err,
    ensures
        echoed(args, m, ansi) == echoed(args, n, ansi),
    decreases m,
{
    if n < m {
        lemma_echoed_error(args, n, (m - 1) as nat, ansi);
    }
}

/// Appends a keyword's name.
fn append_key(out: &mut String, key: &str)
    ensures
        final(out)@ == old(out)@ + filtered(ModeView::Plain, key@),
{
    let text = filter_preformatted(key, false);
    out.append(text.as_str());
}

/// What `echo` writes before the line ending.
pub fn echo(ansi: bool, args: &Vec<Arg>) -> (r: Result<String, Error>)
    ensures
        viewed(r) == echoed(args@, args@.len(), ansi),
{
    let mut out = String::new();
    let mut i: usize = 0;
    while i < args.len()
        invariant
            i <= args@.len(),
            echoed(args@, i as nat, ansi) == Ok::<Seq<char>, ErrorView>(out@),
        decreases args@.len() - i,
    {
        let ghost before = out@;
        if i > 0 {
            out.append(" ");
        }
        let item = match &args[i] {
            Arg::Pos(item) => item,
            Arg::Key(key, item) => {
                append_key(&mut out, key.as_str());
                out.append(": ");
                item
            },
        };
        if let Err(e) = append_value(&mut out, Style::default(), ansi, true, item) {
            proof {
                lemma_echoed_error(args@, (i + 1) as nat, args@.len(), ansi);
            }
            return Err(e);
        }
        proof {
            let s = echoed_arg(args@[i as int], ansi)->Ok_0;
            assert(out@ =~= if i == 0 { s } else { before + " "@ + s });
        }
        i = i + 1;
    }
    Ok(out)
}

} // verus!

//! Filtering text for the terminal: control characters and escape sequences
//! are taken out, and styling is dropped, rewritten canonically, or rewritten
//! relative to an enclosing style.

use vstd::prelude::*;
use crate::term::sgr::{params_ops, SgrParser};
use crate::term::style::{
    attr_encoding, sgr_encoding, style_encoding, write_sgr_op, Sgr, Style, StyleView, BOLD, DIM,
};
use crate::text::{control, is_control};

verus! {

broadcast use vstd::string::group_string_axioms;

/// What happens to the styling of filtered text.
#[derive(Clone, Copy, Debug)]
pub enum FilterMode {
    /// It is dropped.
    Plain,
    /// It is rewritten, one change per sequence, and reset at the end.
    Preformat,
    /// It is rewritten, and whatever it turns off falls back to the given
    /// enclosing style.
    Child(Style),
}

/// The mathematical content of a [`FilterMode`].
pub enum ModeView {
    Plain,
    Preformat,
    Child(StyleView),
}

impl View for FilterMode {
    type V = ModeView;

    open spec fn view(&self) -> ModeView {
        match *self {
            FilterMode::Plain => ModeView::Plain,
            FilterMode::Preformat => ModeView::Preformat,
            FilterMode::Child(parent) => ModeView::Child(parent@),
        }
    }
}

/// Where in an escape sequence the text stands. A control sequence carries
/// the parameters seen so far.
pub enum ScanView {
    Ground,
    Esc,
    EscIntermediate,
    Csi(Seq<char>),
    StringControl(bool),
}

/// A filter's state, together with everything it has let through.
pub struct FilterView {
    pub mode: ModeView,
    pub state: ScanView,
    pub style: StyleView,
    pub out: Seq<char>,
}

/// What restores the enclosing style after `op`.
pub open spec fn restored(parent: StyleView, op: Sgr) -> Seq<char> {
    match op {
        Sgr::Reset => style_encoding(parent),
        Sgr::AttrOff(attr, _) => attr_encoding(parent, attr as int),
        Sgr::IntensityOff => attr_encoding(parent, 0) + attr_encoding(parent, 1),
        Sgr::Fg(None) => match parent.fg {
            Some(color) => sgr_encoding(Sgr::Fg(Some(color))),
            None => Seq::empty(),
        },
        Sgr::Bg(None) => match parent.bg {
            Some(color) => sgr_encoding(Sgr::Bg(Some(color))),
            None => Seq::empty(),
        },
        _ => Seq::empty(),
    }
}

/// What a rendition change becomes.
pub open spec fn op_output(mode: ModeView, op: Sgr) -> Seq<char> {
    match mode {
        ModeView::Plain => Seq::empty(),
        ModeView::Preformat => sgr_encoding(op),
        ModeView::Child(parent) => sgr_encoding(op) + restored(parent, op),
    }
}

/// What a series of rendition changes becomes.
pub open spec fn ops_output(mode: ModeView, ops: Seq<Sgr>) -> Seq<char>
    decreases ops.len(),
{
    if ops.len() == 0 {
        Seq::empty()
    } else {
        op_output(mode, ops[0]) + ops_output(mode, ops.drop_first())
    }
}

/// Whether `c` ends a control sequence.
pub open spec fn is_final(c: char) -> bool {
    '\u{40}' <= c <= '\u{7e}'
}

/// Whether text outside any sequence may contain `c`.
pub open spec fn printable(c: char) -> bool {
    !control(c) || c == '\n' || c == '\t'
}

impl FilterView {
    /// A filter that has seen nothing.
    pub open spec fn start(mode: ModeView) -> FilterView {
        FilterView {
            mode,
            state: ScanView::Ground,
            style: StyleView::plain(),
            out: Seq::empty(),
        }
    }

    pub open spec fn to(self, state: ScanView) -> FilterView {
        FilterView { state, ..self }
    }

    /// The filter after the rendition changes `ops`. Only a filter that will
    /// have to reset keeps track of the style.
    pub open spec fn restyled(self, ops: Seq<Sgr>) -> FilterView {
        FilterView {
            state: ScanView::Ground,
            out: self.out + ops_output(self.mode, ops),
            style: if self.mode is Preformat {
                self.style.applied_all(ops)
            } else {
                self.style
            },
            ..self
        }
    }

    /// The filter after one more character.
    pub open spec fn step(self, c: char) -> FilterView {
        match self.state {
            ScanView::Ground => if c == '\x1b' {
                self.to(ScanView::Esc)
            } else if c == '\u{9b}' {
                self.to(ScanView::Csi(Seq::empty()))
            } else if c == '\u{90}' || c == '\u{9d}' || c == '\u{9e}' || c == '\u{9f}' {
                self.to(ScanView::StringControl(false))
            } else if printable(c) {
                FilterView { out: self.out.push(c), ..self }
            } else {
                self
            },
            ScanView::Esc => if c == '[' {
                self.to(ScanView::Csi(Seq::empty()))
            } else if c == ']' || c == 'P' || c == 'X' || c == '^' || c == '_' {
                self.to(ScanView::StringControl(false))
            } else if '\u{20}' <= c <= '\u{2f}' {
                self.to(ScanView::EscIntermediate)
            } else {
                self.to(ScanView::Ground)
            },
            ScanView::EscIntermediate => if '\u{30}' <= c <= '\u{7e}' {
                self.to(ScanView::Ground)
            } else {
                self
            },
            ScanView::Csi(params) => if c == 'm' {
                self.restyled(params_ops(params))
            } else if is_final(c) {
                self.to(ScanView::Ground)
            } else {
                self.to(ScanView::Csi(params.push(c)))
            },
            ScanView::StringControl(esc) => if c == '\x07' || esc && c == '\\' {
                self.to(ScanView::Ground)
            } else {
                self.to(ScanView::StringControl(c == '\x1b'))
            },
        }
    }

    /// The filter after all of `input`.
    pub open spec fn scan(self, input: Seq<char>) -> FilterView
        decreases input.len(),
    {
        if input.len() == 0 {
            self
        } else {
            self.scan(input.drop_last()).step(input.last())
        }
    }

    /// The filter's whole output, with the style it left selected reset.
    pub open spec fn finished(self) -> Seq<char> {
        if self.mode is Preformat && self.style != StyleView::plain() {
            self.out + "\x1b[0m"@
        } else {
            self.out
        }
    }
}

/// `input`, filtered.
pub open spec fn filtered(mode: ModeView, input: Seq<char>) -> Seq<char> {
    FilterView::start(mode).scan(input).finished()
}

enum ScanState {
    Ground,
    Esc,
    EscIntermediate,
    Csi,
    StringControl { esc: bool },
}

/// A filter on its way through some text, which may arrive in pieces.
pub struct Filter {
    out: String,
    mode: FilterMode,
    state: ScanState,
    params: String,
    style: Style,
}

impl View for Filter {
    type V = FilterView;

    closed spec fn view(&self) -> FilterView {
        FilterView {
            mode: self.mode@,
            state: match self.state {
                ScanState::Ground => ScanView::Ground,
                ScanState::Esc => ScanView::Esc,
                ScanState::EscIntermediate => ScanView::EscIntermediate,
                ScanState::Csi => ScanView::Csi(self.params@),
                ScanState::StringControl { esc } => ScanView::StringControl(esc),
            },
            style: self.style@,
            out: self.out@,
        }
    }
}

impl Filter {
    /// A filter that has seen nothing.
    pub fn new(mode: FilterMode) -> (filter: Filter)
        ensures
            filter@ == FilterView::start(mode@),
    {
        let filter = Filter {
            out: String::new(),
            mode,
            state: ScanState::Ground,
            params: String::new(),
            style: Style::default(),
        };
        assert(filter@.out =~= Seq::<char>::empty());
        filter
    }

    /// Ends the text, handing out everything that was let through.
    pub fn finish(self) -> (out: String)
        ensures
            out@ == self@.finished(),
    {
        let mut filter = self;
        if matches!(filter.mode, FilterMode::Preformat) && !filter.style.is_plain() {
            filter.out.append("\x1b[0m");
        }
        filter.out
    }

    /// Takes one character of text outside any sequence.
    fn write_ground(&mut self, c: char)
        requires
            old(self)@.state is Ground,
        ensures
            final(self)@ == old(self)@.step(c),
    {
        if c == '\x1b' {
            self.state = ScanState::Esc;
        } else if c == '\u{9b}' {
            self.params = String::new();
            self.state = ScanState::Csi;
            assert(self@.state->Csi_0 =~= Seq::<char>::empty());
        } else if c == '\u{90}' || c == '\u{9d}' || c == '\u{9e}' || c == '\u{9f}' {
            self.state = ScanState::StringControl { esc: false };
        } else if !is_control(c) || c == '\n' || c == '\t' {
            self.out.push(c);
        }
    }

    /// Performs the rendition changes collected in the current sequence.
    fn write_sgr(&mut self)
        requires
            old(self).state is Csi,
        ensures
            final(self)@ == old(self)@.restyled(params_ops(old(self).params@)),
    {
        let ghost ops = params_ops(self.params@);
        let mut parser = SgrParser::new(self.params.as_str());
        let ghost mut rest = ops;
        loop
            invariant
                rest == parser@,
                self.mode == old(self).mode,
                self.params@ == old(self).params@,
                self.out@ + ops_output(self.mode@, rest) == old(self).out@ + ops_output(self.mode@, ops),
                self.mode@ is Preformat ==> self.style@.applied_all(rest) == old(
                    self,
                ).style@.applied_all(ops),
                !(self.mode@ is Preformat) ==> self.style@ == old(self).style@,
            ensures
                rest.len() == 0,
            decreases rest.len(),
        {
            let op = match parser.next() {
                Some(op) => op,
                None => {
                    break;
                },
            };
            proof {
                assert(rest.drop_first() =~= parser@);
                assert(rest[0] == op);
                rest = parser@;
            }
            let ghost before = self.out@;
            match self.mode {
                FilterMode::Plain => {},
                FilterMode::Preformat => {
                    write_sgr_op(&mut self.out, op);
                    self.style.apply(op);
                },
                FilterMode::Child(parent) => {
                    write_sgr_op(&mut self.out, op);
                    write_restored(&mut self.out, &parent, op);
                },
            }
            assert(self.out@ =~= before + op_output(self.mode@, op));
            assert(self.out@ + ops_output(self.mode@, rest) =~= before + (op_output(self.mode@, op)
                + ops_output(self.mode@, rest)));
        }
        self.state = ScanState::Ground;
        assert(self@.out =~= old(self)@.restyled(ops).out);
    }

    /// Takes one character.
    fn write_char(&mut self, c: char)
        ensures
            final(self)@ == old(self)@.step(c),
    {
        match self.state {
            ScanState::Ground => self.write_ground(c),
            ScanState::Esc => {
                if c == '[' {
                    self.params = String::new();
                    self.state = ScanState::Csi;
                    assert(self@.state->Csi_0 =~= Seq::<char>::empty());
                } else if c == ']' || c == 'P' || c == 'X' || c == '^' || c == '_' {
                    self.state = ScanState::StringControl { esc: false };
                } else if '\u{20}' <= c && c <= '\u{2f}' {
                    self.state = ScanState::EscIntermediate;
                } else {
                    self.state = ScanState::Ground;
                }
            },
            ScanState::EscIntermediate => {
                if '\u{30}' <= c && c <= '\u{7e}' {
                    self.state = ScanState::Ground;
                }
            },
            ScanState::Csi => {
                if c == 'm' {
                    self.write_sgr();
                } else if '\u{40}' <= c && c <= '\u{7e}' {
                    self.state = ScanState::Ground;
                } else {
                    self.params.push(c);
                }
            },
            ScanState::StringControl { esc } => {
                if c == '\x07' || esc && c == '\\' {
                    self.state = ScanState::Ground;
                } else {
                    self.state = ScanState::StringControl { esc: c == '\x1b' };
                }
            },
        }
    }

    /// Takes more text. A sequence may begin in one piece and end in another.
    pub fn write_str(&mut self, input: &str)
        ensures
            final(self)@ == old(self)@.scan(input@),
    {
        for c in iter: input.chars()
            invariant
                iter.seq() == input@,
                self@ == old(self)@.scan(input@.take(iter.index())),
        {
            proof {
                assert(input@.take(iter.index() + 1).drop_last() =~= input@.take(iter.index()));
            }
            self.write_char(c);
        }
        assert(input@.take(input@.len() as int) =~= input@);
    }
}

/// Appends what restores the enclosing style after `op`.
fn write_restored(out: &mut String, parent: &Style, op: Sgr)
    requires
        op.valid(),
    ensures
        final(out)@ == old(out)@ + restored(parent@, op),
{
    match op {
        Sgr::Reset => parent.write(out),
        Sgr::AttrOff(attr, _) => parent.write_attr(out, attr),
        Sgr::IntensityOff => {
            parent.write_attr(out, BOLD);
            parent.write_attr(out, DIM);
        },
        Sgr::Fg(None) => {
            if let Some(color) = parent.fg {
                write_sgr_op(out, Sgr::Fg(Some(color)));
            }
        },
        Sgr::Bg(None) => {
            if let Some(color) = parent.bg {
                write_sgr_op(out, Sgr::Bg(Some(color)));
            }
        },
        _ => {},
    }
    assert(out@ =~= old(out)@ + restored(parent@, op));
}

/// Filters a whole text: canonically styled, or plain.
pub fn filter_preformatted(value: &str, ansi: bool) -> (out: String)
    ensures
        out@ == filtered(
            if ansi {
                ModeView::Preformat
            } else {
                ModeView::Plain
            },
            value@,
        ),
{
    let mut filter = Filter::new(
        if ansi {
            FilterMode::Preformat
        } else {
            FilterMode::Plain
        },
    );
    filter.write_str(value);
    filter.finish()
}

} // verus!

//! Consoles that collect what is written to them.

use vstd::prelude::*;
use vstd::utf8::{encode_utf8, valid_utf8};
use crate::console::data::{append_bytes, decode_bytes, Framing};
use crate::error::{Error, ErrorView};

verus! {

broadcast use vstd::string::group_string_axioms;

pub const NEWLINE: u8 = 10;

/// The complete lines of `b`, terminators included, and the partial line
/// after them.
pub open spec fn framed(b: Seq<u8>) -> (Seq<Seq<u8>>, Seq<u8>)
    decreases b.len(),
{
    if b.len() == 0 {
        (Seq::empty(), Seq::empty())
    } else {
        let (lines, partial) = framed(b.drop_last());
        if b.last() == NEWLINE {
            (lines.push(partial.push(b.last())), Seq::empty())
        } else {
            (lines, partial.push(b.last()))
        }
    }
}

/// Pieces one after the other.
pub open spec fn concatenated(pieces: Seq<Seq<u8>>) -> Seq<u8>
    decreases pieces.len(),
{
    if pieces.len() == 0 {
        Seq::empty()
    } else {
        concatenated(pieces.drop_last()) + pieces.last()
    }
}

/// The bytes of each piece.
pub open spec fn pieces_of(v: Seq<Vec<u8>>) -> Seq<Seq<u8>> {
    Seq::new(v.len(), |i: int| v[i]@)
}

/// What a console with `mode` can emit of `buf`, and what it keeps. At the
/// end a partial line goes out too.
pub open spec fn drained(mode: Framing, buf: Seq<u8>, last: bool) -> (Seq<Seq<u8>>, Seq<u8>) {
    match mode {
        Framing::Chunk => if buf.len() == 0 {
            (Seq::empty(), Seq::empty())
        } else {
            (seq![buf], Seq::empty())
        },
        Framing::Line => {
            let (lines, partial) = framed(buf);
            if last && partial.len() > 0 {
                (lines.push(partial), Seq::empty())
            } else {
                (lines, partial)
            }
        },
    }
}

/// Framing loses nothing: the lines and the partial line are the bytes.
pub proof fn framing_is_lossless(b: Seq<u8>)
    ensures
        concatenated(framed(b).0) + framed(b).1 == b,
    decreases b.len(),
{
    if b.len() == 0 {
        assert(concatenated(framed(b).0) + framed(b).1 =~= b);
    } else {
        framing_is_lossless(b.drop_last());
        let (lines, partial) = framed(b.drop_last());
        if b.last() == NEWLINE {
            assert(lines.push(partial.push(b.last())).drop_last() =~= lines);
        }
        assert(concatenated(framed(b).0) + framed(b).1 =~= b.drop_last().push(b.last()));
        assert(b.drop_last().push(b.last()) =~= b);
    }
}

/// Whether `line` ends in a newline and holds no other.
pub open spec fn one_line(line: Seq<u8>) -> bool {
    &&& line.len() > 0
    &&& line.last() == NEWLINE
    &&& forall|i: int| 0 <= i < line.len() - 1 ==> #[trigger] line[i] != NEWLINE
}

/// Each complete line is one line, and the partial line holds no terminator.
pub proof fn framing_cuts_at_newlines(b: Seq<u8>)
    ensures
        forall|i: int| 0 <= i < framed(b).0.len() ==> one_line(#[trigger] framed(b).0[i]),
        forall|i: int| 0 <= i < framed(b).1.len() ==> #[trigger] framed(b).1[i] != NEWLINE,
    decreases b.len(),
{
    if b.len() > 0 {
        framing_cuts_at_newlines(b.drop_last());
        let (lines, partial) = framed(b.drop_last());
        let all = framed(b).0;
        assert forall|i: int| 0 <= i < all.len() implies one_line(#[trigger] all[i]) by {
            if i < lines.len() {
                assert(all[i] == lines[i]);
            }
        }
    }
}

/// How the stream was cut into writes does not matter: framing what was kept
/// together with what comes next gives the lines that follow.
pub proof fn framing_in_pieces(a: Seq<u8>, b: Seq<u8>)
    ensures
        framed(a + b).0 == framed(a).0 + framed(framed(a).1 + b).0,
        framed(a + b).1 == framed(framed(a).1 + b).1,
    decreases b.len(),
{
    let kept = framed(a).1;
    if b.len() == 0 {
        assert(a + b =~= a);
        assert(kept + b =~= kept);
        framing_cuts_at_newlines(a);
        lemma_framed_partial(kept);
        assert(framed(a).0 + Seq::<Seq<u8>>::empty() =~= framed(a).0);
    } else {
        framing_in_pieces(a, b.drop_last());
        assert((a + b).drop_last() =~= a + b.drop_last());
        assert((kept + b).drop_last() =~= kept + b.drop_last());
        assert(framed(a + b).0 =~= framed(a).0 + framed(kept + b).0);
    }
}

proof fn lemma_framed_partial(b: Seq<u8>)
    requires
        forall|i: int| 0 <= i < b.len() ==> #[trigger] b[i] != NEWLINE,
    ensures
        framed(b) == (Seq::<Seq<u8>>::empty(), b),
    decreases b.len(),
{
    if b.len() == 0 {
        assert(b =~= Seq::<u8>::empty());
    } else {
        assert forall|i: int| 0 <= i < b.drop_last().len() implies #[trigger] b.drop_last()[i]
            != NEWLINE by {
            assert(b.drop_last()[i] == b[i]);
        }
        lemma_framed_partial(b.drop_last());
        assert(b[b.len() - 1] != NEWLINE);
        assert(b.drop_last().push(b.last()) =~= b);
    }
}

/// A value handed on to the sink behind a console.
#[derive(Debug)]
pub enum Emitted {
    Text(String),
    Bytes(Vec<u8>),
}

impl Emitted {
    /// The bytes it stands for.
    pub open spec fn bytes(self) -> Seq<u8> {
        match self {
            Emitted::Text(s) => encode_utf8(s@),
            Emitted::Bytes(b) => b@,
        }
    }

    /// Whether it has the form that the framing gives its values.
    pub open spec fn framed_as(self, mode: Framing) -> bool {
        match mode {
            Framing::Line => self is Text,
            Framing::Chunk => self is Bytes,
        }
    }
}

/// How many of the pieces can be emitted: up to the first line that is not
/// valid UTF-8.
pub open spec fn emittable(mode: Framing, pieces: Seq<Seq<u8>>) -> nat
    decreases pieces.len(),
{
    if pieces.len() == 0 {
        0
    } else if mode is Line && !valid_utf8(pieces[0]) {
        0
    } else {
        1 + emittable(mode, pieces.drop_first())
    }
}

/// What a write completed: values for the sink, in order, and the error that
/// stopped them, if any.
pub struct Fed {
    pub values: Vec<Emitted>,
    pub error: Option<Error>,
}

/// A console over an ordinary sink. It cuts the stream into values by the
/// framing it was made with, and changes nothing else.
pub struct SinkConsole {
    buf: Vec<u8>,
    mode: Framing,
    can_style: bool,
}

impl SinkConsole {
    /// The bytes written but not yet emitted.
    pub closed spec fn pending(self) -> Seq<u8> {
        self.buf@
    }

    pub closed spec fn framing(self) -> Framing {
        self.mode
    }

    pub closed spec fn styles(self) -> bool {
        self.can_style
    }

    /// A console that nothing was written to.
    pub fn new(can_style: bool, mode: Framing) -> (console: SinkConsole)
        ensures
            console.pending() == Seq::<u8>::empty(),
            console.framing() == mode,
            console.styles() == can_style,
    {
        SinkConsole { buf: Vec::new(), mode, can_style }
    }

    /// The console for debugging.
    pub fn debug(&self) -> (s: &'static str)
        ensures
            s@ == "<sink console>"@,
    {
        "<sink console>"
    }

    /// Whether styling may be written to it.
    pub fn can_style(&self) -> (r: bool)
        ensures
            r == self.styles(),
    {
        self.can_style
    }

    /// Splits off whatever can be emitted now. What was split off and what is
    /// left are together what was there.
    pub fn drain(&mut self, last: bool) -> (out: Vec<Vec<u8>>)
        ensures
            (pieces_of(out@), final(self).pending()) == drained(
                old(self).framing(),
                old(self).pending(),
                last,
            ),
            concatenated(pieces_of(out@)) + final(self).pending() == old(self).pending(),
            final(self).framing() == old(self).framing(),
            final(self).styles() == old(self).styles(),
    {
        let ghost all = self.buf@;
        proof {
            framing_is_lossless(all);
        }
        let mut out: Vec<Vec<u8>> = Vec::new();
        match self.mode {
            Framing::Chunk => {
                if self.buf.len() > 0 {
                    let mut whole: Vec<u8> = Vec::new();
                    whole.append(&mut self.buf);
                    out.push(whole);
                    proof {
                        assert(pieces_of(out@) =~= seq![all]);
                        assert(seq![all].drop_last() =~= Seq::<Seq<u8>>::empty());
                        reveal_with_fuel(concatenated, 2);
                        assert(concatenated(seq![all]) =~= all);
                    }
                } else {
                    assert(pieces_of(out@) =~= Seq::<Seq<u8>>::empty());
                }
                assert(concatenated(pieces_of(out@)) + self.buf@ =~= all);
            },
            Framing::Line => {
                let mut current: Vec<u8> = Vec::new();
                let mut i: usize = 0;
                assert(pieces_of(out@) =~= framed(all.take(0)).0);
                while i < self.buf.len()
                    invariant
                        i <= self.buf@.len(),
                        self.buf@ == all,
                        self.mode == old(self).mode,
                        self.can_style == old(self).can_style,
                        pieces_of(out@) == framed(all.take(i as int)).0,
                        current@ == framed(all.take(i as int)).1,
                    decreases self.buf@.len() - i,
                {
                    let b = self.buf[i];
                    proof {
                        assert(all.take(i + 1).drop_last() =~= all.take(i as int));
                    }
                    let ghost before = out@;
                    let ghost partial = current@;
                    current.push(b);
                    if b == NEWLINE {
                        out.push(current);
                        current = Vec::new();
                        assert(pieces_of(out@) =~= pieces_of(before).push(partial.push(b)));
                    }
                    i = i + 1;
                }
                assert(all.take(i as int) =~= all);
                let ghost before = out@;
                if last && current.len() > 0 {
                    let ghost partial = current@;
                    out.push(current);
                    self.buf = Vec::new();
                    proof {
                        assert(pieces_of(out@) =~= pieces_of(before).push(partial));
                        assert(pieces_of(out@).drop_last() =~= pieces_of(before));
                        assert(concatenated(pieces_of(out@)) + self.buf@ =~= concatenated(
                            pieces_of(before),
                        ) + partial);
                    }
                } else {
                    self.buf = current;
                }
            },
        }
        out
    }

    /// Takes more bytes and hands on whatever they complete. At the end that
    /// is also a partial line.
    #[verifier::loop_isolation(false)]
    pub fn feed(&mut self, bytes: &Vec<u8>, last: bool) -> (fed: Fed)
        ensures
            ({
                let mode = old(self).framing();
                let (pieces, kept) = drained(mode, old(self).pending() + bytes@, last);
                let n = emittable(mode, pieces);
                &&& final(self).pending() == kept
                &&& concatenated(pieces) + kept == old(self).pending() + bytes@
                &&& fed.values@.len() == n
                &&& forall|i: int|
                    0 <= i < n ==> (#[trigger] fed.values@[i]).bytes() == pieces[i]
                        && fed.values@[i].framed_as(mode)
                &&& n == pieces.len() ==> fed.error is None
                &&& n < pieces.len() ==> fed.error is Some && fed.error->0@ == ErrorView::Runtime(
                    "console capture: invalid UTF-8"@,
                )
            }),
            final(self).framing() == old(self).framing(),
            final(self).styles() == old(self).styles(),
    {
        append_bytes(&mut self.buf, bytes);
        let mode = self.mode;
        let mut pending = self.drain(last);
        let ghost pieces = pieces_of(pending@);
        let mut values: Vec<Emitted> = Vec::new();
        assert(pieces.skip(0) =~= pieces);
        while pending.len() > 0
            invariant
                values@.len() + pending@.len() == pieces.len(),
                pieces_of(pending@) == pieces.skip(values@.len() as int),
                emittable(mode, pieces) == values@.len() + emittable(
                    mode,
                    pieces.skip(values@.len() as int),
                ),
                forall|i: int|
                    0 <= i < values@.len() ==> (#[trigger] values@[i]).bytes() == pieces[i]
                        && values@[i].framed_as(mode),
            decreases pending@.len(),
        {
            let ghost rest = pieces.skip(values@.len() as int);
            let unit = pending.remove(0);
            proof {
                assert(rest[0] == unit@);
                assert(pieces_of(pending@) =~= rest.drop_first());
                assert(rest.drop_first() =~= pieces.skip((values@.len() + 1) as int));
            }
            match mode {
                Framing::Line => match decode_bytes(unit) {
                    Ok(text) => values.push(Emitted::Text(text)),
                    Err(_) => {
                        return Fed {
                            values,
                            error: Some(
                                Error::Runtime("console capture: invalid UTF-8".to_owned()),
                            ),
                        };
                    },
                },
                Framing::Chunk => values.push(Emitted::Bytes(unit)),
            }
        }
        Fed { values, error: None }
    }
}

/// The console behind a capture that reports exactly what was written.
pub struct SubConsole {
    text: String,
    can_style: bool,
}

impl View for SubConsole {
    type V = Seq<char>;

    /// Everything written so far.
    closed spec fn view(&self) -> Seq<char> {
        self.text@
    }
}

impl SubConsole {
    pub closed spec fn styles(self) -> bool {
        self.can_style
    }

    /// A console that nothing was written to.
    pub fn new(can_style: bool) -> (console: SubConsole)
        ensures
            console@ == Seq::<char>::empty(),
            console.styles() == can_style,
    {
        SubConsole { text: String::new(), can_style }
    }

    /// Everything written so far.
    pub fn text(&self) -> (r: &str)
        ensures
            r@ == self@,
    {
        self.text.as_str()
    }

    /// The console for debugging.
    pub fn debug(&self) -> (s: &'static str)
        ensures
            s@ == "<sub console>"@,
    {
        "<sub console>"
    }

    /// Whether styling may be written to it.
    pub fn can_style(&self) -> (r: bool)
        ensures
            r == self.styles(),
    {
        self.can_style
    }

    /// Takes more bytes, all of them or none.
    pub fn append(&mut self, bytes: Vec<u8>) -> (r: Result<(), Error>)
        ensures
            final(self).styles() == old(self).styles(),
            valid_utf8(bytes@) ==> r is Ok && encode_utf8(final(self)@) == encode_utf8(old(self)@)
                + bytes@,
            !valid_utf8(bytes@) ==> final(self)@ == old(self)@ && r is Err && r->Err_0@
                == ErrorView::Runtime("term.sub: captured invalid UTF-8"@),
    {
        match decode_bytes(bytes) {
            Ok(text) => {
                self.text.append(text.as_str());
                proof {
                    lemma_encode_concat(old(self)@, text@);
                }
                Ok(())
            },
            Err(_) => Err(Error::Runtime("term.sub: captured invalid UTF-8".to_owned())),
        }
    }
}

/// Encoding goes character by character.
proof fn lemma_encode_concat(a: Seq<char>, b: Seq<char>)
    ensures
        encode_utf8(a + b) == encode_utf8(a) + encode_utf8(b),
    decreases a.len(),
{
    if a.len() == 0 {
        assert(a + b =~= b);
        assert(encode_utf8(a) + encode_utf8(b) =~= encode_utf8(b));
    } else {
        lemma_encode_concat(a.drop_first(), b);
        assert((a + b).drop_first() =~= a.drop_first() + b);
        assert(encode_utf8(a + b) =~= encode_utf8(a) + encode_utf8(b));
    }
}

} // verus!

//! Where output goes and what becomes of it on the way.

use vstd::prelude::*;
use vstd::utf8::{encode_utf8, valid_utf8};
use crate::console::data::{chomped, mode_result, written, DataArg, Framing};
use crate::console::routing::{ConsoleId, Host, Strand};
use crate::console::sink::{
    concatenated, drained, emittable, framed, framing_cuts_at_newlines, framing_is_lossless,
    one_line,
};
use crate::error::ErrorView;
use crate::value::Value;

verus! {

broadcast use vstd::string::group_string_axioms;

/// Output goes to the console of the capture around the strand, with that
/// console's line ending; it goes to the host's console, with the host's line
/// ending, if there is no capture or if a console is printing itself.
pub proof fn output_goes_where_it_belongs(strand: Strand, host: Host, console: ConsoleId)
    ensures
        strand.capture == Some(console) && !strand.local.is_capturing() ==> strand.target(host)
            == Ok::<ConsoleId, ErrorView>(console) && strand.ending(host)
            == strand.capture_line_ending,
        strand.capture is None || strand.local.is_capturing() ==> {
            &&& strand.target(host) == Ok::<ConsoleId, ErrorView>(console)
                <==> host.console == Some(
                console,
            )
            &&& strand.ending(host) == host.line_ending
        },
        strand.target(host) is Err <==> host.console is None && (strand.capture is None
            || strand.local.is_capturing()),
{
}

/// Nothing is lost or changed on the way to a sink, and nothing is held back
/// in the end. Lines go out one by one as soon as they end, and what does not
/// end goes out last; chunks go out as they come.
pub proof fn sinks_get_everything(mode: Framing, buf: Seq<u8>, last: bool)
    ensures
        ({
            let (out, kept) = drained(mode, buf, last);
            &&& concatenated(out) + kept == buf
            &&& last || mode is Chunk ==> kept.len() == 0
            &&& forall|i: int| 0 <= i < out.len() ==> (#[trigger] out[i]).len() > 0
            &&& forall|i: int| 0 <= i < kept.len() ==> #[trigger] kept[i] != 10
            &&& mode is Chunk ==> out.len() <= 1
            &&& mode is Line ==> forall|i: int|
                0 <= i < out.len() && (!last || i < out.len() - 1) ==> one_line(#[trigger] out[i])
            &&& mode is Line && out.len() > 0 ==> forall|j: int|
                0 <= j < out[out.len() - 1].len() - 1 ==> #[trigger] out[out.len() - 1][j] != 10
        }),
{
    framing_is_lossless(buf);
    framing_cuts_at_newlines(buf);
    let (out, kept) = drained(mode, buf, last);
    let (lines, partial) = framed(buf);
    match mode {
        Framing::Chunk => {
            if buf.len() > 0 {
                assert(out.drop_last() =~= Seq::<Seq<u8>>::empty());
                assert(concatenated(out) =~= buf) by {
                    reveal_with_fuel(concatenated, 2);
                }
            }
            assert(concatenated(out) + kept =~= buf);
        },
        Framing::Line => {
            assert forall|i: int| 0 <= i < lines.len() implies one_line(#[trigger] lines[i]) && (
            lines[i]).len() > 0 by {}
            if last && partial.len() > 0 {
                assert(out.drop_last() =~= lines);
                assert(out.last() == partial);
                assert(concatenated(out) + kept =~= buf);
                assert forall|i: int|
                    0 <= i < out.len() && i < out.len() - 1 implies one_line(#[trigger] out[i]) by {
                    assert(out[i] == lines[i]);
                }
                assert forall|i: int| 0 <= i < out.len() implies (#[trigger] out[i]).len() > 0 by {
                    if i < lines.len() {
                        assert(out[i] == lines[i]);
                    }
                }
            } else {
                assert(out == lines);
            }
        },
    }
}

/// A sink that takes lines gets all of them up to the first that is not text,
/// and one that takes chunks gets every chunk.
pub proof fn emitting_stops_at_the_first_bad_line(mode: Framing, pieces: Seq<Seq<u8>>)
    ensures
        emittable(mode, pieces) <= pieces.len(),
        mode is Chunk ==> emittable(mode, pieces) == pieces.len(),
        mode is Line ==> forall|i: int|
            0 <= i < emittable(mode, pieces) ==> valid_utf8(#[trigger] pieces[i]),
        emittable(mode, pieces) < pieces.len() ==> !valid_utf8(
            pieces[emittable(mode, pieces) as int],
        ),
    decreases pieces.len(),
{
    if pieces.len() > 0 {
        let rest = pieces.drop_first();
        emitting_stops_at_the_first_bad_line(mode, rest);
        let n = emittable(mode, pieces);
        assert forall|i: int| mode is Line
            && 0 <= i < n implies valid_utf8(#[trigger] pieces[i]) by {
            if i > 0 {
                assert(rest[i - 1] == pieces[i]);
            }
        }
        if 0 < n < pieces.len() {
            assert(rest[n - 1] == pieces[n as int]);
        }
    }
}

/// Whether an argument gives these bytes.
pub open spec fn gives(arg: DataArg, bytes: Seq<u8>) -> bool {
    match arg {
        DataArg::Pos(Value::Str(s)) => bytes == encode_utf8(s@),
        DataArg::Pos(Value::Bin(b)) => bytes == b@,
        _ => false,
    }
}

/// A `write` of several arguments writes the bytes of each, in order, with
/// nothing between; it writes them whenever each gives some.
pub proof fn arguments_are_written_in_order(args: Seq<DataArg>, pieces: Seq<Seq<u8>>)
    requires
        args.len() == pieces.len(),
    ensures
        (forall|i: int| 0 <= i < args.len() ==> gives(args[i], #[trigger] pieces[i])) ==> written(
            args,
            args.len(),
        ) == Ok::<Seq<u8>, ErrorView>(concatenated(pieces)),
{
    if forall|i: int| 0 <= i < args.len() ==> gives(args[i], #[trigger] pieces[i]) {
        lemma_written(args, pieces, args.len());
        assert(pieces.take(args.len() as int) =~= pieces);
    }
}

proof fn lemma_written(args: Seq<DataArg>, pieces: Seq<Seq<u8>>, n: nat)
    requires
        args.len() == pieces.len(),
        n <= args.len(),
        forall|i: int| 0 <= i < args.len() ==> gives(args[i], #[trigger] pieces[i]),
    ensures
        written(args, n) == Ok::<Seq<u8>, ErrorView>(concatenated(pieces.take(n as int))),
    decreases n,
{
    if n > 0 {
        lemma_written(args, pieces, (n - 1) as nat);
        assert(pieces.take(n as int).drop_last() =~= pieces.take(n - 1));
        assert(gives(args[n - 1], pieces[n - 1]));
    }
}

/// A `write` is refused only for an argument that gives no bytes.
pub proof fn refused_writes_have_a_bad_argument(args: Seq<DataArg>, n: nat)
    requires
        n <= args.len(),
    ensures
        written(args, n) is Err <==> exists|i: int|
            0 <= i < n && match #[trigger] args[i] {
                DataArg::Pos(value) => !(value is Str) && !(value is Bin),
                DataArg::Key(_) => true,
            },
    decreases n,
{
    if n > 0 {
        refused_writes_have_a_bad_argument(args, (n - 1) as nat);
        let bad = match args[n - 1] {
            DataArg::Pos(value) => !(value is Str) && !(value is Bin),
            DataArg::Key(_) => true,
        };
        assert(written(args, n) is Err <==> written(args, (n - 1) as nat) is Err || bad);
    }
}

/// Exactly one line ending goes, of either kind, and only from the end.
pub proof fn one_line_ending_goes(s: Seq<char>)
    ensures
        ({
            let r = chomped(s);
            ||| s == r + seq!['\r', '\n']
            ||| s == r + seq!['\n'] && (r.len() > 0 ==> r.last() != '\r')
            ||| s == r && (s.len() > 0 ==> s.last() != '\n')
        }),
{
    let r = chomped(s);
    let n = s.len() as int;
    if n >= 2 && s[n - 2] == '\r' && s[n - 1] == '\n' {
        assert(s =~= r + seq!['\r', '\n']);
    } else if n >= 1 && s[n - 1] == '\n' {
        assert(s =~= r + seq!['\n']);
    }
}

/// Lines are asked for by `:LINE:` or by saying nothing, chunks by `:CHUNK:`.
pub proof fn framings_are_asked_for_by_name(mode: Option<Value>, framing: Framing)
    ensures
        mode_result(mode) == Ok::<Framing, ErrorView>(framing) <==> match framing {
            Framing::Line => mode is None || (mode matches Some(Value::Sym(s)) && s@ == "LINE"@),
            Framing::Chunk => mode matches Some(Value::Sym(s)) && s@ == "CHUNK"@,
        },
{
    reveal_strlit("LINE");
    reveal_strlit("CHUNK");
    assert("LINE"@.len() != "CHUNK"@.len());
}

} // verus!

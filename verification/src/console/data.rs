//! The bytes that values contribute to a console's stream.

use vstd::prelude::*;
use vstd::utf8::{encode_utf8, valid_utf8};
use crate::error::{viewed, Error, ErrorView};
use crate::text::str_eq;
use crate::value::Value;

verus! {

broadcast use vstd::string::group_string_axioms;

/// How a stream of bytes is cut into values. Neither way loses anything.
#[derive(Clone, Copy, Debug, PartialEq, Eq, Structural)]
pub enum Framing {
    /// One string per line, its terminator included.
    Line,
    /// Chunks of bytes, as they were written.
    Chunk,
}

/// The framing that an argument names: by lines unless it says otherwise.
pub open spec fn mode_result(mode: Option<Value>) -> Result<Framing, ErrorView> {
    match mode {
        None => Ok(Framing::Line),
        Some(Value::Sym(s)) if s@ == "LINE"@ => Ok(Framing::Line),
        Some(Value::Sym(s)) if s@ == "CHUNK"@ => Ok(Framing::Chunk),
        Some(_) => Err(ErrorView::Value("mode must be :LINE: or :CHUNK:"@)),
    }
}

/// The framing that an argument names.
pub fn parse_mode(mode: &Option<Value>) -> (r: Result<Framing, Error>)
    ensures
        crate::error::outcome(r) == mode_result(*mode),
{
    match mode {
        None => Ok(Framing::Line),
        Some(Value::Sym(s)) => if str_eq(s.as_str(), "LINE") {
            Ok(Framing::Line)
        } else if str_eq(s.as_str(), "CHUNK") {
            Ok(Framing::Chunk)
        } else {
            Err(Error::Value("mode must be :LINE: or :CHUNK:".to_owned()))
        },
        Some(_) => Err(Error::Value("mode must be :LINE: or :CHUNK:".to_owned())),
    }
}

/// The UTF-8 encoding of a string.
pub(crate) fn bytes_of(s: &str) -> (v: Vec<u8>)
    ensures
        v@ == encode_utf8(s@),
{
    s.as_bytes_vec()
}

/// What is wrong with bytes that are no valid encoding.
pub uninterp spec fn utf8_problem(bytes: Seq<u8>) -> Seq<char>;

/// `String::from_utf8` takes exactly the valid encodings, and gives back the
/// string that has this encoding. Of others its error says what is wrong with
/// them, in words that are left unsaid but for their name.
#[verifier::external_body]
pub(crate) fn decode_bytes(bytes: Vec<u8>) -> (r: Result<String, String>)
    ensures
        match r {
            Ok(s) => valid_utf8(bytes@) && encode_utf8(s@) == bytes@,
            Err(e) => !valid_utf8(bytes@) && e@ == utf8_problem(bytes@),
        },
{
    String::from_utf8(bytes).map_err(|e| e.utf8_error().to_string())
}

/// The bytes of a string or of binary data; anything else has none.
pub open spec fn data_of(data: Value) -> Result<Seq<u8>, ErrorView> {
    match data {
        Value::Str(s) => Ok(encode_utf8(s@)),
        Value::Bin(b) => Ok(b@),
        _ => Err(ErrorView::Type("expected `Str` or `Bin`"@)),
    }
}

/// A copy of some bytes.
pub(crate) fn copy_bytes(b: &Vec<u8>) -> (v: Vec<u8>)
    ensures
        v@ == b@,
{
    let mut v: Vec<u8> = Vec::new();
    let mut i: usize = 0;
    while i < b.len()
        invariant
            i <= b@.len(),
            v@ == b@.take(i as int),
        decreases b@.len() - i,
    {
        v.push(b[i]);
        i = i + 1;
        assert(b@.take(i as int) =~= b@.take(i - 1).push(b@[i - 1]));
    }
    assert(b@.take(i as int) =~= b@);
    v
}

/// Appends bytes.
pub(crate) fn append_bytes(out: &mut Vec<u8>, b: &Vec<u8>)
    ensures
        final(out)@ == old(out)@ + b@,
{
    let mut more = copy_bytes(b);
    out.append(&mut more);
}

/// The bytes of a string or of binary data.
pub fn data_bytes(data: &Value) -> (r: Result<Vec<u8>, Error>)
    ensures
        viewed(r) == data_of(*data),
{
    match data {
        Value::Str(s) => Ok(bytes_of(s.as_str())),
        Value::Bin(b) => Ok(copy_bytes(b)),
        _ => Err(Error::Type("expected `Str` or `Bin`".to_owned())),
    }
}

/// The bytes to write for a value: its own, or those of the string it
/// converts to.
pub fn encode_value(value: &Value, converted: Result<String, Error>) -> (r: Result<Vec<u8>, Error>)
    ensures
        viewed(r) == match *value {
            Value::Str(s) => Ok(encode_utf8(s@)),
            Value::Bin(b) => Ok(b@),
            _ => match converted {
                Ok(s) => Ok(encode_utf8(s@)),
                Err(e) => Err(e@),
            },
        },
{
    match value {
        Value::Str(s) => Ok(bytes_of(s.as_str())),
        Value::Bin(b) => Ok(copy_bytes(b)),
        _ => match converted {
            Ok(s) => Ok(bytes_of(s.as_str())),
            Err(e) => Err(e),
        },
    }
}

/// An argument of a `write`: data, or a keyword that it does not have.
pub enum DataArg {
    Pos(Value),
    Key(String),
}

/// The first `n` arguments of a `write` concatenated, or the first error.
pub open spec fn written(args: Seq<DataArg>, n: nat) -> Result<Seq<u8>, ErrorView>
    decreases n,
{
    if n == 0 {
        Ok(Seq::empty())
    } else {
        match written(args, (n - 1) as nat) {
            Err(e) => Err(e),
            Ok(before) => match args[n - 1] {
                DataArg::Key(key) => Err(ErrorView::UnexpectedKey(key@)),
                DataArg::Pos(value) => match data_of(value) {
                    Err(e) => Err(e),
                    Ok(bytes) => Ok(before + bytes),
                },
            },
        }
    }
}

proof fn lemma_written_error(args: Seq<DataArg>, n: nat, m: nat)
    requires
        n <= m,
        written(args, n) is Err,
    ensures
        written(args, m) == written(args, n),
    decreases m,
{
    if n < m {
        lemma_written_error(args, n, (m - 1) as nat);
    }
}

/// The arguments of a `write` concatenated.
pub fn write_data(args: &Vec<DataArg>) -> (r: Result<Vec<u8>, Error>)
    ensures
        viewed(r) == written(args@, args@.len()),
{
    let mut bytes: Vec<u8> = Vec::new();
    let mut i: usize = 0;
    while i < args.len()
        invariant
            i <= args@.len(),
            written(args@, i as nat) == Ok::<Seq<u8>, ErrorView>(bytes@),
        decreases args@.len() - i,
    {
        match &args[i] {
            DataArg::Key(key) => {
                proof {
                    lemma_written_error(args@, (i + 1) as nat, args@.len());
                }
                return Err(Error::UnexpectedKey(key.clone()));
            },
            DataArg::Pos(value) => {
                let mut more = match data_bytes(value) {
                    Ok(more) => more,
                    Err(e) => {
                        proof {
                            lemma_written_error(args@, (i + 1) as nat, args@.len());
                        }
                        return Err(e);
                    },
                };
                bytes.append(&mut more);
            },
        }
        i = i + 1;
    }
    Ok(bytes)
}

/// `s` without one line ending, if it has one at its end.
pub open spec fn chomped(s: Seq<char>) -> Seq<char> {
    let n = s.len() as int;
    if n >= 2 && s[n - 2] == '\r' && s[n - 1] == '\n' {
        s.take(n - 2)
    } else if n >= 1 && s[n - 1] == '\n' {
        s.take(n - 1)
    } else {
        s
    }
}

/// `value` without one line ending, if it has one at its end.
pub fn strip_line_ending(value: &str) -> (r: &str)
    ensures
        r@ == chomped(value@),
{
    let n = value.unicode_len();
    if n >= 1 && value.get_char(n - 1) == '\n' {
        if n >= 2 && value.get_char(n - 2) == '\r' {
            assert(value@.subrange(0, n - 2) =~= value@.take(n - 2));
            return value.substring_char(0, n - 2);
        }
        assert(value@.subrange(0, n - 1) =~= value@.take(n - 1));
        return value.substring_char(0, n - 1);
    }
    value
}

/// Only one line ending goes: adding one back in front of which there is no
/// carriage return gives the text again.
pub proof fn chomp_undoes_newline(s: Seq<char>)
    requires
        s.len() == 0 || s.last() != '\r',
    ensures
        chomped(s.push('\n')) == s,
{
    assert(s.push('\n').take(s.len() as int) =~= s);
}

/// A carriage return and a newline go together.
pub proof fn chomp_undoes_crlf(s: Seq<char>)
    ensures
        chomped(s.push('\r').push('\n')) == s,
{
    assert(s.push('\r').push('\n').take(s.len() as int) =~= s);
}

} // verus!

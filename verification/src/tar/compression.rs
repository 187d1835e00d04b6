//! Which compression an archive has.

use vstd::prelude::*;
use crate::error::{outcome, Error, ErrorView};
use crate::text::str_eq;
use crate::value::Value;

verus! {

broadcast use vstd::string::group_string_axioms;

#[derive(Clone, Copy, Debug, PartialEq, Eq, Structural)]
pub enum Compression {
    Uncompressed,
    Gzip,
    Zstd,
}

/// How many bytes tell compressions apart.
pub const MAGIC_LEN: usize = 4;

/// The bytes that a gzip stream starts with.
pub open spec fn gzip_magic() -> Seq<u8> {
    seq![0x1f, 0x8b]
}

/// The bytes that a zstd stream starts with.
pub open spec fn zstd_magic() -> Seq<u8> {
    seq![0x28, 0xb5, 0x2f, 0xfd]
}

/// The compression of a stream that starts with `magic`.
pub open spec fn magic_compression(magic: Seq<u8>) -> Compression {
    if gzip_magic().is_prefix_of(magic) {
        Compression::Gzip
    } else if zstd_magic().is_prefix_of(magic) {
        Compression::Zstd
    } else {
        Compression::Uncompressed
    }
}

/// The compression of a stream that starts with `magic`.
pub fn detect_compression(magic: &Vec<u8>) -> (r: Compression)
    ensures
        r == magic_compression(magic@),
{
    proof {
        if magic@.len() >= 2 {
            assert(magic@.subrange(0, 2) =~= seq![magic@[0], magic@[1]]);
            if gzip_magic().is_prefix_of(magic@) {
                assert(gzip_magic()[0] == magic@[0] && gzip_magic()[1] == magic@[1]);
            }
        }
        if magic@.len() >= 4 {
            assert(magic@.subrange(0, 4) =~= seq![magic@[0], magic@[1], magic@[2], magic@[3]]);
            if zstd_magic().is_prefix_of(magic@) {
                assert(zstd_magic()[0] == magic@[0] && zstd_magic()[1] == magic@[1]
                    && zstd_magic()[2] == magic@[2] && zstd_magic()[3] == magic@[3]);
            }
        }
    }
    if magic.len() >= 2 && magic[0] == 0x1f && magic[1] == 0x8b {
        return Compression::Gzip;
    }
    if magic.len() >= 4 && magic[0] == 0x28 && magic[1] == 0xb5 && magic[2] == 0x2f && magic[3]
        == 0xfd {
        return Compression::Zstd;
    }
    Compression::Uncompressed
}

/// A letter in lower case, if it is an ASCII letter.
pub open spec fn lower(c: char) -> char {
    if 'A' <= c <= 'Z' {
        (c as u32 + 32) as char
    } else {
        c
    }
}

/// Whether two strings differ at most in the case of ASCII letters.
pub open spec fn same_letters(a: Seq<char>, b: Seq<char>) -> bool {
    a.len() == b.len() && forall|i: int| 0 <= i < a.len() ==> lower(#[trigger] a[i]) == lower(b[i])
}

/// A letter's number in lower case, if it is an ASCII letter.
fn lower_code(c: char) -> (n: u32)
    ensures
        n == lower(c) as u32,
{
    if 'A' <= c && c <= 'Z' {
        c as u32 + 32
    } else {
        c as u32
    }
}

/// Whether two strings differ at most in the case of ASCII letters.
pub fn eq_ignore_ascii_case(a: &str, b: &str) -> (r: bool)
    ensures
        r == same_letters(a@, b@),
{
    let x = crate::text::chars_of(a);
    let y = crate::text::chars_of(b);
    if x.len() != y.len() {
        return false;
    }
    let mut i: usize = 0;
    while i < x.len()
        invariant
            i <= x@.len(),
            x@ == a@,
            y@ == b@,
            x@.len() == y@.len(),
            forall|j: int| 0 <= j < i ==> lower(#[trigger] x@[j]) == lower(y@[j]),
        decreases x@.len() - i,
    {
        if lower_code(x[i]) != lower_code(y[i]) {
            return false;
        }
        i = i + 1;
    }
    true
}

/// The compression that a file name's extension calls for.
pub open spec fn extension_compression(extension: Option<Seq<char>>) -> Compression {
    match extension {
        Some(e) => if same_letters(e, "gz"@) || same_letters(e, "tgz"@) {
            Compression::Gzip
        } else if same_letters(e, "zst"@) || same_letters(e, "tzst"@) {
            Compression::Zstd
        } else {
            Compression::Uncompressed
        },
        None => Compression::Uncompressed,
    }
}

/// The compression to write with: as the argument says, or else as the
/// extension calls for.
pub open spec fn compression_result(value: Option<Value>, extension: Option<Seq<char>>) -> Result<
    Compression,
    ErrorView,
> {
    match value {
        None => Ok(extension_compression(extension)),
        Some(Value::Sym(s)) if s@ == "NONE"@ => Ok(Compression::Uncompressed),
        Some(Value::Sym(s)) if s@ == "GZIP"@ => Ok(Compression::Gzip),
        Some(Value::Sym(s)) if s@ == "ZSTD"@ => Ok(Compression::Zstd),
        Some(_) => Err(ErrorView::Value("compression must be :NONE:, :GZIP:, or :ZSTD:"@)),
    }
}

/// The compression to write with.
pub fn parse_compression(value: &Option<Value>, extension: &Option<String>) -> (r: Result<
    Compression,
    Error,
>)
    ensures
        outcome(r) == compression_result(
            *value,
            match *extension {
                Some(e) => Some(e@),
                None => None,
            },
        ),
{
    match value {
        None => match extension {
            Some(e) => {
                let e = e.as_str();
                if eq_ignore_ascii_case(e, "gz") || eq_ignore_ascii_case(e, "tgz") {
                    Ok(Compression::Gzip)
                } else if eq_ignore_ascii_case(e, "zst") || eq_ignore_ascii_case(e, "tzst") {
                    Ok(Compression::Zstd)
                } else {
                    Ok(Compression::Uncompressed)
                }
            },
            None => Ok(Compression::Uncompressed),
        },
        Some(Value::Sym(s)) => {
            let name = s.as_str();
            if str_eq(name, "NONE") {
                Ok(Compression::Uncompressed)
            } else if str_eq(name, "GZIP") {
                Ok(Compression::Gzip)
            } else if str_eq(name, "ZSTD") {
                Ok(Compression::Zstd)
            } else {
                Err(Error::Value("compression must be :NONE:, :GZIP:, or :ZSTD:".to_owned()))
            }
        },
        Some(_) => Err(
            Error::Value("compression must be :NONE:, :GZIP:, or :ZSTD:".to_owned()),
        ),
    }
}

/// The symbol that programs know a compression by.
pub open spec fn compression_symbol(compression: Compression) -> Seq<char> {
    match compression {
        Compression::Uncompressed => "NONE"@,
        Compression::Gzip => "GZIP"@,
        Compression::Zstd => "ZSTD"@,
    }
}

/// The symbol that programs know a compression by.
pub fn compression_sym(compression: Compression) -> (s: &'static str)
    ensures
        s@ == compression_symbol(compression),
{
    match compression {
        Compression::Uncompressed => "NONE",
        Compression::Gzip => "GZIP",
        Compression::Zstd => "ZSTD",
    }
}

/// The symbol of a compression selects that compression.
pub proof fn compression_symbols_round_trip(
    compression: Compression,
    name: String,
    extension: Option<Seq<char>>,
)
    requires
        name@ == compression_symbol(compression),
    ensures
        compression_result(Some(Value::Sym(name)), extension) == Ok::<Compression, ErrorView>(
            compression,
        ),
{
    reveal_strlit("NONE");
    reveal_strlit("GZIP");
    reveal_strlit("ZSTD");
    assert("NONE"@[0] == 'N' && "GZIP"@[0] == 'G' && "ZSTD"@[0] == 'Z');
}

} // verus!

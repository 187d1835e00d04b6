//! What archives keep of the entries that are written to them, in terms of the
//! arguments that programs give.

use vstd::prelude::*;
use vstd::utf8::encode_utf8;
use crate::error::ErrorView;
use crate::tar::archive::{begun, ended, entry_outcome, started, StartedEntry, WriterView};
use crate::tar::compression::{
    compression_result, compression_symbol, gzip_magic, lower, magic_compression, same_letters,
    zstd_magic, Compression,
};
use crate::tar::entry::{
    holds_devices, holds_names, holds_numbers, symbol_type, type_symbol, type_symbols_round_trip,
    EntryArgs, EntrySpec, PathArg, TimeArg,
};
use crate::tar::header::{
    byte_type, bytes_value, digits_round_trip, field_at, is_octal_field, long_field_round_trips,
    octal_value, short_field_round_trips, tidy, type_byte, up_to_nul, EntryType,
};
use crate::value::Value;

verus! {

broadcast use vstd::string::group_string_axioms;

/// Whether a field of twelve bytes tells a number: in octal digits, or in the
/// bytes at its end if it is marked so.
pub open spec fn tells_long(header: Seq<u8>, at: int, n: int) -> bool {
    let f = field_at(header, at, 12);
    is_octal_field(f) && octal_value(f.take(11)) == n || f[0] >= 128 && bytes_value(f.skip(4)) == n
}

/// Whether a field of eight bytes tells a number: in octal digits, or in all
/// its bits but the mark.
pub open spec fn tells_short(header: Seq<u8>, at: int, n: int) -> bool {
    let f = field_at(header, at, 8);
    is_octal_field(f) && octal_value(f.take(7)) == n || f[0] >= 128 && bytes_value(
        f.update(0, (f[0] - 128) as u8),
    ) == n
}

/// Whether a field of eight bytes tells a number in octal digits.
pub open spec fn tells_digits(header: Seq<u8>, at: int, n: int) -> bool {
    let f = field_at(header, at, 8);
    is_octal_field(f) && octal_value(f.take(7)) == n
}

/// The number that is given, or else `default`.
pub open spec fn given_number(value: Option<Value>, default: int) -> int {
    match value {
        Some(Value::Int(n)) => n as int,
        _ => default,
    }
}

/// Whether an entry was begun with these arguments.
pub open spec fn begun_with(args: EntryArgs, entry: StartedEntry, generation: u64) -> bool {
    exists|spec: EntrySpec| #[trigger]
        args.says(spec) && started(Ok(entry), generation, spec)
}

/// The header of an entry tells what was given for it: the size, the mode, the
/// owner's numbers, and the whole seconds of the modification time. Without
/// arguments it tells the defaults.
pub proof fn headers_tell_the_numbers_given(args: EntryArgs, entry: StartedEntry, generation: u64)
    requires
        begun_with(args, entry, generation),
    ensures
        tells_long(entry.header@, 124, given_number(args.size, -1)),
        entry.writer@.size == given_number(args.size, -1),
        entry.writer@.written == 0,
        given_number(args.mode, 0o644) < 2_097_152 ==> tells_digits(
            entry.header@,
            100,
            given_number(args.mode, 0o644),
        ),
        given_number(args.uid, 0) < 0x8000_0000_0000_0000 ==> tells_short(
            entry.header@,
            108,
            given_number(args.uid, 0),
        ),
        given_number(args.gid, 0) < 0x8000_0000_0000_0000 ==> tells_short(
            entry.header@,
            116,
            given_number(args.gid, 0),
        ),
        args.mtime matches Some(TimeArg::DateTime(time)) ==> !time.before_epoch && tells_long(
            entry.header@,
            136,
            time.secs as int,
        ),
        args.mtime is None ==> tells_long(entry.header@, 136, 0),
        args.device_major matches Some(Value::Int(n)) ==> (n < 2_097_152 ==> tells_digits(
            entry.header@,
            329,
            n as int,
        )),
        args.device_minor matches Some(Value::Int(n)) ==> (n < 2_097_152 ==> tells_digits(
            entry.header@,
            337,
            n as int,
        )),
{
    let spec = choose|spec: EntrySpec| #[trigger]
        args.says(spec) && started(Ok(entry), generation, spec);
    let h = entry.header@;
    assert(holds_numbers(h, spec));
    assert(holds_devices(h, spec));
    long_field_round_trips(spec.size);
    long_field_round_trips(spec.mtime);
    short_field_round_trips(spec.uid);
    short_field_round_trips(spec.gid);
    digits_round_trip(spec.mode);
    if let Some(n) = spec.device_major {
        digits_round_trip(n);
    }
    if let Some(n) = spec.device_minor {
        digits_round_trip(n);
    }
}

/// Whether a path argument is this text.
pub open spec fn path_is(path: PathArg, text: Seq<char>) -> bool {
    match path {
        PathArg::UnixPath(s) => s@ == text,
        PathArg::Str(s) => s@ == text,
        PathArg::Other => false,
    }
}

/// An entry goes to the path that is given, its header names the owner that is
/// given and, if it is tidy, where it links to; and its type is the one whose
/// symbol is given, a regular file by default.
pub proof fn headers_tell_the_names_given(
    args: EntryArgs,
    entry: StartedEntry,
    generation: u64,
    link: Seq<char>,
)
    requires
        begun_with(args, entry, generation),
    ensures
        path_is(args.path, entry.path@),
        args.user_name matches Some(Value::Str(s)) ==> up_to_nul(field_at(entry.header@, 265, 32))
            == encode_utf8(s@),
        args.group_name matches Some(Value::Str(s)) ==> up_to_nul(field_at(entry.header@, 297, 32))
            == encode_utf8(s@),
        args.link_name matches Some(path) ==> (path_is(path, link) && tidy(link) ==> up_to_nul(
            field_at(entry.header@, 157, 100),
        ) == encode_utf8(link)),
        args.ty matches Some(Value::Sym(s)) ==> type_symbol(byte_type(entry.header@[156])) == s@,
        args.ty is None ==> byte_type(entry.header@[156]) is Regular,
        ({
            let byte = entry.header@[156];
            &&& args.ty is None ==> byte == 48
            &&& args.ty matches Some(Value::Sym(s)) ==> {
                &&& s@ == "FILE"@ <==> byte == 48
                &&& s@ == "HARDLINK"@ <==> byte == 49
                &&& s@ == "SYMLINK"@ <==> byte == 50
                &&& s@ == "CHAR_DEVICE"@ <==> byte == 51
                &&& s@ == "BLOCK_DEVICE"@ <==> byte == 52
                &&& s@ == "DIR"@ <==> byte == 53
                &&& s@ == "FIFO"@ <==> byte == 54
                &&& s@ == "CONTIGUOUS"@ <==> byte == 55
            }
        }),
{
    type_symbols_round_trip(EntryType::Regular);
    type_symbols_round_trip(EntryType::Link);
    type_symbols_round_trip(EntryType::Symlink);
    type_symbols_round_trip(EntryType::Char);
    type_symbols_round_trip(EntryType::Block);
    type_symbols_round_trip(EntryType::Directory);
    type_symbols_round_trip(EntryType::Fifo);
    type_symbols_round_trip(EntryType::Continuous);
    let spec = choose|spec: EntrySpec| #[trigger]
        args.says(spec) && started(Ok(entry), generation, spec);
    let h = entry.header@;
    assert(holds_names(h, spec));
    assert(holds_numbers(h, spec));
    assert(byte_type(type_byte(spec.ty)) == spec.ty);
}

/// Whether an optional argument is missing or a number from zero up to `max`.
pub open spec fn number_or_none(value: Option<Value>, max: int) -> bool {
    match value {
        None => true,
        Some(Value::Int(n)) => 0 <= n <= max,
        Some(_) => false,
    }
}

/// Whether an optional argument is missing or a string.
pub open spec fn string_or_none(value: Option<Value>) -> bool {
    match value {
        None => true,
        Some(Value::Str(_)) => true,
        Some(_) => false,
    }
}

/// Arguments are accepted exactly where each of them is of its kind and in its
/// range, the size is given, and so is what the type needs: where a link leads,
/// and the numbers of a device.
pub proof fn good_arguments_are_accepted(args: EntryArgs)
    ensures
        args.problem() is None <==> {
            &&& !(args.path is Other)
            &&& args.size is Some
            &&& number_or_none(args.size, u64::MAX as int)
            &&& args.ty matches Some(ty) ==> (ty matches Value::Sym(s) && exists|ty: EntryType|
                ty != EntryType::Other && #[trigger] type_symbol(ty) == s@)
            &&& number_or_none(args.mode, u32::MAX as int)
            &&& number_or_none(args.uid, u64::MAX as int)
            &&& number_or_none(args.gid, u64::MAX as int)
            &&& args.mtime matches Some(time) ==> (time matches TimeArg::DateTime(t)
                && !t.before_epoch)
            &&& string_or_none(args.user_name)
            &&& string_or_none(args.group_name)
            &&& args.link_name matches Some(path) ==> !(path is Other)
            &&& number_or_none(args.device_major, u32::MAX as int)
            &&& number_or_none(args.device_minor, u32::MAX as int)
            &&& args.ty matches Some(Value::Sym(s)) ==> {
                &&& s@ == "HARDLINK"@ || s@ == "SYMLINK"@ ==> args.link_name is Some
                &&& s@ == "CHAR_DEVICE"@ || s@ == "BLOCK_DEVICE"@ ==> args.device_major is Some
                    && args.device_minor is Some
            }
        },
{
    type_symbols_round_trip(EntryType::Link);
    type_symbols_round_trip(EntryType::Symlink);
    type_symbols_round_trip(EntryType::Char);
    type_symbols_round_trip(EntryType::Block);
    if let Some(Value::Sym(s)) = args.ty {
        if let Some(ty) = symbol_type(s@) {
            assert(type_symbol(ty) == s@);
        }
        if exists|ty: EntryType| ty != EntryType::Other && #[trigger] type_symbol(ty) == s@ {
            let ty = choose|ty: EntryType| ty != EntryType::Other && #[trigger] type_symbol(ty) == s@;
            type_symbols_round_trip(ty);
        }
    }
}

/// An entry that was appended with exactly the bytes it declared leaves the
/// archive as it was before, ready for the next entry; every other entry makes
/// it fail for good. An entry that fails is reported: the block's error first.
pub proof fn entries_have_to_be_complete(
    w: WriterView,
    block: Result<(), ErrorView>,
    append: Result<(), ErrorView>,
    written: u64,
    size: u64,
)
    requires
        begun(w).1 is Ok,
    ensures
        ({
            let after = ended(begun(w).0, append is Ok, written, size);
            let r = entry_outcome(block, append, written, size);
            &&& !after.active
            &&& append is Ok && written == size ==> after.open && !after.poisoned && begun(after).1
                is Ok
            &&& !(append is Ok && written == size) ==> begun(after).1 is Err && ended(
                after,
                true,
                0,
                0,
            ).poisoned
            &&& r is Ok <==> block is Ok && append is Ok && written == size
            &&& block is Err ==> r == block
            &&& block is Ok && append is Err ==> r == append
        }),
{
}

/// Every entry gets a number of its own, as long as the numbers last.
pub proof fn entries_get_new_numbers(w: WriterView)
    requires
        begun(w).1 is Ok,
    ensures
        begun(w).1->Ok_0 != w.generation,
        begun(w).0.generation == begun(w).1->Ok_0,
        w.generation < u64::MAX ==> begun(w).1->Ok_0 == w.generation + 1,
{
}

/// A stream is taken for gzip or zstd by its first bytes, and for nothing
/// compressed otherwise.
pub proof fn streams_are_told_by_their_first_bytes(magic: Seq<u8>)
    ensures
        magic_compression(magic) is Gzip <==> magic.len() >= 2 && magic[0] == 0x1f && magic[1]
            == 0x8b,
        magic_compression(magic) is Zstd <==> magic.len() >= 4 && magic[0] == 0x28 && magic[1]
            == 0xb5 && magic[2] == 0x2f && magic[3] == 0xfd,
{
    if magic.len() >= 2 {
        assert(magic.subrange(0, 2) =~= seq![magic[0], magic[1]]);
        if gzip_magic().is_prefix_of(magic) {
            assert(gzip_magic()[0] == magic[0] && gzip_magic()[1] == magic[1]);
        }
    }
    if magic.len() >= 4 {
        assert(magic.subrange(0, 4) =~= seq![magic[0], magic[1], magic[2], magic[3]]);
        if zstd_magic().is_prefix_of(magic) {
            assert(zstd_magic()[0] == magic[0] && zstd_magic()[1] == magic[1] && zstd_magic()[2]
                == magic[2] && zstd_magic()[3] == magic[3]);
        }
    }
}

/// Whether two characters are the same letter, in whatever case.
pub open spec fn same_letter(a: char, b: char) -> bool {
    ||| a == b
    ||| 'A' <= a <= 'Z' && a as u32 + 32 == b as u32
    ||| 'A' <= b <= 'Z' && b as u32 + 32 == a as u32
}

/// Strings are the same but for case where each of their characters is.
pub proof fn case_does_not_matter(a: Seq<char>, b: Seq<char>)
    ensures
        same_letters(a, b) <==> a.len() == b.len() && forall|i: int|
            0 <= i < a.len() ==> same_letter(#[trigger] a[i], b[i]),
{
    if same_letters(a, b) {
        assert forall|i: int| 0 <= i < a.len() implies same_letter(#[trigger] a[i], b[i]) by {
            lemma_letter(a[i], b[i]);
        }
    }
    if a.len() == b.len() && forall|i: int| 0 <= i < a.len() ==> same_letter(#[trigger] a[i], b[i]) {
        assert forall|i: int| 0 <= i < a.len() implies lower(#[trigger] a[i]) == lower(b[i]) by {
            lemma_letter(a[i], b[i]);
        }
    }
}

proof fn lemma_letter(a: char, b: char)
    ensures
        lower(a) == lower(b) <==> same_letter(a, b),
{
    lemma_lower(a);
    lemma_lower(b);
}

proof fn lemma_lower(c: char)
    ensures
        lower(c) as u32 == if 'A' <= c <= 'Z' {
            (c as u32 + 32) as u32
        } else {
            c as u32
        },
{
}

/// Without an argument the extension selects the compression: `gz` and `tgz`
/// gzip, `zst` and `tzst` zstd, and any other none. An argument is a symbol
/// that selects one whatever the extension is.
pub proof fn extensions_select_the_compression(
    extension: Option<Seq<char>>,
    other: Option<Seq<char>>,
    value: Value,
)
    ensures
        compression_result(None, extension) is Ok,
        compression_result(None, extension)->Ok_0 is Gzip <==> (extension matches Some(e) && (
        same_letters(e, "gz"@) || same_letters(e, "tgz"@))),
        compression_result(None, extension)->Ok_0 is Zstd <==> (extension matches Some(e) && (
        same_letters(e, "zst"@) || same_letters(e, "tzst"@))),
        compression_result(Some(value), extension) == compression_result(Some(value), other),
        compression_result(Some(value), extension) matches Ok(c) ==> (value matches Value::Sym(s)
            && s@ == compression_symbol(c)),
{
    reveal_strlit("gz");
    reveal_strlit("tgz");
    reveal_strlit("zst");
    reveal_strlit("tzst");
    reveal_strlit("NONE");
    reveal_strlit("GZIP");
    reveal_strlit("ZSTD");
    assert("NONE"@[0] == 'N' && "GZIP"@[0] == 'G' && "ZSTD"@[0] == 'Z');
    if let Some(e) = extension {
        if same_letters(e, "tgz"@) && same_letters(e, "zst"@) {
            assert(lower(e[0]) == lower("tgz"@[0]));
            assert(lower(e[0]) == lower("zst"@[0]));
            assert("tgz"@[0] == 't' && "zst"@[0] == 'z');
        }
        assert("gz"@.len() == 2 && "tgz"@.len() == 3 && "zst"@.len() == 3 && "tzst"@.len() == 4);
    }
}

/// A compression is asked for by its name and told by the same name.
pub proof fn compressions_are_called_by_name(
    name: String,
    extension: Option<Seq<char>>,
    c: Compression,
)
    ensures
        compression_result(Some(Value::Sym(name)), extension) == Ok::<Compression, ErrorView>(c)
            <==> match c {
            Compression::Uncompressed => name@ == "NONE"@,
            Compression::Gzip => name@ == "GZIP"@,
            Compression::Zstd => name@ == "ZSTD"@,
        },
        compression_symbol(c) == "NONE"@ <==> c is Uncompressed,
        compression_symbol(c) == "GZIP"@ <==> c is Gzip,
        compression_symbol(c) == "ZSTD"@ <==> c is Zstd,
{
    reveal_strlit("NONE");
    reveal_strlit("GZIP");
    reveal_strlit("ZSTD");
    assert("NONE"@[0] == 'N' && "GZIP"@[0] == 'G' && "ZSTD"@[0] == 'Z');
}

} // verus!

//! Archives being read and written: which entry is current, and what may
//! still be done with it.

use vstd::prelude::*;
use vstd::utf8::{encode_utf8, valid_utf8};
use crate::console::data::{bytes_of, copy_bytes, decode_bytes, utf8_problem};
use crate::error::{outcome, viewed, Error, ErrorView};
use crate::shell::paths::{as_path, path_text, PathArg};
use crate::shell::time::SystemTime;
use crate::tar::compression::Compression;
use crate::tar::entry::{
    build_header, entry_header, entry_type_sym, holds_devices, holds_names, holds_numbers,
    nonnegative_u64, type_symbol, u64_result, EntryArgs, EntrySpec,
};
use crate::tar::header;
use crate::tar::header::{
    byte_type, device_major_of_header, device_minor_of_header, digits_round_trip, field_at,
    gid_of_header, is_gnu, long_field_round_trips, mode_of_header, mtime_of_header, name_at,
    octal_field, optional_bytes, short_field_round_trips, size_of_header, uid_of_header,
};
use crate::text::push_decimal;
use crate::value::Value;

verus! {

broadcast use vstd::string::group_string_axioms;

/// How much of an entry is read at a time.
pub const CHUNK_SIZE: usize = 8192;

/// The path of an archive that an argument gives.
pub fn archive_path(path: &PathArg) -> (r: Result<String, Error>)
    ensures
        viewed(r) == match path_text(*path) {
            Some(s) => Ok(s),
            None => Err(ErrorView::Type("path must be a str or Path"@)),
        },
{
    match as_path(path) {
        Some(s) => Ok(s),
        None => Err(Error::Type("path must be a str or Path".to_owned())),
    }
}

/// An archive being read. The generation tells apart the entries that were
/// current one after the other.
#[derive(Debug)]
pub struct TarReader {
    has_current: bool,
    generation: u64,
    compression: Compression,
    closed: bool,
}

/// A handle on one entry of an archive being read.
#[derive(Clone, Copy, Debug, PartialEq, Eq, Structural)]
pub struct TarEntry {
    generation: u64,
}

impl TarEntry {
    pub closed spec fn number(self) -> u64 {
        self.generation
    }
}

/// The generation after `n` more steps.
pub open spec fn later(generation: u64, n: nat) -> u64 {
    ((generation + n) % 0x1_0000_0000_0000_0000) as u64
}

impl TarReader {
    pub closed spec fn number(self) -> u64 {
        self.generation
    }

    pub closed spec fn is_closed(self) -> bool {
        self.closed
    }

    /// Whether an entry is current.
    pub closed spec fn positioned(self) -> bool {
        self.has_current
    }

    pub closed spec fn packing(self) -> Compression {
        self.compression
    }

    /// Whether the entry can still be read.
    pub open spec fn is_current(self, entry: TarEntry) -> bool {
        self.number() == entry.number()
    }

    /// An archive before its first entry.
    pub fn new(compression: Compression) -> (reader: TarReader)
        ensures
            reader.number() == 0,
            !reader.is_closed(),
            !reader.positioned(),
            reader.packing() == compression,
    {
        TarReader { has_current: false, generation: 0, compression, closed: false }
    }

    pub fn compression(&self) -> (r: Compression)
        ensures
            r == self.packing(),
    {
        self.compression
    }

    /// Leaves the current entry, before the next one is looked for.
    pub fn advance(&mut self) -> (r: Result<(), Error>)
        ensures
            old(self).is_closed() ==> r is Err && r->Err_0@ == ErrorView::State(
                "tar reader is closed"@,
            ) && *final(self) == *old(self),
            !old(self).is_closed() ==> {
                &&& r is Ok
                &&& !final(self).positioned()
                &&& !final(self).is_closed()
                &&& final(self).number() == later(old(self).number(), 1)
                &&& final(self).packing() == old(self).packing()
            },
    {
        if self.closed {
            return Err(Error::State("tar reader is closed".to_owned()));
        }
        self.has_current = false;
        self.generation = self.generation.wrapping_add(1);
        Ok(())
    }

    /// Makes the entry that was found the current one, if there was one.
    pub fn arrive(&mut self, found: bool) -> (r: Option<TarEntry>)
        requires
            !old(self).positioned(),
        ensures
            final(self).positioned() == found,
            final(self).number() == old(self).number(),
            final(self).is_closed() == old(self).is_closed(),
            final(self).packing() == old(self).packing(),
            found ==> r is Some && final(self).is_current(r->0),
            !found ==> r is None,
    {
        self.has_current = found;
        if found {
            Some(TarEntry { generation: self.generation })
        } else {
            None
        }
    }

    /// Ends the reading: no entry can be read any more.
    pub fn close(&mut self)
        ensures
            final(self).is_closed(),
            !final(self).positioned(),
            final(self).number() == later(old(self).number(), 1),
            final(self).packing() == old(self).packing(),
    {
        self.has_current = false;
        self.closed = true;
        self.generation = self.generation.wrapping_add(1);
    }

    /// Checks that the entry is the current one.
    pub fn active_entry(&self, entry: &TarEntry) -> (r: Result<(), Error>)
        ensures
            outcome(r) == if self.is_current(*entry) {
                Ok(())
            } else {
                Err(ErrorView::State("tar entry is no longer active"@))
            },
    {
        if self.generation != entry.generation {
            return Err(Error::State("tar entry is no longer active".to_owned()));
        }
        Ok(())
    }
}

/// An entry that was left stays left: no number of steps short of a full turn
/// of the generations makes it current again.
pub proof fn left_entries_stay_left(generation: u64, n: nat)
    requires
        0 < n < 0x1_0000_0000_0000_0000,
    ensures
        later(generation, n) != generation,
{
    let m: int = 0x1_0000_0000_0000_0000;
    if generation + n < m {
        assert((generation + n) % m == generation + n);
    } else {
        assert((generation + n) % m == generation + n - m);
    }
}

/// Steps add up.
pub proof fn steps_add_up(generation: u64, n: nat)
    ensures
        later(later(generation, n), 1) == later(generation, n + 1),
        later(generation, 0) == generation,
{
    let m: int = 0x1_0000_0000_0000_0000;
    vstd::arithmetic::div_mod::lemma_add_mod_noop_right(1, generation + n, m);
    assert(later(generation, n) == (generation + n) % m);
    assert((1 + (generation + n) % m) % m == (1 + (generation + n)) % m);
}

/// Whether a header's error becomes the error that is reported.
pub open spec fn reported<T>(r: Result<T, Seq<char>>) -> Result<T, ErrorView> {
    match r {
        Ok(v) => Ok(v),
        Err(e) => Err(ErrorView::Runtime(e)),
    }
}

/// The outcome of asking the current entry for something.
pub open spec fn asked<T>(reader: TarReader, entry: TarEntry, r: Result<T, Seq<char>>) -> Result<
    T,
    ErrorView,
> {
    if reader.is_current(entry) {
        reported(r)
    } else {
        Err(ErrorView::State("tar entry is no longer active"@))
    }
}

/// A header's error as the error that is reported.
fn report<T>(r: Result<T, String>) -> (s: Result<T, Error>)
    ensures
        outcome(s) == reported(header::value_or_message(r)),
{
    match r {
        Ok(v) => Ok(v),
        Err(e) => Err(Error::Runtime(e)),
    }
}

/// The symbol of the current entry's type.
pub fn entry_type(reader: &TarReader, entry: &TarEntry, header: &Vec<u8>) -> (r: Result<
    &'static str,
    Error,
>)
    requires
        header@.len() == 512,
    ensures
        reader.is_current(*entry) ==> r is Ok && r->Ok_0@ == type_symbol(byte_type(header@[156])),
        !reader.is_current(*entry) ==> r is Err && r->Err_0@ == ErrorView::State(
            "tar entry is no longer active"@,
        ),
{
    match reader.active_entry(entry) {
        Ok(()) => Ok(entry_type_sym(header::entry_type(header))),
        Err(e) => Err(e),
    }
}

/// The current entry's size. What a header was built with is read back.
pub fn entry_size(reader: &TarReader, entry: &TarEntry, header: &Vec<u8>) -> (r: Result<u64, Error>)
    requires
        header@.len() == 512,
    ensures
        outcome(r) == asked(*reader, *entry, size_of_header(header@)),
        forall|spec: EntrySpec|
            reader.is_current(*entry) && #[trigger] holds_numbers(header@, spec) ==> r == Ok::<
                u64,
                Error,
            >(spec.size),
{
    match reader.active_entry(entry) {
        Ok(()) => {
            let r = header::size(header);
            proof {
                assert forall|spec: EntrySpec| #[trigger] holds_numbers(header@, spec) implies r == Ok::<
                    u64,
                    String,
                >(spec.size) by {
                    long_field_round_trips(spec.size);
                    let f = field_at(header@, 124, 12);
                    assert(f.take(11) =~= field_at(header@, 124, 11));
                    assert(f.skip(4) =~= field_at(header@, 128, 8));
                    assert(f[0] == header@[124]);
                }
            }
            report(r)
        },
        Err(e) => Err(e),
    }
}

/// The current entry's mode bits. What a header was built with is read back,
/// as far as seven octal digits hold it.
pub fn entry_mode(reader: &TarReader, entry: &TarEntry, header: &Vec<u8>) -> (r: Result<u32, Error>)
    requires
        header@.len() == 512,
    ensures
        outcome(r) == asked(*reader, *entry, mode_of_header(header@)),
        forall|spec: EntrySpec|
            reader.is_current(*entry) && #[trigger] holds_numbers(header@, spec) && spec.mode
                < 2_097_152 ==> r == Ok::<u32, Error>(spec.mode),
{
    match reader.active_entry(entry) {
        Ok(()) => {
            let r = header::mode(header);
            proof {
                assert forall|spec: EntrySpec|
                    #[trigger] holds_numbers(header@, spec) && spec.mode < 2_097_152 implies r == Ok::<
                    u32,
                    String,
                >(spec.mode) by {
                    digits_round_trip(spec.mode);
                    let f = field_at(header@, 100, 8);
                    assert(f.take(7) =~= field_at(header@, 100, 7));
                }
            }
            report(r)
        },
        Err(e) => Err(e),
    }
}

/// The current entry's user number. What a header was built with is read back,
/// if it is below two to the sixty-third.
pub fn entry_uid(reader: &TarReader, entry: &TarEntry, header: &Vec<u8>) -> (r: Result<u64, Error>)
    requires
        header@.len() == 512,
    ensures
        outcome(r) == asked(*reader, *entry, uid_of_header(header@)),
        forall|spec: EntrySpec|
            reader.is_current(*entry) && #[trigger] holds_numbers(header@, spec) && spec.uid
                < 0x8000_0000_0000_0000 ==> r == Ok::<u64, Error>(spec.uid),
{
    match reader.active_entry(entry) {
        Ok(()) => {
            let r = header::uid(header);
            proof {
                assert forall|spec: EntrySpec|
                    #[trigger] holds_numbers(header@, spec) && spec.uid
                        < 0x8000_0000_0000_0000 implies r == Ok::<u64, String>(spec.uid) by {
                    short_field_round_trips(spec.uid);
                    let f = field_at(header@, 108, 8);
                    assert(f.take(7) =~= field_at(header@, 108, 7));
                    assert(f[0] == header@[108]);
                }
            }
            report(r)
        },
        Err(e) => Err(e),
    }
}

/// The current entry's group number. What a header was built with is read
/// back, if it is below two to the sixty-third.
pub fn entry_gid(reader: &TarReader, entry: &TarEntry, header: &Vec<u8>) -> (r: Result<u64, Error>)
    requires
        header@.len() == 512,
    ensures
        outcome(r) == asked(*reader, *entry, gid_of_header(header@)),
        forall|spec: EntrySpec|
            reader.is_current(*entry) && #[trigger] holds_numbers(header@, spec) && spec.gid
                < 0x8000_0000_0000_0000 ==> r == Ok::<u64, Error>(spec.gid),
{
    match reader.active_entry(entry) {
        Ok(()) => {
            let r = header::gid(header);
            proof {
                assert forall|spec: EntrySpec|
                    #[trigger] holds_numbers(header@, spec) && spec.gid
                        < 0x8000_0000_0000_0000 implies r == Ok::<u64, String>(spec.gid) by {
                    short_field_round_trips(spec.gid);
                    let f = field_at(header@, 116, 8);
                    assert(f.take(7) =~= field_at(header@, 116, 7));
                    assert(f[0] == header@[116]);
                }
            }
            report(r)
        },
        Err(e) => Err(e),
    }
}

/// A clock reading of whole seconds after the epoch.
pub open spec fn seconds_after_epoch(r: Result<u64, Seq<char>>) -> Result<SystemTime, Seq<char>> {
    match r {
        Ok(secs) => Ok(SystemTime { before_epoch: false, secs, nanos: 0 }),
        Err(e) => Err(e),
    }
}

/// The current entry's modification time. What a header was built with is
/// read back.
pub fn entry_mtime(reader: &TarReader, entry: &TarEntry, header: &Vec<u8>) -> (r: Result<
    SystemTime,
    Error,
>)
    requires
        header@.len() == 512,
    ensures
        outcome(r) == asked(*reader, *entry, seconds_after_epoch(mtime_of_header(header@))),
        forall|spec: EntrySpec|
            reader.is_current(*entry) && #[trigger] holds_numbers(header@, spec) ==> r is Ok
                && r->Ok_0 == (SystemTime { before_epoch: false, secs: spec.mtime, nanos: 0 }),
{
    match reader.active_entry(entry) {
        Ok(()) => {
            let r = header::mtime(header);
            proof {
                assert forall|spec: EntrySpec| #[trigger] holds_numbers(header@, spec) implies r == Ok::<
                    u64,
                    String,
                >(spec.mtime) by {
                    long_field_round_trips(spec.mtime);
                    let f = field_at(header@, 136, 12);
                    assert(f.take(11) =~= field_at(header@, 136, 11));
                    assert(f.skip(4) =~= field_at(header@, 140, 8));
                    assert(f[0] == header@[136]);
                }
            }
            match r {
                Ok(secs) => Ok(SystemTime { before_epoch: false, secs, nanos: 0 }),
                Err(e) => Err(Error::Runtime(e)),
            }
        },
        Err(e) => Err(e),
    }
}

/// The current entry's major device number, if its format has one.
pub fn entry_device_major(reader: &TarReader, entry: &TarEntry, header: &Vec<u8>) -> (r: Result<
    Option<u32>,
    Error,
>)
    requires
        header@.len() == 512,
    ensures
        outcome(r) == asked(*reader, *entry, device_major_of_header(header@)),
        forall|n: u32|
            reader.is_current(*entry) && is_gnu(header@) && n < 2_097_152 && field_at(
                header@,
                329,
                8,
            ) == #[trigger] octal_field(8, n as nat) ==> r == Ok::<Option<u32>, Error>(Some(n)),
{
    match reader.active_entry(entry) {
        Ok(()) => {
            let r = header::device_major(header);
            proof {
                assert forall|n: u32|
                    is_gnu(header@) && n < 2_097_152 && field_at(header@, 329, 8)
                        == #[trigger] octal_field(8, n as nat) implies r == Ok::<
                    Option<u32>,
                    String,
                >(Some(n)) by {
                    digits_round_trip(n);
                    let f = field_at(header@, 329, 8);
                    assert(f.take(7) =~= field_at(header@, 329, 7));
                }
            }
            report(r)
        },
        Err(e) => Err(e),
    }
}

/// The current entry's minor device number, if its format has one.
pub fn entry_device_minor(reader: &TarReader, entry: &TarEntry, header: &Vec<u8>) -> (r: Result<
    Option<u32>,
    Error,
>)
    requires
        header@.len() == 512,
    ensures
        outcome(r) == asked(*reader, *entry, device_minor_of_header(header@)),
        forall|n: u32|
            reader.is_current(*entry) && is_gnu(header@) && n < 2_097_152 && field_at(
                header@,
                337,
                8,
            ) == #[trigger] octal_field(8, n as nat) ==> r == Ok::<Option<u32>, Error>(Some(n)),
{
    match reader.active_entry(entry) {
        Ok(()) => {
            let r = header::device_minor(header);
            proof {
                assert forall|n: u32|
                    is_gnu(header@) && n < 2_097_152 && field_at(header@, 337, 8)
                        == #[trigger] octal_field(8, n as nat) implies r == Ok::<
                    Option<u32>,
                    String,
                >(Some(n)) by {
                    digits_round_trip(n);
                    let f = field_at(header@, 337, 8);
                    assert(f.take(7) =~= field_at(header@, 337, 7));
                }
            }
            report(r)
        },
        Err(e) => Err(e),
    }
}

/// A name of the current entry, which has to be UTF-8.
pub fn entry_name(reader: &TarReader, entry: &TarEntry, bytes: Vec<u8>) -> (r: Result<String, Error>)
    ensures
        !reader.is_current(*entry) ==> r is Err && r->Err_0@ == ErrorView::State(
            "tar entry is no longer active"@,
        ),
        reader.is_current(*entry) && valid_utf8(bytes@) ==> r is Ok && encode_utf8(r->Ok_0@) == bytes@,
        reader.is_current(*entry) && !valid_utf8(bytes@) ==> r is Err && r->Err_0@
            == ErrorView::Runtime(utf8_problem(bytes@)),
{
    match reader.active_entry(entry) {
        Ok(()) => match decode_bytes(bytes) {
            Ok(s) => Ok(s),
            Err(e) => Err(Error::Runtime(e)),
        },
        Err(e) => Err(e),
    }
}

/// The bytes of a name of the owner: what an extension record says, if there is
/// one, an empty record meaning that there is no name; or else what the header
/// says.
pub open spec fn owner_bytes(extension: Option<Seq<u8>>, header: Option<Seq<u8>>) -> Option<Seq<u8>> {
    match extension {
        Some(bytes) => if bytes.len() == 0 {
            None
        } else {
            Some(bytes)
        },
        None => header,
    }
}

/// Whether a name of the current entry was read from these bytes.
pub open spec fn named(
    reader: TarReader,
    entry: TarEntry,
    bytes: Option<Seq<u8>>,
    r: Result<Option<String>, Error>,
) -> bool {
    if !reader.is_current(entry) {
        r is Err && r->Err_0@ == ErrorView::State("tar entry is no longer active"@)
    } else {
        match bytes {
            None => r == Ok::<Option<String>, Error>(None),
            Some(bytes) => if valid_utf8(bytes) {
                r is Ok && r->Ok_0 is Some && encode_utf8(r->Ok_0->0@) == bytes
            } else {
                r is Err && r->Err_0@ == ErrorView::Runtime(utf8_problem(bytes))
            },
        }
    }
}

/// A name of the owner of the current entry.
fn owner_name(
    reader: &TarReader,
    entry: &TarEntry,
    header: Option<Vec<u8>>,
    extension: &Option<Vec<u8>>,
) -> (r: Result<Option<String>, Error>)
    ensures
        named(
            *reader,
            *entry,
            owner_bytes(optional_bytes(*extension), optional_bytes(header)),
            r,
        ),
{
    match reader.active_entry(entry) {
        Err(e) => return Err(e),
        Ok(()) => {},
    }
    let bytes = match extension {
        Some(bytes) => {
            if bytes.len() == 0 {
                return Ok(None);
            }
            copy_bytes(bytes)
        },
        None => match header {
            Some(bytes) => bytes,
            None => return Ok(None),
        },
    };
    match entry_name(reader, entry, bytes) {
        Ok(name) => Ok(Some(name)),
        Err(e) => Err(e),
    }
}

/// The user that owns the current entry. What a header was built with is read
/// back, unless an extension record says otherwise.
pub fn entry_user_name(
    reader: &TarReader,
    entry: &TarEntry,
    header: &Vec<u8>,
    extension: &Option<Vec<u8>>,
) -> (r: Result<Option<String>, Error>)
    requires
        header@.len() == 512,
    ensures
        named(
            *reader,
            *entry,
            owner_bytes(optional_bytes(*extension), name_at(header@, 265)),
            r,
        ),
        forall|spec: EntrySpec|
            reader.is_current(*entry) && *extension is None && is_gnu(header@)
                && #[trigger] holds_names(header@, spec) && spec.user_name is Some ==> r is Ok
                && r->Ok_0 is Some && r->Ok_0->0@ == spec.user_name->0@,
{
    let r = owner_name(reader, entry, header::username_bytes(header), extension);
    proof {
        assert forall|spec: EntrySpec|
            reader.is_current(*entry) && *extension is None && is_gnu(header@)
                && #[trigger] holds_names(header@, spec) && spec.user_name is Some implies r is Ok
            && r->Ok_0 is Some && r->Ok_0->0@ == spec.user_name->0@ by {
            let name = spec.user_name->0@;
            vstd::utf8::encode_utf8_valid_utf8(name);
            vstd::utf8::encode_utf8_decode_utf8(name);
            vstd::utf8::encode_utf8_decode_utf8(r->Ok_0->0@);
        }
    }
    r
}

/// The group that owns the current entry. What a header was built with is read
/// back, unless an extension record says otherwise.
pub fn entry_group_name(
    reader: &TarReader,
    entry: &TarEntry,
    header: &Vec<u8>,
    extension: &Option<Vec<u8>>,
) -> (r: Result<Option<String>, Error>)
    requires
        header@.len() == 512,
    ensures
        named(
            *reader,
            *entry,
            owner_bytes(optional_bytes(*extension), name_at(header@, 297)),
            r,
        ),
        forall|spec: EntrySpec|
            reader.is_current(*entry) && *extension is None && is_gnu(header@)
                && #[trigger] holds_names(header@, spec) && spec.group_name is Some ==> r is Ok
                && r->Ok_0 is Some && r->Ok_0->0@ == spec.group_name->0@,
{
    let r = owner_name(reader, entry, header::groupname_bytes(header), extension);
    proof {
        assert forall|spec: EntrySpec|
            reader.is_current(*entry) && *extension is None && is_gnu(header@)
                && #[trigger] holds_names(header@, spec) && spec.group_name is Some implies r is Ok
            && r->Ok_0 is Some && r->Ok_0->0@ == spec.group_name->0@ by {
            let name = spec.group_name->0@;
            vstd::utf8::encode_utf8_valid_utf8(name);
            vstd::utf8::encode_utf8_decode_utf8(name);
            vstd::utf8::encode_utf8_decode_utf8(r->Ok_0->0@);
        }
    }
    r
}

/// How many bytes a read asks for.
pub open spec fn read_size_result(value: Value) -> Result<usize, ErrorView> {
    match u64_result(value, "size"@) {
        Err(e) => Err(e),
        Ok(n) => if n <= usize::MAX {
            Ok(n as usize)
        } else {
            Err(ErrorView::Overflow)
        },
    }
}

/// How many bytes a read of the current entry asks for.
pub fn read_size(reader: &TarReader, entry: &TarEntry, value: &Value) -> (r: Result<usize, Error>)
    ensures
        outcome(r) == match read_size_result(*value) {
            Err(e) => Err(e),
            Ok(n) => if reader.is_current(*entry) {
                Ok(n)
            } else {
                Err(ErrorView::State("tar entry is no longer active"@))
            },
        },
{
    let n = match nonnegative_u64(value, "size") {
        Ok(n) => n,
        Err(e) => return Err(e),
    };
    if n > usize::MAX as u64 {
        return Err(Error::Overflow);
    }
    match reader.active_entry(entry) {
        Ok(()) => Ok(n as usize),
        Err(e) => Err(e),
    }
}

/// An archive being written. While an entry is being written, the archive is
/// active and its stream is with the entry.
#[derive(Debug)]
pub struct TarWriter {
    open: bool,
    generation: u64,
    active: bool,
    poisoned: bool,
    compression: Compression,
}

/// The state of a [`TarWriter`].
pub struct WriterView {
    pub open: bool,
    pub generation: u64,
    pub active: bool,
    pub poisoned: bool,
    pub compression: Compression,
}

impl View for TarWriter {
    type V = WriterView;

    closed spec fn view(&self) -> WriterView {
        WriterView {
            open: self.open,
            generation: self.generation,
            active: self.active,
            poisoned: self.poisoned,
            compression: self.compression,
        }
    }
}

/// What the beginning of an entry makes of a writer.
pub open spec fn begun(w: WriterView) -> (WriterView, Result<u64, ErrorView>) {
    if w.poisoned {
        (w, Err(ErrorView::State("tar writer is poisoned"@)))
    } else if w.active {
        (w, Err(ErrorView::Conflict))
    } else {
        let next = WriterView {
            active: true,
            generation: later(w.generation, 1),
            open: false,
            ..w
        };
        (
            next,
            if w.open {
                Ok(next.generation)
            } else {
                Err(ErrorView::State("tar writer is closed"@))
            },
        )
    }
}

/// Whether an entry is complete: it was appended, with the bytes it declared.
pub open spec fn complete(appended: bool, written: u64, size: u64) -> bool {
    appended && written == size
}

/// What the end of an entry makes of a writer.
pub open spec fn ended(w: WriterView, appended: bool, written: u64, size: u64) -> WriterView {
    WriterView {
        active: false,
        open: true,
        poisoned: w.poisoned || !complete(appended, written, size),
        ..w
    }
}

/// The outcome of an entry: the block's error first, then the archive's, then
/// a size that was not kept.
pub open spec fn entry_outcome(
    block: Result<(), ErrorView>,
    append: Result<(), ErrorView>,
    written: u64,
    size: u64,
) -> Result<(), ErrorView> {
    match block {
        Err(e) => Err(e),
        Ok(()) => match append {
            Err(e) => Err(e),
            Ok(()) => if written == size {
                Ok(())
            } else {
                Err(
                    ErrorView::Value(
                        "tar entry declared "@ + crate::text::decimal(size as nat)
                            + " bytes but received "@ + crate::text::decimal(written as nat),
                    ),
                )
            },
        },
    }
}

impl TarWriter {
    /// An archive with no entry yet.
    pub fn new(compression: Compression) -> (writer: TarWriter)
        ensures
            writer@ == (WriterView {
                open: true,
                generation: 0,
                active: false,
                poisoned: false,
                compression,
            }),
    {
        TarWriter { open: true, generation: 0, active: false, poisoned: false, compression }
    }

    pub fn compression(&self) -> (r: Compression)
        ensures
            r == self@.compression,
    {
        self.compression
    }

    /// Begins an entry, which takes the stream.
    pub fn begin_entry(&mut self) -> (r: Result<u64, Error>)
        ensures
            (final(self)@, outcome(r)) == begun(old(self)@),
    {
        if self.poisoned {
            return Err(Error::State("tar writer is poisoned".to_owned()));
        }
        if self.active {
            return Err(Error::Conflict);
        }
        self.active = true;
        self.generation = self.generation.wrapping_add(1);
        if !self.open {
            return Err(Error::State("tar writer is closed".to_owned()));
        }
        self.open = false;
        Ok(self.generation)
    }

    /// Ends an entry, which gives the stream back. An entry that is not
    /// complete spoils the archive.
    pub fn end_entry(
        &mut self,
        block: Result<(), Error>,
        append: Result<(), Error>,
        written: u64,
        size: u64,
    ) -> (r: Result<(), Error>)
        ensures
            final(self)@ == ended(old(self)@, append is Ok, written, size),
            outcome(r) == entry_outcome(outcome(block), outcome(append), written, size),
    {
        self.active = false;
        self.open = true;
        if append.is_err() || written != size {
            self.poisoned = true;
        }
        match block {
            Err(e) => return Err(e),
            Ok(()) => {},
        }
        match append {
            Err(e) => return Err(e),
            Ok(()) => {},
        }
        if written != size {
            let mut message = "tar entry declared ".to_owned();
            push_decimal(&mut message, size as u128);
            message.append(" bytes but received ");
            push_decimal(&mut message, written as u128);
            return Err(Error::Value(message));
        }
        Ok(())
    }

    /// Ends the archive, taking the stream: it can be completed only if no
    /// entry is open and none spoiled it.
    pub fn finish(&mut self) -> (r: Result<(), Error>)
        ensures
            final(self)@ == (WriterView { open: false, ..old(self)@ }),
            outcome(r) == if old(self)@.active || old(self)@.poisoned {
                Err(ErrorView::State("tar writer did not finish cleanly"@))
            } else if !old(self)@.open {
                Err(ErrorView::State("tar writer is closed"@))
            } else {
                Ok(())
            },
    {
        let open = self.open;
        self.open = false;
        if self.active || self.poisoned {
            return Err(Error::State("tar writer did not finish cleanly".to_owned()));
        }
        if !open {
            return Err(Error::State("tar writer is closed".to_owned()));
        }
        Ok(())
    }
}

/// The outcome of writing an archive: the block's error comes first.
pub fn write_outcome(block: Result<(), Error>, cleanup: Result<(), Error>) -> (r: Result<(), Error>)
    ensures
        outcome(r) == match block {
            Err(e) => Err(e@),
            Ok(()) => outcome(cleanup),
        },
{
    match block {
        Err(e) => Err(e),
        Ok(()) => cleanup,
    }
}

/// An entry being written.
#[derive(Debug)]
pub struct TarEntryWriter {
    open: bool,
    generation: u64,
    written: u64,
    size: u64,
}

/// The state of a [`TarEntryWriter`].
pub struct EntryWriterView {
    pub open: bool,
    pub generation: u64,
    pub written: u64,
    pub size: u64,
}

impl View for TarEntryWriter {
    type V = EntryWriterView;

    closed spec fn view(&self) -> EntryWriterView {
        EntryWriterView {
            open: self.open,
            generation: self.generation,
            written: self.written,
            size: self.size,
        }
    }
}

impl TarEntryWriter {
    #[verifier::type_invariant]
    spec fn inv(self) -> bool {
        self.written <= self.size
    }

    /// An entry that declares `size` bytes and has none yet.
    pub fn new(generation: u64, size: u64) -> (entry: TarEntryWriter)
        ensures
            entry@ == (EntryWriterView { open: true, generation, written: 0, size }),
    {
        TarEntryWriter { open: true, generation, written: 0, size }
    }

    /// Whether the entry is the one that the archive is writing.
    pub open spec fn belongs(self, parent: WriterView) -> bool {
        parent.active && parent.generation == self@.generation && self@.open
    }

    /// Never more was written than was declared.
    pub fn written(&self) -> (n: u64)
        ensures
            n == self@.written,
            n <= self@.size,
    {
        proof {
            use_type_invariant(self);
        }
        self.written
    }

    /// Checks that the entry can be written to.
    pub fn validate(&self, parent: &TarWriter) -> (r: Result<(), Error>)
        ensures
            outcome(r) == if self.belongs(parent@) {
                Ok(())
            } else {
                Err(ErrorView::State("tar entry writer is closed"@))
            },
    {
        if !parent.active || parent.generation != self.generation || !self.open {
            return Err(Error::State("tar entry writer is closed".to_owned()));
        }
        Ok(())
    }

    /// Checks that `len` more bytes may be written.
    pub fn check_write(&self, len: usize) -> (r: Result<(), Error>)
        ensures
            outcome(r) == if self@.written + len > self@.size {
                Err(ErrorView::Value("tar entry exceeds declared size"@))
            } else if !self@.open {
                Err(ErrorView::State("tar entry writer is closed"@))
            } else {
                Ok(())
            },
    {
        proof {
            use_type_invariant(self);
        }
        let len: u64 = len as u64;
        if len > self.size - self.written {
            return Err(Error::Value("tar entry exceeds declared size".to_owned()));
        }
        if !self.open {
            return Err(Error::State("tar entry writer is closed".to_owned()));
        }
        Ok(())
    }

    /// Counts bytes that were written.
    pub fn wrote(&mut self, len: usize)
        requires
            old(self)@.written + len <= old(self)@.size,
        ensures
            final(self)@ == (EntryWriterView {
                written: (old(self)@.written + len) as u64,
                ..old(self)@
            }),
    {
        self.written = self.written + len as u64;
    }

    /// Closes the entry and hands out how much was written.
    pub fn close(&mut self) -> (n: u64)
        ensures
            final(self)@ == (EntryWriterView { open: false, ..old(self)@ }),
            n == old(self)@.written,
    {
        proof {
            use_type_invariant(&*self);
        }
        self.open = false;
        self.written
    }
}

/// An entry that was begun: its writer, its header, and the path it goes to.
#[derive(Debug)]
pub struct StartedEntry {
    pub writer: TarEntryWriter,
    pub header: Vec<u8>,
    pub path: String,
}

/// Whether an entry was begun with the number `generation` as `spec` says.
pub open spec fn started(r: Result<StartedEntry, Error>, generation: u64, spec: EntrySpec) -> bool {
    match r {
        Err(e) => e@ is Runtime && entry_header(spec, Err(e@->Runtime_0)),
        Ok(entry) => {
            &&& entry_header(spec, Ok(entry.header@))
            &&& holds_numbers(entry.header@, spec)
            &&& holds_names(entry.header@, spec)
            &&& holds_devices(entry.header@, spec)
            &&& entry.path@ == spec.path@
            &&& entry.writer@ == (EntryWriterView {
                open: true,
                generation,
                written: 0,
                size: spec.size,
            })
        },
    }
}

/// Begins an entry with the arguments that a program gave: these are checked
/// first, then the archive, and last the header is made.
pub fn start_entry(writer: &mut TarWriter, args: &EntryArgs) -> (r: Result<StartedEntry, Error>)
    ensures
        match args.problem() {
            Some(e) => r is Err && r->Err_0@ == e && final(writer)@ == old(writer)@,
            None => final(writer)@ == begun(old(writer)@).0 && match begun(old(writer)@).1 {
                Err(e) => r is Err && r->Err_0@ == e,
                Ok(generation) => exists|spec: EntrySpec| #[trigger]
                    args.says(spec) && started(r, generation, spec),
            },
        },
{
    let spec = match args.check() {
        Ok(spec) => spec,
        Err(e) => return Err(e),
    };
    let generation: u64 = match writer.begin_entry() {
        Ok(n) => n,
        Err(e) => return Err(e),
    };
    let header = match build_header(&spec) {
        Ok(header) => header,
        Err(e) => {
            let r = Err(e);
            assert(args.says(spec) && started(r, generation, spec));
            return r;
        },
    };
    let ghost made = spec;
    let r = Ok(
        StartedEntry {
            writer: TarEntryWriter::new(generation, spec.size),
            header,
            path: spec.path,
        },
    );
    assert(args.says(made) && started(r, generation, made));
    r
}

/// The bytes of data to write: a string's encoding, or binary data.
pub fn entry_data(value: &Value) -> (r: Result<Vec<u8>, Error>)
    ensures
        viewed(r) == match *value {
            Value::Str(s) => Ok(encode_utf8(s@)),
            Value::Bin(b) => Ok(b@),
            _ => Err(ErrorView::Type("expected str or bin"@)),
        },
{
    match value {
        Value::Str(s) => Ok(bytes_of(s.as_str())),
        Value::Bin(b) => Ok(copy_bytes(b)),
        _ => Err(Error::Type("expected str or bin".to_owned())),
    }
}

/// Whether a writer is in a state that writing entries can bring it to: an
/// open entry has the stream.
pub open spec fn consistent(w: WriterView) -> bool {
    w.active ==> !w.open
}

/// Entries are written one at a time: from a consistent state an entry begins
/// only when none is open, and both ends of an entry keep the state
/// consistent.
pub proof fn one_entry_at_a_time(w: WriterView, appended: bool, written: u64, size: u64)
    requires
        consistent(w),
    ensures
        consistent(begun(w).0),
        begun(w).1 is Ok ==> !w.active && begun(w).0.active,
        begun(begun(w).0).1 is Err,
        consistent(ended(w, appended, written, size)),
{
}

/// An archive with an entry that is not complete can neither take another
/// entry nor be finished.
pub proof fn spoiled_archives_stay_spoiled(w: WriterView, appended: bool, written: u64, size: u64)
    requires
        !complete(appended, written, size),
    ensures
        ended(w, appended, written, size).poisoned,
        begun(ended(w, appended, written, size)) == (
            ended(w, appended, written, size),
            Err::<u64, ErrorView>(ErrorView::State("tar writer is poisoned"@)),
        ),
{
}

} // verus!

//! Archive entries: what they are made from, and what is read of them.

use vstd::prelude::*;
use vstd::utf8::encode_utf8;
use crate::error::{outcome, viewed, Error, ErrorView};
use crate::shell::process::text_option;
use crate::shell::time::SystemTime;
use crate::tar::header::{
    digits_round_trip, field_at, fits_name, is_gnu, linked, long_field_round_trips, name_field,
    names_round_trip, new_gnu, number_field, octal_field, portable, replaced, set_device_major,
    set_device_minor, set_entry_type, set_gid, set_groupname, set_link_name, set_mode, set_mtime,
    set_size, set_uid, set_username, short_field_round_trips, tidy, type_byte, up_to_nul,
    with_groupname, with_link_name, with_username, EntryType,
};
use crate::text::str_eq;
use crate::value::Value;

verus! {

broadcast use vstd::string::group_string_axioms;

/// The symbol that programs know an entry type by.
pub open spec fn type_symbol(ty: EntryType) -> Seq<char> {
    match ty {
        EntryType::Regular => "FILE"@,
        EntryType::Link => "HARDLINK"@,
        EntryType::Symlink => "SYMLINK"@,
        EntryType::Char => "CHAR_DEVICE"@,
        EntryType::Block => "BLOCK_DEVICE"@,
        EntryType::Directory => "DIR"@,
        EntryType::Fifo => "FIFO"@,
        EntryType::Continuous => "CONTIGUOUS"@,
        EntryType::Other => "UNKNOWN"@,
    }
}

/// The symbol that programs know an entry type by.
pub fn entry_type_sym(ty: EntryType) -> (s: &'static str)
    ensures
        s@ == type_symbol(ty),
{
    match ty {
        EntryType::Regular => "FILE",
        EntryType::Link => "HARDLINK",
        EntryType::Symlink => "SYMLINK",
        EntryType::Char => "CHAR_DEVICE",
        EntryType::Block => "BLOCK_DEVICE",
        EntryType::Directory => "DIR",
        EntryType::Fifo => "FIFO",
        EntryType::Continuous => "CONTIGUOUS",
        EntryType::Other => "UNKNOWN",
    }
}

/// The entry type that a symbol names; `UNKNOWN` names none.
pub open spec fn symbol_type(name: Seq<char>) -> Option<EntryType> {
    if name == "FILE"@ {
        Some(EntryType::Regular)
    } else if name == "HARDLINK"@ {
        Some(EntryType::Link)
    } else if name == "SYMLINK"@ {
        Some(EntryType::Symlink)
    } else if name == "CHAR_DEVICE"@ {
        Some(EntryType::Char)
    } else if name == "BLOCK_DEVICE"@ {
        Some(EntryType::Block)
    } else if name == "DIR"@ {
        Some(EntryType::Directory)
    } else if name == "FIFO"@ {
        Some(EntryType::Fifo)
    } else if name == "CONTIGUOUS"@ {
        Some(EntryType::Continuous)
    } else {
        None
    }
}

/// The entry type that an argument names: a regular file unless it says
/// otherwise.
pub open spec fn type_result(value: Option<Value>) -> Result<EntryType, ErrorView> {
    match value {
        None => Ok(EntryType::Regular),
        Some(Value::Sym(s)) => match symbol_type(s@) {
            Some(ty) => Ok(ty),
            None => Err(ErrorView::Value("invalid tar entry type"@)),
        },
        Some(_) => Err(ErrorView::Value("invalid tar entry type"@)),
    }
}

/// The entry type that an argument names.
pub fn parse_entry_type(value: &Option<Value>) -> (r: Result<EntryType, Error>)
    ensures
        outcome(r) == type_result(*value),
{
    match value {
        None => Ok(EntryType::Regular),
        Some(Value::Sym(s)) => {
            let name = s.as_str();
            if str_eq(name, "FILE") {
                Ok(EntryType::Regular)
            } else if str_eq(name, "HARDLINK") {
                Ok(EntryType::Link)
            } else if str_eq(name, "SYMLINK") {
                Ok(EntryType::Symlink)
            } else if str_eq(name, "CHAR_DEVICE") {
                Ok(EntryType::Char)
            } else if str_eq(name, "BLOCK_DEVICE") {
                Ok(EntryType::Block)
            } else if str_eq(name, "DIR") {
                Ok(EntryType::Directory)
            } else if str_eq(name, "FIFO") {
                Ok(EntryType::Fifo)
            } else if str_eq(name, "CONTIGUOUS") {
                Ok(EntryType::Continuous)
            } else {
                Err(Error::Value("invalid tar entry type".to_owned()))
            }
        },
        Some(_) => Err(Error::Value("invalid tar entry type".to_owned())),
    }
}

/// Every entry type that can be written has a symbol that names it again.
pub proof fn type_symbols_round_trip(ty: EntryType)
    requires
        ty != EntryType::Other,
    ensures
        symbol_type(type_symbol(ty)) == Some(ty),
{
    reveal_strlit("FILE");
    reveal_strlit("HARDLINK");
    reveal_strlit("SYMLINK");
    reveal_strlit("CHAR_DEVICE");
    reveal_strlit("BLOCK_DEVICE");
    reveal_strlit("DIR");
    reveal_strlit("FIFO");
    reveal_strlit("CONTIGUOUS");
    assert("FILE"@[1] == 'I' && "FIFO"@[1] == 'I' && "FILE"@[2] == 'L' && "FIFO"@[2] == 'F');
    assert("HARDLINK"@[0] == 'H' && "SYMLINK"@[0] == 'S');
    assert("CHAR_DEVICE"@[1] == 'H' && "BLOCK_DEVICE"@[0] == 'B' && "CONTIGUOUS"@[1] == 'O');
}

/// The number that a value gives, which has to be a non-negative integer.
pub open spec fn u64_result(value: Value, name: Seq<char>) -> Result<u64, ErrorView> {
    match value {
        Value::Int(n) => if 0 <= n <= u64::MAX {
            Ok(n as u64)
        } else {
            Err(ErrorView::Value(name + " must be a non-negative integer"@))
        },
        _ => Err(ErrorView::Type(name + " must be a non-negative integer"@)),
    }
}

/// The number that an optional value gives, or else `default`.
pub open spec fn optional_u64_result(value: Option<Value>, default: u64, name: Seq<char>) -> Result<
    u64,
    ErrorView,
> {
    match value {
        Some(value) => u64_result(value, name),
        None => Ok(default),
    }
}

/// The number that a value gives.
pub fn nonnegative_u64(value: &Value, name: &str) -> (r: Result<u64, Error>)
    ensures
        outcome(r) == u64_result(*value, name@),
{
    match value {
        Value::Int(n) => if 0 <= *n && *n <= u64::MAX as i128 {
            Ok(*n as u64)
        } else {
            Err(Error::Value(name.to_owned().concat(" must be a non-negative integer")))
        },
        _ => Err(Error::Type(name.to_owned().concat(" must be a non-negative integer"))),
    }
}

/// The number that an optional value gives, or else `default`.
pub fn optional_u64(value: &Option<Value>, default: u64, name: &str) -> (r: Result<u64, Error>)
    ensures
        outcome(r) == optional_u64_result(*value, default, name@),
{
    match value {
        Some(value) => nonnegative_u64(value, name),
        None => Ok(default),
    }
}

/// The mode bits: readable and writable unless given otherwise.
pub open spec fn mode_result(value: Option<Value>) -> Result<u32, ErrorView> {
    match optional_u64_result(value, 0o644, "mode"@) {
        Err(e) => Err(e),
        Ok(n) => if n <= u32::MAX {
            Ok(n as u32)
        } else {
            Err(ErrorView::Overflow)
        },
    }
}

/// A device number, if one is given.
pub open spec fn device_result(value: Option<Value>, name: Seq<char>) -> Result<
    Option<u32>,
    ErrorView,
> {
    match value {
        None => Ok(None),
        Some(value) => match u64_result(value, name) {
            Err(e) => Err(e),
            Ok(n) => if n <= u32::MAX {
                Ok(Some(n as u32))
            } else {
                Err(ErrorView::Overflow)
            },
        },
    }
}

fn parse_mode_bits(value: &Option<Value>) -> (r: Result<u32, Error>)
    ensures
        outcome(r) == mode_result(*value),
{
    match optional_u64(value, 0o644, "mode") {
        Err(e) => Err(e),
        Ok(n) => if n <= u32::MAX as u64 {
            Ok(n as u32)
        } else {
            Err(Error::Overflow)
        },
    }
}

fn parse_device(value: &Option<Value>, name: &str) -> (r: Result<Option<u32>, Error>)
    ensures
        outcome(r) == device_result(*value, name@),
{
    match value {
        None => Ok(None),
        Some(value) => match nonnegative_u64(value, name) {
            Err(e) => Err(e),
            Ok(n) => if n <= u32::MAX as u64 {
                Ok(Some(n as u32))
            } else {
                Err(Error::Overflow)
            },
        },
    }
}

/// A string, if one is given.
pub open spec fn string_result(value: Option<Value>, name: Seq<char>) -> Result<
    Option<Seq<char>>,
    ErrorView,
> {
    match value {
        None => Ok(None),
        Some(Value::Str(s)) => Ok(Some(s@)),
        Some(_) => Err(ErrorView::Type(name + " must be a string"@)),
    }
}

/// An optional string, seen by its content.
pub open spec fn seen(r: Result<Option<String>, Error>) -> Result<Option<Seq<char>>, ErrorView> {
    match r {
        Ok(s) => Ok(text_option(s)),
        Err(e) => Err(e@),
    }
}

/// A string, if one is given.
pub fn optional_string(value: &Option<Value>, name: &str) -> (r: Result<Option<String>, Error>)
    ensures
        seen(r) == string_result(*value, name@),
{
    match value {
        None => Ok(None),
        Some(Value::Str(s)) => Ok(Some(s.clone())),
        Some(_) => Err(Error::Type(name.to_owned().concat(" must be a string"))),
    }
}

/// A path given as an argument.
#[derive(Debug)]
pub enum PathArg {
    UnixPath(String),
    Str(String),
    Other,
}

/// The path that an argument gives.
pub open spec fn path_result(value: PathArg, name: Seq<char>) -> Result<Seq<char>, ErrorView> {
    match value {
        PathArg::UnixPath(s) => Ok(s@),
        PathArg::Str(s) => Ok(s@),
        PathArg::Other => Err(ErrorView::Type(name + " must be a str or UnixPath"@)),
    }
}

/// The path that an argument gives.
pub fn unix_path_string(value: &PathArg, name: &str) -> (r: Result<String, Error>)
    ensures
        viewed(r) == path_result(*value, name@),
{
    match value {
        PathArg::UnixPath(s) => Ok(s.clone()),
        PathArg::Str(s) => Ok(s.clone()),
        PathArg::Other => Err(Error::Type(name.to_owned().concat(" must be a str or UnixPath"))),
    }
}

/// The path that an optional argument gives.
pub open spec fn optional_path_result(value: Option<PathArg>, name: Seq<char>) -> Result<
    Option<Seq<char>>,
    ErrorView,
> {
    match value {
        None => Ok(None),
        Some(value) => match path_result(value, name) {
            Ok(s) => Ok(Some(s)),
            Err(e) => Err(e),
        },
    }
}

/// The path that an optional argument gives.
pub fn optional_unix_path_string(value: &Option<PathArg>, name: &str) -> (r: Result<
    Option<String>,
    Error,
>)
    ensures
        seen(r) == optional_path_result(*value, name@),
{
    match value {
        None => Ok(None),
        Some(value) => match unix_path_string(value, name) {
            Ok(s) => Ok(Some(s)),
            Err(e) => Err(e),
        },
    }
}

/// A time given as an argument.
#[derive(Clone, Copy, Debug)]
pub enum TimeArg {
    DateTime(SystemTime),
    Other,
}

/// The modification time in whole seconds: the epoch unless given otherwise.
pub open spec fn mtime_result(value: Option<TimeArg>) -> Result<u64, ErrorView> {
    match value {
        None => Ok(0),
        Some(TimeArg::DateTime(time)) => if time.before_epoch {
            Err(ErrorView::Value("mtime is before the Unix epoch"@))
        } else {
            Ok(time.secs)
        },
        Some(TimeArg::Other) => Err(ErrorView::Type("mtime must be a DateTime"@)),
    }
}

fn parse_mtime(value: &Option<TimeArg>) -> (r: Result<u64, Error>)
    ensures
        outcome(r) == mtime_result(*value),
{
    match value {
        None => Ok(0),
        Some(TimeArg::DateTime(time)) => if time.before_epoch {
            Err(Error::Value("mtime is before the Unix epoch".to_owned()))
        } else {
            Ok(time.secs)
        },
        Some(TimeArg::Other) => Err(Error::Type("mtime must be a DateTime".to_owned())),
    }
}

/// What a program gives for a new entry.
pub struct EntryArgs {
    pub path: PathArg,
    pub size: Option<Value>,
    pub ty: Option<Value>,
    pub mode: Option<Value>,
    pub uid: Option<Value>,
    pub gid: Option<Value>,
    pub mtime: Option<TimeArg>,
    pub user_name: Option<Value>,
    pub group_name: Option<Value>,
    pub link_name: Option<PathArg>,
    pub device_major: Option<Value>,
    pub device_minor: Option<Value>,
}

/// A new entry, checked.
#[derive(Debug)]
pub struct EntrySpec {
    pub path: String,
    pub size: u64,
    pub ty: EntryType,
    pub mode: u32,
    pub uid: u64,
    pub gid: u64,
    pub mtime: u64,
    pub user_name: Option<String>,
    pub group_name: Option<String>,
    pub link_name: Option<String>,
    pub device_major: Option<u32>,
    pub device_minor: Option<u32>,
}

impl EntryArgs {
    /// The size, which has to be given.
    pub open spec fn size_result(self) -> Result<u64, ErrorView> {
        match self.size {
            None => Err(ErrorView::Value("size is required"@)),
            Some(value) => u64_result(value, "size"@),
        }
    }

    /// What is wrong with the arguments: the first argument that is wrong by
    /// itself, or else a type without what it needs.
    pub open spec fn problem(self) -> Option<ErrorView> {
        if path_result(self.path, "path"@) is Err {
            Some(path_result(self.path, "path"@)->Err_0)
        } else if self.size_result() is Err {
            Some(self.size_result()->Err_0)
        } else if type_result(self.ty) is Err {
            Some(type_result(self.ty)->Err_0)
        } else if mode_result(self.mode) is Err {
            Some(mode_result(self.mode)->Err_0)
        } else if optional_u64_result(self.uid, 0, "uid"@) is Err {
            Some(optional_u64_result(self.uid, 0, "uid"@)->Err_0)
        } else if optional_u64_result(self.gid, 0, "gid"@) is Err {
            Some(optional_u64_result(self.gid, 0, "gid"@)->Err_0)
        } else if mtime_result(self.mtime) is Err {
            Some(mtime_result(self.mtime)->Err_0)
        } else if string_result(self.user_name, "user_name"@) is Err {
            Some(string_result(self.user_name, "user_name"@)->Err_0)
        } else if string_result(self.group_name, "group_name"@) is Err {
            Some(string_result(self.group_name, "group_name"@)->Err_0)
        } else if optional_path_result(self.link_name, "link_name"@) is Err {
            Some(optional_path_result(self.link_name, "link_name"@)->Err_0)
        } else if device_result(self.device_major, "device_major"@) is Err {
            Some(device_result(self.device_major, "device_major"@)->Err_0)
        } else if device_result(self.device_minor, "device_minor"@) is Err {
            Some(device_result(self.device_minor, "device_minor"@)->Err_0)
        } else {
            let ty = type_result(self.ty)->Ok_0;
            if (ty == EntryType::Link || ty == EntryType::Symlink) && self.link_name is None {
                Some(ErrorView::Value("link_name is required for link entries"@))
            } else if (ty == EntryType::Char || ty == EntryType::Block) && (self.device_major is None
                || self.device_minor is None) {
                Some(
                    ErrorView::Value(
                        "device_major and device_minor are required for device entries"@,
                    ),
                )
            } else {
                None
            }
        }
    }

    /// Whether `spec` is what the arguments say.
    pub open spec fn says(self, spec: EntrySpec) -> bool {
        &&& path_result(self.path, "path"@) == Ok::<Seq<char>, ErrorView>(spec.path@)
        &&& self.size_result() == Ok::<u64, ErrorView>(spec.size)
        &&& type_result(self.ty) == Ok::<EntryType, ErrorView>(spec.ty)
        &&& mode_result(self.mode) == Ok::<u32, ErrorView>(spec.mode)
        &&& optional_u64_result(self.uid, 0, "uid"@) == Ok::<u64, ErrorView>(spec.uid)
        &&& optional_u64_result(self.gid, 0, "gid"@) == Ok::<u64, ErrorView>(spec.gid)
        &&& mtime_result(self.mtime) == Ok::<u64, ErrorView>(spec.mtime)
        &&& string_result(self.user_name, "user_name"@) == Ok::<Option<Seq<char>>, ErrorView>(
            text_option(spec.user_name),
        )
        &&& string_result(self.group_name, "group_name"@) == Ok::<Option<Seq<char>>, ErrorView>(
            text_option(spec.group_name),
        )
        &&& optional_path_result(self.link_name, "link_name"@) == Ok::<Option<Seq<char>>, ErrorView>(
            text_option(spec.link_name),
        )
        &&& device_result(self.device_major, "device_major"@) == Ok::<Option<u32>, ErrorView>(
            spec.device_major,
        )
        &&& device_result(self.device_minor, "device_minor"@) == Ok::<Option<u32>, ErrorView>(
            spec.device_minor,
        )
    }

    /// Checks the arguments.
    pub fn check(&self) -> (r: Result<EntrySpec, Error>)
        ensures
            match self.problem() {
                Some(e) => r is Err && r->Err_0@ == e,
                None => r is Ok && self.says(r->Ok_0),
            },
            r matches Ok(spec) ==> spec.ty != EntryType::Other,
    {
        let path = match unix_path_string(&self.path, "path") {
            Ok(path) => path,
            Err(e) => return Err(e),
        };
        let size = match &self.size {
            None => return Err(Error::Value("size is required".to_owned())),
            Some(value) => match nonnegative_u64(value, "size") {
                Ok(size) => size,
                Err(e) => return Err(e),
            },
        };
        let ty = match parse_entry_type(&self.ty) {
            Ok(ty) => ty,
            Err(e) => return Err(e),
        };
        let mode = match parse_mode_bits(&self.mode) {
            Ok(mode) => mode,
            Err(e) => return Err(e),
        };
        let uid = match optional_u64(&self.uid, 0, "uid") {
            Ok(uid) => uid,
            Err(e) => return Err(e),
        };
        let gid = match optional_u64(&self.gid, 0, "gid") {
            Ok(gid) => gid,
            Err(e) => return Err(e),
        };
        let mtime = match parse_mtime(&self.mtime) {
            Ok(mtime) => mtime,
            Err(e) => return Err(e),
        };
        let user_name = match optional_string(&self.user_name, "user_name") {
            Ok(name) => name,
            Err(e) => return Err(e),
        };
        let group_name = match optional_string(&self.group_name, "group_name") {
            Ok(name) => name,
            Err(e) => return Err(e),
        };
        let link_name = match optional_unix_path_string(&self.link_name, "link_name") {
            Ok(name) => name,
            Err(e) => return Err(e),
        };
        let device_major = match parse_device(&self.device_major, "device_major") {
            Ok(n) => n,
            Err(e) => return Err(e),
        };
        let device_minor = match parse_device(&self.device_minor, "device_minor") {
            Ok(n) => n,
            Err(e) => return Err(e),
        };
        if matches!(ty, EntryType::Link | EntryType::Symlink) && link_name.is_none() {
            return Err(Error::Value("link_name is required for link entries".to_owned()));
        }
        if matches!(ty, EntryType::Char | EntryType::Block) && (device_major.is_none()
            || device_minor.is_none()) {
            return Err(
                Error::Value(
                    "device_major and device_minor are required for device entries".to_owned(),
                ),
            );
        }
        Ok(
            EntrySpec {
                path,
                size,
                ty,
                mode,
                uid,
                gid,
                mtime,
                user_name,
                group_name,
                link_name,
                device_major,
                device_minor,
            },
        )
    }
}

/// A blank header.
pub open spec fn blank() -> Seq<u8> {
    replaced(
        replaced(Seq::new(512, |i: int| 0u8), 257, crate::tar::header::gnu_mark()),
        136,
        octal_field(12, 0),
    )
}

/// The header with everything that every entry has.
pub open spec fn plain_header(spec: EntrySpec) -> Seq<u8> {
    let h = blank().update(156, type_byte(spec.ty));
    let h = replaced(h, 124, number_field(12, spec.size));
    let h = replaced(h, 100, octal_field(8, spec.mode as nat));
    let h = replaced(h, 108, number_field(8, spec.uid));
    let h = replaced(h, 116, number_field(8, spec.gid));
    replaced(h, 136, number_field(12, spec.mtime))
}

/// The header with the names of the owner too.
pub open spec fn owned_header(spec: EntrySpec) -> Result<Seq<u8>, Seq<char>> {
    let h = plain_header(spec);
    let h = match spec.user_name {
        Some(name) => with_username(h, name@),
        None => Ok(h),
    };
    match h {
        Err(e) => Err(e),
        Ok(h) => match spec.group_name {
            Some(name) => with_groupname(h, name@),
            None => Ok(h),
        },
    }
}

/// A header with the device numbers too.
pub open spec fn with_devices(h: Seq<u8>, spec: EntrySpec) -> Seq<u8> {
    let h = match spec.device_major {
        Some(n) => replaced(h, 329, octal_field(8, n as nat)),
        None => h,
    };
    match spec.device_minor {
        Some(n) => replaced(h, 337, octal_field(8, n as nat)),
        None => h,
    }
}

/// The header with everything, once the link name was written or refused.
pub open spec fn completed(link: Result<Seq<u8>, Seq<char>>, spec: EntrySpec) -> Result<
    Seq<u8>,
    Seq<char>,
> {
    match link {
        Err(e) => Err(e),
        Ok(h) => Ok(with_devices(h, spec)),
    }
}

/// Whether `r` is the header of an entry, or the first thing that it cannot
/// hold.
pub open spec fn entry_header(spec: EntrySpec, r: Result<Seq<u8>, Seq<char>>) -> bool {
    match owned_header(spec) {
        Err(e) => r == Err::<Seq<u8>, Seq<char>>(e),
        Ok(h) => match spec.link_name {
            None => r == Ok::<Seq<u8>, Seq<char>>(with_devices(h, spec)),
            Some(path) => if portable(path@) {
                r == completed(with_link_name(h, path@), spec) && linked(
                    h,
                    path@,
                    with_link_name(h, path@),
                )
            } else {
                exists|link: Result<Seq<u8>, Seq<char>>| #[trigger]
                    linked(h, path@, link) && r == completed(link, spec)
            },
        },
    }
}

/// Whether `header` holds the numbers of `spec` in their fields.
pub open spec fn holds_numbers(header: Seq<u8>, spec: EntrySpec) -> bool {
    &&& is_gnu(header)
    &&& header[156] == type_byte(spec.ty)
    &&& field_at(header, 124, 12) == number_field(12, spec.size)
    &&& field_at(header, 100, 8) == octal_field(8, spec.mode as nat)
    &&& field_at(header, 108, 8) == number_field(8, spec.uid)
    &&& field_at(header, 116, 8) == number_field(8, spec.gid)
    &&& field_at(header, 136, 12) == number_field(12, spec.mtime)
}

/// Whether `header` holds the device numbers of `spec` in their fields.
pub open spec fn holds_devices(header: Seq<u8>, spec: EntrySpec) -> bool {
    &&& spec.device_major matches Some(n) ==> field_at(header, 329, 8) == octal_field(8, n as nat)
    &&& spec.device_minor matches Some(n) ==> field_at(header, 337, 8) == octal_field(8, n as nat)
}

/// Whether `header` holds the names of `spec` in their fields.
pub open spec fn holds_names(header: Seq<u8>, spec: EntrySpec) -> bool {
    &&& spec.user_name matches Some(name) ==> up_to_nul(field_at(header, 265, 32)) == encode_utf8(
        name@,
    )
    &&& spec.group_name matches Some(name) ==> up_to_nul(field_at(header, 297, 32)) == encode_utf8(
        name@,
    )
    &&& spec.link_name matches Some(path) ==> tidy(path@) ==> up_to_nul(field_at(header, 157, 100))
        == encode_utf8(path@)
}

/// A name that is written into a field can be read from it.
proof fn lemma_name_written(header: Seq<u8>, at: int, width: nat, name: Seq<char>)
    requires
        header.len() == 512,
        0 <= at,
        at + width <= 512,
        fits_name(name, width),
    ensures
        up_to_nul(field_at(replaced(header, at, name_field(name, width)), at, width as int))
            == encode_utf8(name),
{
    let bytes = encode_utf8(name);
    let field = field_at(replaced(header, at, name_field(name, width)), at, width as int);
    let rest = field.skip(bytes.len() as int);
    assert(field =~= bytes + rest);
    if bytes.len() < width {
        assert(rest[0] == 0);
    }
    names_round_trip(bytes, rest);
}

/// Replacing a field changes that field and no other.
proof fn lemma_replaced(header: Seq<u8>, at: int, field: Seq<u8>)
    requires
        header.len() == 512,
        0 <= at,
        at + field.len() <= 512,
    ensures
        replaced(header, at, field).len() == 512,
        field_at(replaced(header, at, field), at, field.len() as int) == field,
        forall|i: int|
            0 <= i < 512 && !(at <= i < at + field.len()) ==> #[trigger] replaced(header, at, field)[i]
                == header[i],
{
    let r = replaced(header, at, field);
    assert(field_at(r, at, field.len() as int) =~= field);
}

/// Bytes that are the same give the same field.
proof fn lemma_same_field(a: Seq<u8>, b: Seq<u8>, at: int, width: int)
    requires
        a.len() == 512,
        b.len() == 512,
        0 <= at,
        0 <= width,
        at + width <= 512,
        forall|i: int| at <= i < at + width ==> a[i] == b[i],
    ensures
        field_at(a, at, width) == field_at(b, at, width),
{
    assert(field_at(a, at, width) =~= field_at(b, at, width));
}

proof fn lemma_plain_header(spec: EntrySpec)
    ensures
        holds_numbers(plain_header(spec), spec),
{
    long_field_round_trips(spec.size);
    long_field_round_trips(spec.mtime);
    short_field_round_trips(spec.uid);
    short_field_round_trips(spec.gid);
    digits_round_trip(spec.mode);
    let zeros = Seq::new(512, |i: int| 0u8);
    let mark = crate::tar::header::gnu_mark();
    assert(mark.len() == 8);
    let b0 = replaced(zeros, 257, mark);
    lemma_replaced(zeros, 257, mark);
    long_field_round_trips(0);
    lemma_replaced(b0, 136, octal_field(12, 0));
    let b = blank();
    lemma_same_field(b, b0, 257, 8);
    let h0 = b.update(156, type_byte(spec.ty));
    lemma_same_field(h0, b, 257, 8);
    let h1 = replaced(h0, 124, number_field(12, spec.size));
    lemma_replaced(h0, 124, number_field(12, spec.size));
    lemma_same_field(h1, h0, 257, 8);
    let h2 = replaced(h1, 100, octal_field(8, spec.mode as nat));
    lemma_replaced(h1, 100, octal_field(8, spec.mode as nat));
    lemma_same_field(h2, h1, 257, 8);
    lemma_same_field(h2, h1, 124, 12);
    let h3 = replaced(h2, 108, number_field(8, spec.uid));
    lemma_replaced(h2, 108, number_field(8, spec.uid));
    lemma_same_field(h3, h2, 257, 8);
    lemma_same_field(h3, h2, 124, 12);
    lemma_same_field(h3, h2, 100, 8);
    let h4 = replaced(h3, 116, number_field(8, spec.gid));
    lemma_replaced(h3, 116, number_field(8, spec.gid));
    lemma_same_field(h4, h3, 257, 8);
    lemma_same_field(h4, h3, 124, 12);
    lemma_same_field(h4, h3, 100, 8);
    lemma_same_field(h4, h3, 108, 8);
    let h5 = replaced(h4, 136, number_field(12, spec.mtime));
    lemma_replaced(h4, 136, number_field(12, spec.mtime));
    lemma_same_field(h5, h4, 257, 8);
    lemma_same_field(h5, h4, 124, 12);
    lemma_same_field(h5, h4, 100, 8);
    lemma_same_field(h5, h4, 108, 8);
    lemma_same_field(h5, h4, 116, 8);
}

/// A change outside the numbers leaves them.
proof fn lemma_numbers_kept(before: Seq<u8>, after: Seq<u8>, spec: EntrySpec)
    requires
        holds_numbers(before, spec),
        after.len() == 512,
        forall|i: int| 100 <= i < 157 ==> after[i] == before[i],
        forall|i: int| 257 <= i < 265 ==> after[i] == before[i],
    ensures
        holds_numbers(after, spec),
{
    lemma_same_field(after, before, 257, 8);
    lemma_same_field(after, before, 124, 12);
    lemma_same_field(after, before, 100, 8);
    lemma_same_field(after, before, 108, 8);
    lemma_same_field(after, before, 116, 8);
    lemma_same_field(after, before, 136, 12);
}

/// Builds the header of an entry. It holds the entry's numbers, whatever
/// names were written beside them.
#[verifier::rlimit(40)]
pub fn build_header(spec: &EntrySpec) -> (r: Result<Vec<u8>, Error>)
    requires
        spec.ty != EntryType::Other,
    ensures
        match r {
            Ok(h) => entry_header(*spec, Ok(h@)),
            Err(e) => e@ is Runtime && entry_header(*spec, Err(e@->Runtime_0)),
        },
        r matches Ok(h) ==> holds_names(h@, *spec),
        r matches Ok(h) ==> holds_numbers(h@, *spec) && holds_devices(h@, *spec),
{
    proof {
        lemma_plain_header(*spec);
        long_field_round_trips(spec.size);
        long_field_round_trips(spec.mtime);
        short_field_round_trips(spec.uid);
        short_field_round_trips(spec.gid);
        digits_round_trip(spec.mode);
        long_field_round_trips(0);
    }
    let mut h = new_gnu();
    h = set_entry_type(h, spec.ty);
    h = set_size(h, spec.size);
    h = set_mode(h, spec.mode);
    h = set_uid(h, spec.uid);
    h = set_gid(h, spec.gid);
    h = set_mtime(h, spec.mtime);
    assert(h@ == plain_header(*spec));
    if let Some(name) = &spec.user_name {
        let ghost before = h@;
        match set_username(h, name.as_str()) {
            Ok(next) => {
                h = next;
                proof {
                    lemma_replaced(before, 265, name_field(name@, 32));
                    lemma_numbers_kept(before, h@, *spec);
                    lemma_name_written(before, 265, 32, name@);
                }
            },
            Err(e) => return Err(Error::Runtime(e)),
        }
    }
    if let Some(name) = &spec.group_name {
        let ghost before = h@;
        match set_groupname(h, name.as_str()) {
            Ok(next) => {
                h = next;
                proof {
                    lemma_replaced(before, 297, name_field(name@, 32));
                    lemma_numbers_kept(before, h@, *spec);
                    lemma_name_written(before, 297, 32, name@);
                    lemma_same_field(h@, before, 265, 32);
                }
            },
            Err(e) => return Err(Error::Runtime(e)),
        }
    }
    if let Some(name) = &spec.link_name {
        let ghost before = h@;
        match set_link_name(h, name.as_str()) {
            Ok(next) => {
                h = next;
                proof {
                    assert forall|i: int| 100 <= i < 157 implies h@[i] == before[i] by {
                        assert(h@.take(157)[i] == before.take(157)[i]);
                    }
                    assert forall|i: int| 257 <= i < 512 implies h@[i] == before[i] by {
                        assert(h@.skip(257)[i - 257] == before.skip(257)[i - 257]);
                    }
                    lemma_numbers_kept(before, h@, *spec);
                    lemma_same_field(h@, before, 265, 32);
                    lemma_same_field(h@, before, 297, 32);
                    if tidy(name@) {
                        lemma_name_written(before, 157, 100, name@);
                    }
                }
            },
            Err(e) => return Err(Error::Runtime(e)),
        }
    }
    if let Some(n) = spec.device_major {
        let ghost before = h@;
        match set_device_major(h, n) {
            Ok(next) => {
                h = next;
                proof {
                    digits_round_trip(n);
                    lemma_replaced(before, 329, octal_field(8, n as nat));
                    lemma_numbers_kept(before, h@, *spec);
                    lemma_same_field(h@, before, 157, 100);
                    lemma_same_field(h@, before, 265, 32);
                    lemma_same_field(h@, before, 297, 32);
                }
            },
            Err(e) => return Err(Error::Runtime(e)),
        }
    }
    if let Some(n) = spec.device_minor {
        let ghost before = h@;
        match set_device_minor(h, n) {
            Ok(next) => {
                h = next;
                proof {
                    digits_round_trip(n);
                    lemma_replaced(before, 337, octal_field(8, n as nat));
                    lemma_numbers_kept(before, h@, *spec);
                    lemma_same_field(h@, before, 157, 100);
                    lemma_same_field(h@, before, 265, 32);
                    lemma_same_field(h@, before, 297, 32);
                    lemma_same_field(h@, before, 329, 8);
                }
            },
            Err(e) => return Err(Error::Runtime(e)),
        }
    }
    Ok(h)
}

} // verus!

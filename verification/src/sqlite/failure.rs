//! What goes wrong in the database library.

use vstd::prelude::*;
use vstd::utf8::{encode_utf8, valid_utf8};

verus! {

broadcast use vstd::string::group_string_axioms;

pub const SQLITE_OK: i32 = 0;

pub const SQLITE_BUSY: i32 = 5;

pub const SQLITE_LOCKED: i32 = 6;

pub const SQLITE_ROW: i32 = 100;

pub const SQLITE_DONE: i32 = 101;

/// The text that `String::from_utf8_lossy` makes of bytes.
pub uninterp spec fn lossy_text(bytes: Seq<u8>) -> Seq<char>;

/// `String::from_utf8_lossy` gives bytes that are valid UTF-8 back as they
/// are. What it puts in place of others is left unsaid but for its name.
#[verifier::external_body]
pub(crate) fn decode_lossy(bytes: &Vec<u8>) -> (s: String)
    ensures
        s@ == lossy_text(bytes@),
        valid_utf8(bytes@) ==> encode_utf8(s@) == bytes@,
{
    String::from_utf8_lossy(bytes).into_owned()
}

/// A failure of the database library: its code and its message. A database
/// that is busy or locked may be tried again.
#[derive(Debug)]
pub struct SqliteFailure {
    pub busy: bool,
    pub code: i32,
    pub message: String,
}

/// Whether a code says that the database is busy.
pub open spec fn busy_code(rc: i32) -> bool {
    rc == SQLITE_BUSY || rc == SQLITE_LOCKED
}

/// The message of a failure, if the library has one.
pub open spec fn failure_message(message: Option<Seq<u8>>) -> Seq<char> {
    match message {
        Some(bytes) => lossy_text(bytes),
        None => "<unknown>"@,
    }
}

/// The content of a byte string, if there is one.
pub open spec fn bytes_option(bytes: Option<Vec<u8>>) -> Option<Seq<u8>> {
    match bytes {
        Some(b) => Some(b@),
        None => None,
    }
}

/// The failure with the code `rc` and the message that the library gives it.
pub fn map_sqlite_error(rc: i32, message: &Option<Vec<u8>>) -> (e: SqliteFailure)
    ensures
        e.code == rc,
        e.busy == busy_code(rc),
        e.message@ == failure_message(bytes_option(*message)),
        message matches Some(bytes) ==> (valid_utf8(bytes@) ==> encode_utf8(e.message@) == bytes@),
{
    let text = match message {
        Some(bytes) => decode_lossy(bytes),
        None => "<unknown>".to_owned(),
    };
    SqliteFailure { busy: rc == SQLITE_BUSY || rc == SQLITE_LOCKED, code: rc, message: text }
}

/// The outcome of a call that answers with a code alone.
pub fn check_code(rc: i32) -> (r: Result<(), i32>)
    ensures
        r == if rc == SQLITE_OK {
            Ok::<(), i32>(())
        } else {
            Err(rc)
        },
{
    if rc != SQLITE_OK {
        Err(rc)
    } else {
        Ok(())
    }
}

} // verus!

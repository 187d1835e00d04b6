//! The arguments that a database is opened with.

use vstd::prelude::*;
use vstd::utf8::encode_utf8;
use crate::console::data::bytes_of;
use crate::error::{outcome, viewed, Error, ErrorView};
use crate::shell::paths::{as_path, path_text, PathArg};
use crate::text::{decimal, push_decimal};
use crate::value::Value;

verus! {

broadcast use vstd::string::group_string_axioms;

pub const DEFAULT_RETRIES: u32 = 10;

pub const DEFAULT_MIN_WAIT: u32 = 1;

pub const DEFAULT_MAX_WAIT: u32 = 1000;

/// How often and how patiently a busy database is tried again. Waits are in
/// milliseconds.
#[derive(Clone, Copy, Debug, PartialEq, Eq, Structural)]
pub struct RetryOptions {
    pub retries: u32,
    pub min_wait: u32,
    pub max_wait: u32,
}

/// A count given as an argument: an integer that a `u32` holds.
pub open spec fn count_result(value: Option<Value>, default: u32, problem: Seq<char>) -> Result<
    u32,
    ErrorView,
> {
    match value {
        None => Ok(default),
        Some(Value::Int(n)) => if !(i64::MIN <= n <= i64::MAX) {
            Err(ErrorView::Type(problem))
        } else if 0 <= n <= u32::MAX {
            Ok(n as u32)
        } else {
            Err(ErrorView::Overflow)
        },
        Some(_) => Err(ErrorView::Type(problem)),
    }
}

/// A count given as an argument.
fn count_arg(value: &Option<Value>, default: u32, problem: &str) -> (r: Result<u32, Error>)
    ensures
        outcome(r) == count_result(*value, default, problem@),
{
    match value {
        None => Ok(default),
        Some(Value::Int(n)) => {
            let n: i128 = *n;
            if n < i64::MIN as i128 || n > i64::MAX as i128 {
                Err(Error::Type(problem.to_owned()))
            } else if 0 <= n && n <= u32::MAX as i128 {
                Ok(n as u32)
            } else {
                Err(Error::Overflow)
            }
        },
        Some(_) => Err(Error::Type(problem.to_owned())),
    }
}

/// The options that the arguments say, checked in order.
pub open spec fn retry_result(
    retries: Option<Value>,
    min_wait: Option<Value>,
    max_wait: Option<Value>,
) -> Result<RetryOptions, ErrorView> {
    match count_result(retries, DEFAULT_RETRIES, "busy_retries: expected int"@) {
        Err(e) => Err(e),
        Ok(n) => match count_result(min_wait, DEFAULT_MIN_WAIT, "busy_min_wait: expected int"@) {
            Err(e) => Err(e),
            Ok(low) => match count_result(
                max_wait,
                DEFAULT_MAX_WAIT,
                "busy_max_wait: expected int"@,
            ) {
                Err(e) => Err(e),
                Ok(high) => Ok(RetryOptions { retries: n, min_wait: low, max_wait: high }),
            },
        },
    }
}

/// The options that the arguments say.
pub fn retry_options(
    retries: &Option<Value>,
    min_wait: &Option<Value>,
    max_wait: &Option<Value>,
) -> (r: Result<RetryOptions, Error>)
    ensures
        outcome(r) == retry_result(*retries, *min_wait, *max_wait),
{
    let n: u32 = match count_arg(retries, DEFAULT_RETRIES, "busy_retries: expected int") {
        Ok(n) => n,
        Err(e) => return Err(e),
    };
    let low: u32 = match count_arg(min_wait, DEFAULT_MIN_WAIT, "busy_min_wait: expected int") {
        Ok(n) => n,
        Err(e) => return Err(e),
    };
    let high: u32 = match count_arg(max_wait, DEFAULT_MAX_WAIT, "busy_max_wait: expected int") {
        Ok(n) => n,
        Err(e) => return Err(e),
    };
    Ok(RetryOptions { retries: n, min_wait: low, max_wait: high })
}

/// The path of a database that an argument gives.
pub open spec fn path_result(path: PathArg) -> Result<Seq<char>, ErrorView> {
    match path_text(path) {
        Some(s) => Ok(s),
        None => Err(ErrorView::Type("path: expected str"@)),
    }
}

/// The path of a database that an argument gives.
pub fn path_arg(path: &PathArg) -> (r: Result<String, Error>)
    ensures
        viewed(r) == path_result(*path),
{
    match as_path(path) {
        Some(s) => Ok(s),
        None => Err(Error::Type("path: expected str".to_owned())),
    }
}

/// The arguments that a database is opened with.
#[derive(Debug)]
pub struct OpenArgs {
    pub path: PathArg,
    pub retries: Option<Value>,
    pub min_wait: Option<Value>,
    pub max_wait: Option<Value>,
}

/// What the arguments say: the path is looked at first, for its type and then
/// for zeros, and the options after it.
pub open spec fn open_result(args: OpenArgs) -> Result<(Seq<char>, RetryOptions), ErrorView> {
    match path_result(args.path) {
        Err(e) => Err(e),
        Ok(path) => match zero_problem(encode_utf8(path)) {
            Err(e) => Err(e),
            Ok(()) => match retry_result(args.retries, args.min_wait, args.max_wait) {
                Err(e) => Err(e),
                Ok(options) => Ok((path, options)),
            },
        },
    }
}

/// The path and the options that a database is opened with.
pub fn open_args(args: &OpenArgs) -> (r: Result<(String, RetryOptions), Error>)
    ensures
        match open_result(*args) {
            Err(e) => r is Err && r->Err_0@ == e,
            Ok((path, options)) => r is Ok && r->Ok_0.0@ == path && r->Ok_0.1 == options,
        },
{
    let path = match path_arg(&args.path) {
        Ok(path) => path,
        Err(e) => return Err(e),
    };
    match check_zero(bytes_of(path.as_str()).as_slice()) {
        Ok(()) => {},
        Err(e) => return Err(e),
    }
    match retry_options(&args.retries, &args.min_wait, &args.max_wait) {
        Ok(options) => Ok((path, options)),
        Err(e) => Err(e),
    }
}

/// Where the first zero of some bytes stands; their number if none does.
pub open spec fn first_zero(bytes: Seq<u8>) -> int
    decreases bytes.len(),
{
    if bytes.len() == 0 || bytes[0] == 0 {
        0
    } else {
        1 + first_zero(bytes.skip(1))
    }
}

/// The first zero is a zero, and none stands before it.
pub proof fn first_zero_is_first(bytes: Seq<u8>)
    ensures
        0 <= first_zero(bytes) <= bytes.len(),
        first_zero(bytes) < bytes.len() ==> bytes[first_zero(bytes)] == 0,
        forall|i: int| 0 <= i < first_zero(bytes) ==> bytes[i] != 0,
    decreases bytes.len(),
{
    if bytes.len() > 0 && bytes[0] != 0 {
        first_zero_is_first(bytes.skip(1));
        assert forall|i: int| 0 <= i < first_zero(bytes) implies bytes[i] != 0 by {
            if i > 0 {
                assert(bytes.skip(1)[i - 1] == bytes[i]);
            }
        }
    }
}

/// What is wrong with bytes that shall end at the first zero: that they hold
/// one. The words are those of the standard library; that it is an error of
/// running is this library's own choice.
pub open spec fn zero_problem(bytes: Seq<u8>) -> Result<(), ErrorView> {
    if first_zero(bytes) < bytes.len() {
        Err(
            ErrorView::Runtime(
                "nul byte found in provided data at position: "@ + decimal(first_zero(bytes) as nat),
            ),
        )
    } else {
        Ok(())
    }
}

/// Checks that bytes hold no zero, so that a zero can end them.
pub fn check_zero(bytes: &[u8]) -> (r: Result<(), Error>)
    ensures
        outcome(r) == zero_problem(bytes@),
{
    let mut i: usize = 0;
    assert(bytes@.skip(0) =~= bytes@);
    while i < bytes.len()
        invariant
            i <= bytes@.len(),
            first_zero(bytes@) == i + first_zero(bytes@.skip(i as int)),
        decreases bytes@.len() - i,
    {
        proof {
            assert(bytes@.skip(i as int)[0] == bytes@[i as int]);
            assert(bytes@.skip(i as int).skip(1) =~= bytes@.skip(i + 1));
        }
        if bytes[i] == 0 {
            let mut message = "nul byte found in provided data at position: ".to_owned();
            push_decimal(&mut message, i as u128);
            return Err(Error::Runtime(message));
        }
        i = i + 1;
    }
    proof {
        assert(bytes@.skip(i as int).len() == 0);
    }
    Ok(())
}

} // verus!

//! What the shell itself writes to the terminal.

use vstd::prelude::*;
use crate::error::{viewed, Error, ErrorView};
use crate::term::filter::{filtered, ModeView};
use crate::term::render::Arg;
use crate::term::texts::{create_preformatted_text, echo, echoed, Text};
use crate::value::Value;

verus! {

broadcast use vstd::string::group_string_axioms;

/// What `echo` writes: its arguments with spaces between, and the end of the
/// line.
pub fn echo_line(ansi: bool, args: &Vec<Arg>) -> (r: Result<String, Error>)
    ensures
        viewed(r) == match echoed(args@, args@.len(), ansi) {
            Ok(s) => Ok(s + "\n"@),
            Err(e) => Err(e),
        },
{
    match echo(ansi, args) {
        Ok(line) => {
            let mut line = line;
            line.append("\n");
            Ok(line)
        },
        Err(e) => Err(e),
    }
}

/// Text from a string that may carry styling of its own.
pub fn preformat(value: &Value) -> (r: Result<Text, Error>)
    ensures
        viewed(r) == match *value {
            Value::Str(s) => Ok(filtered(ModeView::Preformat, s@)),
            _ => Err(ErrorView::Type("preformat: expected str"@)),
        },
{
    match value {
        Value::Str(s) => Ok(create_preformatted_text(s.as_str())),
        _ => Err(Error::Type("preformat: expected str".to_owned())),
    }
}

} // verus!

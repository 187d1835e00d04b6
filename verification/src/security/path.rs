//! Where in a declarative specification something stands, for messages.

use vstd::prelude::*;
use crate::error::{outcome, Error, ErrorView};
use crate::text::{decimal, push_decimal};

verus! {

broadcast use vstd::string::group_string_axioms;

/// A position inside a declarative specification.
#[derive(Debug)]
pub struct SpecPath {
    text: String,
}

impl View for SpecPath {
    type V = Seq<char>;

    closed spec fn view(&self) -> Seq<char> {
        self.text@
    }
}

/// The position under a key.
pub open spec fn under_key(path: Seq<char>, name: Seq<char>) -> Seq<char> {
    path + "."@ + name
}

/// The position of an entry.
pub open spec fn at_index(path: Seq<char>, index: nat) -> Seq<char> {
    path + "["@ + decimal(index) + "]"@
}

impl SpecPath {
    /// The specification itself, by its name.
    pub fn root(name: &str) -> (p: SpecPath)
        ensures
            p@ == name@,
    {
        SpecPath { text: name.to_owned() }
    }

    /// The position under a key.
    pub fn key(&self, name: &str) -> (p: SpecPath)
        ensures
            p@ == under_key(self@, name@),
    {
        let mut text = self.text.clone();
        text.append(".");
        text.append(name);
        SpecPath { text }
    }

    /// The position of an entry.
    pub fn index(&self, index: usize) -> (p: SpecPath)
        ensures
            p@ == at_index(self@, index as nat),
    {
        let mut text = self.text.clone();
        text.append("[");
        push_decimal(&mut text, index as u128);
        text.append("]");
        SpecPath { text }
    }

    /// The position as text.
    pub fn display(&self) -> (s: String)
        ensures
            s@ == self@,
    {
        self.text.clone()
    }

    /// A message about this position.
    pub fn message(&self, what: &str) -> (s: String)
        ensures
            s@ == self@ + what@,
    {
        let mut text = self.text.clone();
        text.append(what);
        text
    }

    /// An error about a value at this position.
    pub fn value_error(&self, what: &str) -> (e: Error)
        ensures
            e@ == ErrorView::Value(self@ + what@),
    {
        Error::Value(self.message(what))
    }

    /// An error about a type at this position.
    pub fn type_error(&self, what: &str) -> (e: Error)
        ensures
            e@ == ErrorView::Type(self@ + what@),
    {
        Error::Type(self.message(what))
    }

    /// The error of a key that is given twice.
    pub fn duplicate_key(&self, name: &str) -> (e: Error)
        ensures
            e@ == duplicate_key(self@, name@),
    {
        let mut text = self.message(": duplicate key `");
        text.append(name);
        text.append("`");
        Error::Value(text)
    }

    /// The error of a key that has no meaning.
    pub fn unknown_key(&self, name: &str) -> (e: Error)
        ensures
            e@ == unknown_key(self@, name@),
    {
        let mut text = self.message(": unknown key `");
        text.append(name);
        text.append("`");
        Error::Value(text)
    }

    /// The error that something outside reports of this position.
    pub fn reported(&self, error: &str) -> (e: Error)
        ensures
            e@ == reported(self@, error@),
    {
        let mut text = self.message(": ");
        text.append(error);
        Error::Value(text)
    }

    /// What was packed or read at this position, or what is reported of it.
    pub fn packed<T>(&self, packed: Result<T, String>) -> (r: Result<T, Error>)
        ensures
            outcome(r) == match packed {
                Ok(v) => Ok(v),
                Err(e) => Err(reported(self@, e@)),
            },
    {
        match packed {
            Ok(v) => Ok(v),
            Err(e) => Err(self.reported(e.as_str())),
        }
    }
}

/// What was packed or read for a constructor, which reports no position.
pub fn constructed<T>(packed: Result<T, String>) -> (r: Result<T, Error>)
    ensures
        outcome(r) == match packed {
            Ok(v) => Ok(v),
            Err(e) => Err(ErrorView::Value(e@)),
        },
{
    match packed {
        Ok(v) => Ok(v),
        Err(e) => Err(Error::Value(e)),
    }
}

/// The error of a key that is given twice.
pub open spec fn duplicate_key(path: Seq<char>, name: Seq<char>) -> ErrorView {
    ErrorView::Value(path + ": duplicate key `"@ + name + "`"@)
}

/// The error of a key that has no meaning.
pub open spec fn unknown_key(path: Seq<char>, name: Seq<char>) -> ErrorView {
    ErrorView::Value(path + ": unknown key `"@ + name + "`"@)
}

/// The error of keys that are not symbols.
pub open spec fn symbol_keys(path: Seq<char>) -> ErrorView {
    ErrorView::Value(path + ": keys must be symbols"@)
}

/// The error that something outside reports of a position.
pub open spec fn reported(path: Seq<char>, error: Seq<char>) -> ErrorView {
    ErrorView::Value(path + ": "@ + error)
}

} // verus!

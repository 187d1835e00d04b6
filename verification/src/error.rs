//! The errors that operations report to the program that called them.

use vstd::prelude::*;

verus! {

/// What went wrong. Most kinds carry the message that is reported.
#[derive(Debug)]
pub enum Error {
    Type(String),
    Value(String),
    State(String),
    Concurrency(String),
    Runtime(String),
    NotSupported,
    InvalidInput(String),
    Unsupported(String),
    NotFound(String),
    Overflow,
    Conflict,
    Index,
    MissingPositional(usize),
    MissingKey(String),
    MissingIndex(i64),
    UnexpectedPositional(usize),
    UnexpectedKey(String),
    Field(String),
}

/// The mathematical content of an [`Error`].
#[verifier::ext_equal]
pub enum ErrorView {
    Type(Seq<char>),
    Value(Seq<char>),
    State(Seq<char>),
    Concurrency(Seq<char>),
    Runtime(Seq<char>),
    NotSupported,
    InvalidInput(Seq<char>),
    Unsupported(Seq<char>),
    NotFound(Seq<char>),
    Overflow,
    Conflict,
    Index,
    MissingPositional(int),
    MissingKey(Seq<char>),
    MissingIndex(i64),
    UnexpectedPositional(int),
    UnexpectedKey(Seq<char>),
    Field(Seq<char>),
}

impl View for Error {
    type V = ErrorView;

    open spec fn view(&self) -> ErrorView {
        match self {
            Error::Type(m) => ErrorView::Type(m@),
            Error::Value(m) => ErrorView::Value(m@),
            Error::State(m) => ErrorView::State(m@),
            Error::Concurrency(m) => ErrorView::Concurrency(m@),
            Error::Runtime(m) => ErrorView::Runtime(m@),
            Error::NotSupported => ErrorView::NotSupported,
            Error::InvalidInput(m) => ErrorView::InvalidInput(m@),
            Error::Unsupported(m) => ErrorView::Unsupported(m@),
            Error::NotFound(m) => ErrorView::NotFound(m@),
            Error::Overflow => ErrorView::Overflow,
            Error::Conflict => ErrorView::Conflict,
            Error::Index => ErrorView::Index,
            Error::MissingPositional(i) => ErrorView::MissingPositional(*i as int),
            Error::MissingKey(k) => ErrorView::MissingKey(k@),
            Error::MissingIndex(i) => ErrorView::MissingIndex(*i),
            Error::UnexpectedPositional(i) => ErrorView::UnexpectedPositional(*i as int),
            Error::UnexpectedKey(k) => ErrorView::UnexpectedKey(k@),
            Error::Field(k) => ErrorView::Field(k@),
        }
    }
}

/// An operation's outcome, with the error seen by its content.
pub open spec fn outcome<T>(r: Result<T, Error>) -> Result<T, ErrorView> {
    match r {
        Ok(value) => Ok(value),
        Err(e) => Err(e@),
    }
}

/// An operation's outcome, with both sides seen by their content.
pub open spec fn viewed<T: View>(r: Result<T, Error>) -> Result<T::V, ErrorView> {
    match r {
        Ok(value) => Ok(value@),
        Err(e) => Err(e@),
    }
}

impl Error {
    /// Another copy of this error.
    pub fn copy(&self) -> (e: Error)
        ensures
            e@ == self@,
    {
        match self {
            Error::Type(m) => Error::Type(m.clone()),
            Error::Value(m) => Error::Value(m.clone()),
            Error::State(m) => Error::State(m.clone()),
            Error::Concurrency(m) => Error::Concurrency(m.clone()),
            Error::Runtime(m) => Error::Runtime(m.clone()),
            Error::NotSupported => Error::NotSupported,
            Error::InvalidInput(m) => Error::InvalidInput(m.clone()),
            Error::Unsupported(m) => Error::Unsupported(m.clone()),
            Error::NotFound(m) => Error::NotFound(m.clone()),
            Error::Overflow => Error::Overflow,
            Error::Conflict => Error::Conflict,
            Error::Index => Error::Index,
            Error::MissingPositional(i) => Error::MissingPositional(*i),
            Error::MissingKey(k) => Error::MissingKey(k.clone()),
            Error::MissingIndex(i) => Error::MissingIndex(*i),
            Error::UnexpectedPositional(i) => Error::UnexpectedPositional(*i),
            Error::UnexpectedKey(k) => Error::UnexpectedKey(k.clone()),
            Error::Field(k) => Error::Field(k.clone()),
        }
    }
}

} // verus!

//! Quoting words for a shell, and splitting a command line into words.

use vstd::prelude::*;
use crate::error::{viewed, Error, ErrorView};
use crate::term::cells::contents;
use crate::text::joined;
use crate::value::Value;

verus! {

broadcast use vstd::string::group_string_axioms;

/// A word as a shell has to be given it.
pub uninterp spec fn quoted(word: Seq<char>) -> Seq<char>;

/// The words of a command line, and whether it ended inside a quotation or
/// after a backslash, in which case its last word is missing.
pub uninterp spec fn shell_words(text: Seq<char>) -> (Seq<Seq<char>>, bool);

/// Whether a shell can be given the word at all.
pub open spec fn quotable(word: Seq<char>) -> bool {
    !word.contains('\0')
}

/// `shlex::try_quote` fails on exactly the words with a nul character. A shell
/// that splits the result gets the word back.
#[verifier::external_body]
fn quote_word(word: &str) -> (r: Option<String>)
    ensures
        match r {
            Some(s) => quotable(word@) && s@ == quoted(word@) && shell_words(s@) == (
                seq![word@],
                false,
            ),
            None => !quotable(word@),
        },
{
    shlex::try_quote(word).ok().map(|s| s.into_owned())
}

/// `shlex::try_join` quotes each word and puts a space between every two. A
/// shell that splits the result gets the words back.
#[verifier::external_body]
fn join_words(words: &Vec<String>) -> (r: Option<String>)
    ensures
        match r {
            Some(s) => {
                &&& forall|i: int| 0 <= i < words@.len() ==> quotable(#[trigger] words@[i]@)
                &&& s@ == joined(Seq::new(words@.len(), |i: int| quoted(words@[i]@)), " "@)
                &&& shell_words(s@) == (contents(words@), false)
            },
            None => exists|i: int| 0 <= i < words@.len() && !quotable(#[trigger] words@[i]@),
        },
{
    shlex::try_join(words.iter().map(|s| s.as_str())).ok()
}

/// All words that `shlex::Shlex` yields, and whether it had an error.
#[verifier::external_body]
fn split_words(text: &str) -> (r: (Vec<String>, bool))
    ensures
        (contents(r.0@), r.1) == shell_words(text@),
{
    let mut shlex = shlex::Shlex::new(text);
    let words: Vec<String> = shlex.by_ref().collect();
    (words, shlex.had_error)
}

/// A word for a shell.
pub fn quote(word: &str) -> (r: Result<String, Error>)
    ensures
        viewed(r) == if quotable(word@) {
            Ok(quoted(word@))
        } else {
            Err(ErrorView::Runtime("cannot shell-quote string containing nul byte"@))
        },
        r matches Ok(s) ==> shell_words(s@) == (seq![word@], false),
{
    match quote_word(word) {
        Some(s) => Ok(s),
        None => Err(Error::Runtime("cannot shell-quote string containing nul byte".to_owned())),
    }
}

/// Words for a shell, as one command line that splits into them again.
pub fn join(words: &Vec<String>) -> (r: Result<String, Error>)
    ensures
        viewed(r) == if forall|i: int| 0 <= i < words@.len() ==> quotable(#[trigger] words@[i]@) {
            Ok(joined(Seq::new(words@.len(), |i: int| quoted(words@[i]@)), " "@))
        } else {
            Err(ErrorView::Runtime("cannot shell-quote string containing nul byte"@))
        },
        r matches Ok(s) ==> shell_words(s@) == (contents(words@), false),
{
    match join_words(words) {
        Some(s) => Ok(s),
        None => Err(Error::Runtime("cannot shell-quote string containing nul byte".to_owned())),
    }
}

/// The words of a command line that are still to come.
pub struct Iter {
    words: Vec<String>,
    at: usize,
    had_error: bool,
}

impl Iter {
    #[verifier::type_invariant]
    spec fn inv(self) -> bool {
        self.at <= self.words@.len()
    }

    /// The words still to come.
    pub closed spec fn rest(self) -> Seq<Seq<char>> {
        contents(self.words@).skip(self.at as int)
    }

    /// Whether an error follows them.
    pub closed spec fn ends_in_error(self) -> bool {
        self.had_error
    }

    /// The words `words`, followed by an error or not.
    pub fn over(words: Vec<String>, had_error: bool) -> (iter: Iter)
        ensures
            iter.rest() == contents(words@),
            iter.ends_in_error() == had_error,
    {
        let iter = Iter { words, at: 0, had_error };
        assert(iter.rest() =~= contents(words@));
        iter
    }

    /// The next word. After the last one comes the error, if there is one.
    pub fn next(&mut self) -> (r: Result<Option<String>, Error>)
        ensures
            final(self).ends_in_error() == old(self).ends_in_error(),
            match r {
                Ok(Some(word)) => old(self).rest() == seq![word@] + final(self).rest(),
                Ok(None) => old(self).rest().len() == 0 && !old(self).ends_in_error()
                    && final(self).rest() == old(self).rest(),
                Err(e) => old(self).rest().len() == 0 && old(self).ends_in_error()
                    && final(self).rest() == old(self).rest() && e@ == ErrorView::Runtime(
                    "parse error"@,
                ),
            },
    {
        proof {
            use_type_invariant(&*self);
        }
        if self.at < self.words.len() {
            let at = self.at;
            let word = self.words[at].clone();
            self.at = at + 1;
            assert(old(self).rest() =~= seq![word@] + self.rest());
            return Ok(Some(word));
        }
        if self.had_error {
            return Err(Error::Runtime("parse error".to_owned()));
        }
        Ok(None)
    }
}

/// The words of a command line.
pub fn split(text: &Value) -> (r: Result<Iter, Error>)
    ensures
        match *text {
            Value::Str(s) => r is Ok && (r->Ok_0.rest(), r->Ok_0.ends_in_error()) == shell_words(s@),
            _ => r is Err && r->Err_0@ == ErrorView::Type("expected `str`"@),
        },
{
    match text {
        Value::Str(s) => {
            let (words, had_error) = split_words(s.as_str());
            Ok(Iter::over(words, had_error))
        },
        _ => Err(Error::Type("expected `str`".to_owned())),
    }
}

} // verus!

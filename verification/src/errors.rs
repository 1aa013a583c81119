//! The one way in which the library fails: a text that is no identifier.
use vstd::prelude::*;
use core::fmt::{Error, Formatter};
use crate::formatter::written;

verus! {

/// A text could not be read as an identifier. The error keeps the text, so
/// that whoever reports the failure can show it.
#[derive(Debug)]
pub struct ParseError {
    input: String,
}

impl View for ParseError {
    type V = Seq<char>;

    /// The text that was refused.
    closed spec fn view(&self) -> Seq<char> {
        self.input@
    }
}

impl ParseError {
    /// The error for the refused text `input`.
    pub fn new(input: &str) -> (r: ParseError)
        ensures
            r@ == input@,
    {
        ParseError { input: input.to_owned() }
    }

    /// The text that was refused.
    pub fn input(&self) -> (r: &str)
        ensures
            r@ == self@,
    {
        self.input.as_str()
    }

    /// What `Display` writes for this error.
    pub open spec fn message(&self) -> Seq<char> {
        "Invalid Base64 representation for UUID: '"@ + self@ + "'"@
    }
}

impl Clone for ParseError {
    fn clone(&self) -> (r: ParseError)
        ensures
            r@ == self@,
    {
        ParseError { input: self.input.clone() }
    }
}

impl core::fmt::Display for ParseError {
    /// Writes [`ParseError::message`].
    fn fmt(&self, f: &mut Formatter<'_>) -> (r: Result<(), Error>)
        ensures
            r is Ok ==> written(*final(f)) == written(*old(f)) + self.message(),
    {
        match f.write_str("Invalid Base64 representation for UUID: '") {
            Ok(()) => {},
            Err(e) => {
                return Err(e);
            },
        }
        match f.write_str(self.input.as_str()) {
            Ok(()) => {},
            Err(e) => {
                return Err(e);
            },
        }
        let r = f.write_str("'");
        assert(r is Ok ==> written(*f) =~= written(*old(f)) + self.message());
        r
    }
}

impl std::error::Error for ParseError {}

} // verus!

//! The worker's error value: a human-readable detail string, optionally
//! tagged with an HTTP-style status code.

use vstd::prelude::*;

verus! {

#[derive(Debug)]
pub struct Error {
    details: String,
    status_code: Option<u16>,
}

pub struct ErrorView {
    pub details: Seq<char>,
    pub status_code: Option<u16>,
}

impl View for Error {
    type V = ErrorView;

    closed spec fn view(&self) -> ErrorView {
        ErrorView { details: self.details@, status_code: self.status_code }
    }
}

impl Error {
    /// An error carrying a message and no particular status code.
    pub fn default(msg: &str) -> (r: Self)
        ensures
            r@.details == msg@,
            r@.status_code is None,
    {
        Error { details: msg.to_owned(), status_code: Option::None }
    }

    /// An error carrying a message and a status code.
    pub fn new_with_status_code(msg: &str, status_code: u16) -> (r: Self)
        ensures
            r@.details == msg@,
            r@.status_code == Some(status_code),
    {
        Error { details: msg.to_owned(), status_code: Option::Some(status_code) }
    }

    /// The status code to report: the tagged one, or an internal server
    /// error when none was set.
    pub fn status_code(&self) -> (c: u16)
        ensures
            c == match self@.status_code {
                Option::Some(code) => code,
                Option::None => 500u16,
            },
    {
        match self.status_code {
            Option::Some(code) => code,
            Option::None => 500,
        }
    }

    /// The detail message.
    pub fn details(&self) -> (r: &str)
        ensures
            r@ == self@.details,
    {
        self.details.as_str()
    }
}

} // verus!

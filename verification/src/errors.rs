//! The ways in which a helper can fail.

use vstd::prelude::*;

verus! {

/// A failure, with a description of the input or mismatch that caused it.
#[derive(Debug, PartialEq, Eq)]
pub enum Error {
    /// Malformed hexadecimal key material, an inconsistent key pair, or an
    /// authorisation message that cannot be opened.
    InvalidInput(String),
    /// A coin amount that cannot be read.
    InvalidAmount(String),
    /// A text that is no well-formed addressing URL.
    InvalidXorUrl(String),
    /// Authorisation was denied or revoked, or the response was of an
    /// unexpected kind.
    AuthError(String),
}

/// What an [`Error`] is in contracts: its kind and the characters of its
/// description.
pub enum ErrorView {
    InvalidInput(Seq<char>),
    InvalidAmount(Seq<char>),
    InvalidXorUrl(Seq<char>),
    AuthError(Seq<char>),
}

impl View for Error {
    type V = ErrorView;

    open spec fn view(&self) -> ErrorView {
        match self {
            Error::InvalidInput(text) => ErrorView::InvalidInput(text@),
            Error::InvalidAmount(text) => ErrorView::InvalidAmount(text@),
            Error::InvalidXorUrl(text) => ErrorView::InvalidXorUrl(text@),
            Error::AuthError(text) => ErrorView::AuthError(text@),
        }
    }
}

impl Error {
    /// The characters of the description.
    pub open spec fn text(&self) -> Seq<char> {
        match self {
            Error::InvalidInput(text) => text@,
            Error::InvalidAmount(text) => text@,
            Error::InvalidXorUrl(text) => text@,
            Error::AuthError(text) => text@,
        }
    }

    /// The description carried by the error.
    pub fn message(&self) -> (text: &String)
        ensures
            text@ == self.text(),
    {
        match self {
            Error::InvalidInput(text) => text,
            Error::InvalidAmount(text) => text,
            Error::InvalidXorUrl(text) => text,
            Error::AuthError(text) => text,
        }
    }
}

/// The result of a helper that can fail.
pub type ResultReturn<T> = Result<T, Error>;

} // verus!

//! Error handling

use vstd::prelude::*;
use vstd::std_specs::convert::FromSpecImpl;

verus! {

/// The error of `std::str::from_utf8`, carried through unread.
#[verifier::external_type_specification]
#[verifier::external_body]
pub struct ExUtf8Error(std::str::Utf8Error);

/// The error of `String::from_utf8`, carried through unread.
#[verifier::external_type_specification]
#[verifier::external_body]
pub struct ExFromUtf8Error(std::string::FromUtf8Error);

/// The error of `http::header::HeaderValue::to_str`, carried through unread.
#[verifier::external_type_specification]
#[verifier::external_body]
pub struct ExToStrError(http::header::ToStrError);

/// What can go wrong while frames and messages are decoded.
#[derive(Debug, PartialEq, Eq, Clone, Copy, Structural)]
pub enum Error {
    /// UTF-8 encoding error
    Utf8,
    /// The header announces a masking key and the input ends before its
    /// four bytes are complete.
    TruncatedMask,
}

impl Error {
    /// The error as a sentence.
    pub fn message(&self) -> (r: &'static str)
        ensures
            r@ == (match *self {
                Error::Utf8 => "UTF-8 encoding error"@,
                Error::TruncatedMask => "masking key is truncated"@,
            }),
    {
        match *self {
            Error::Utf8 => "UTF-8 encoding error",
            Error::TruncatedMask => "masking key is truncated",
        }
    }
}

impl FromSpecImpl<std::str::Utf8Error> for Error {
    open spec fn obeys_from_spec() -> bool {
        true
    }

    open spec fn from_spec(e: std::str::Utf8Error) -> Error {
        Error::Utf8
    }
}

impl From<std::str::Utf8Error> for Error {
    /// Bytes that are no UTF-8 give `Error::Utf8`.
    fn from(e: std::str::Utf8Error) -> (r: Error) {
        Error::Utf8
    }
}

impl FromSpecImpl<std::string::FromUtf8Error> for Error {
    open spec fn obeys_from_spec() -> bool {
        true
    }

    open spec fn from_spec(e: std::string::FromUtf8Error) -> Error {
        Error::Utf8
    }
}

impl From<std::string::FromUtf8Error> for Error {
    /// Bytes that are no UTF-8 give `Error::Utf8`.
    fn from(e: std::string::FromUtf8Error) -> (r: Error) {
        Error::Utf8
    }
}

impl FromSpecImpl<http::header::ToStrError> for Error {
    open spec fn obeys_from_spec() -> bool {
        true
    }

    open spec fn from_spec(e: http::header::ToStrError) -> Error {
        Error::Utf8
    }
}

impl From<http::header::ToStrError> for Error {
    /// A header value that is no text gives `Error::Utf8`.
    fn from(e: http::header::ToStrError) -> (r: Error) {
        Error::Utf8
    }
}

} // verus!

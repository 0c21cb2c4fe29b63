//! Messages: what an application sends and receives.

use crate::error::Error;
use crate::frame::Frame;
use vstd::prelude::*;
use vstd::utf8::decode_utf8;
use vstd::utf8::valid_utf8;

verus! {

/// Why a connection is closed.
#[derive(Debug, Clone, Eq, PartialEq)]
pub struct CloseFrame {
    /// The status code.
    pub code: u16,
    /// The reason as text.
    pub reason: String,
}

/// A message: text, bytes, a close with or without a status, or a frame
/// passed through as it is.
#[derive(Debug, Eq, PartialEq, Clone)]
pub enum Message {
    /// A text message.
    Text(String),
    /// A binary message.
    Binary(Vec<u8>),
    /// A close message; `None` where no status was given.
    Close(Option<CloseFrame>),
    /// A raw frame.
    Frame(Frame),
}

impl Message {
    /// A text message from bytes. The bytes must be valid UTF-8; where they
    /// are not, nothing is replaced or cut and the error is `Error::Utf8`.
    pub fn text(bytes: Vec<u8>) -> (r: Result<Message, Error>)
        ensures
            valid_utf8(bytes@) ==> (r matches Ok(Message::Text(s)) && s@ == decode_utf8(bytes@)),
            !valid_utf8(bytes@) ==> r == Err::<Message, _>(Error::Utf8),
    {
        match string_from_utf8(bytes) {
            Ok(text) => Ok(Message::Text(text)),
            Err(e) => Err(Error::from(e)),
        }
    }

    /// A binary message of the given bytes.
    pub fn binary(bytes: Vec<u8>) -> (r: Message)
        ensures
            r == Message::Binary(bytes),
    {
        Message::Binary(bytes)
    }
}

/// Calls `String::from_utf8`: the string that the bytes encode, and an
/// error exactly where they are not valid UTF-8.
#[verifier::external_body]
fn string_from_utf8(bytes: Vec<u8>) -> (r: Result<String, std::string::FromUtf8Error>)
    ensures
        r is Ok <==> valid_utf8(bytes@),
        r matches Ok(s) ==> s@ == decode_utf8(bytes@),
{
    String::from_utf8(bytes)
}

} // verus!

//! The failures that the library reports.

use vstd::prelude::*;

verus! {

/// A failure of a frame codec or session operation.
///
/// No operation retries: each either succeeds or returns one of these.
#[derive(Debug, Clone, PartialEq, Eq)]
pub enum Error {
    /// No transport candidate accepted a connection.
    ConnectionFailed,
    /// The transport rejected a write, or the payload cannot be framed.
    WriteFailed,
    /// The transport could not supply the requested number of bytes.
    ReadFailed,
    /// A payload was not valid UTF-8, or not valid JSON.
    DecodeFailed,
    /// The remote end answered with an error reply; holds its message.
    RemoteProtocolError(String),
    /// Fewer than eight bytes were available when decoding a header.
    MalformedHeader,
}

/// What an [`Error`] is in contracts: the same cases, with the remote
/// message as a sequence of characters.
pub enum Failure {
    ConnectionFailed,
    WriteFailed,
    ReadFailed,
    DecodeFailed,
    RemoteProtocolError(Seq<char>),
    MalformedHeader,
}

impl View for Error {
    type V = Failure;

    open spec fn view(&self) -> Failure {
        match self {
            Error::ConnectionFailed => Failure::ConnectionFailed,
            Error::WriteFailed => Failure::WriteFailed,
            Error::ReadFailed => Failure::ReadFailed,
            Error::DecodeFailed => Failure::DecodeFailed,
            Error::RemoteProtocolError(message) => Failure::RemoteProtocolError(message@),
            Error::MalformedHeader => Failure::MalformedHeader,
        }
    }
}

impl Error {
    /// The text shown for this failure.
    pub fn message(&self) -> (text: String)
        ensures
            text@ == match self@ {
                Failure::ConnectionFailed => "connection failed"@,
                Failure::WriteFailed => "write failed"@,
                Failure::ReadFailed => "read failed"@,
                Failure::DecodeFailed => "decode failed"@,
                Failure::RemoteProtocolError(message) => message,
                Failure::MalformedHeader => "malformed header"@,
            },
    {
        match self {
            Error::ConnectionFailed => "connection failed".to_string(),
            Error::WriteFailed => "write failed".to_string(),
            Error::ReadFailed => "read failed".to_string(),
            Error::DecodeFailed => "decode failed".to_string(),
            Error::RemoteProtocolError(message) => message.clone(),
            Error::MalformedHeader => "malformed header".to_string(),
        }
    }
}

} // verus!

//! Errors reported by the library.

use vstd::prelude::*;
use vstd::string::StringExecFns;

verus! {

/// The class of an error.
#[derive(Debug, Clone, Copy, PartialEq, Eq, Structural)]
pub enum Code {
    /// A message could not be parsed at all.
    ParseError,
    /// The caller supplied a malformed argument.
    InvalidParams,
    /// The peer answered with an error, or with an envelope that is malformed
    /// or of an unsupported protocol version.
    ServerError,
    /// The connection went away while a request or a subscription was open.
    ConnectionClosed,
    /// A deadline passed or an internal invariant was violated.
    ClientInternalError,
}

/// An error: its class and a message for the reader.
#[derive(Debug, Clone, PartialEq, Eq)]
pub struct Error {
    code: Code,
    message: String,
}

impl Error {
    /// The class of this error, in contracts.
    pub closed spec fn spec_code(&self) -> Code {
        self.code
    }

    /// The message of this error, in contracts.
    pub closed spec fn spec_message(&self) -> Seq<char> {
        self.message@
    }

    /// An error of class `code` that carries `message`.
    pub fn new(code: Code, message: &str) -> (e: Error)
        ensures
            e.spec_code() == code,
            e.spec_message() == message@,
    {
        Error { code, message: String::from_str(message) }
    }

    /// A `ParseError` that carries `message`.
    pub fn parse_error(message: &str) -> (e: Error)
        ensures
            e.spec_code() == Code::ParseError,
            e.spec_message() == message@,
    {
        Error::new(Code::ParseError, message)
    }

    /// An `InvalidParams` error that carries `message`.
    pub fn invalid_params(message: &str) -> (e: Error)
        ensures
            e.spec_code() == Code::InvalidParams,
            e.spec_message() == message@,
    {
        Error::new(Code::InvalidParams, message)
    }

    /// A `ServerError` that carries `message`.
    pub fn server_error(message: &str) -> (e: Error)
        ensures
            e.spec_code() == Code::ServerError,
            e.spec_message() == message@,
    {
        Error::new(Code::ServerError, message)
    }

    /// A `ConnectionClosed` error that carries `message`.
    pub fn connection_closed(message: &str) -> (e: Error)
        ensures
            e.spec_code() == Code::ConnectionClosed,
            e.spec_message() == message@,
    {
        Error::new(Code::ConnectionClosed, message)
    }

    /// A `ClientInternalError` that carries `message`.
    pub fn client_internal_error(message: &str) -> (e: Error)
        ensures
            e.spec_code() == Code::ClientInternalError,
            e.spec_message() == message@,
    {
        Error::new(Code::ClientInternalError, message)
    }

    /// The class of this error.
    pub fn code(&self) -> (c: Code)
        ensures
            c == self.spec_code(),
    {
        self.code
    }

    /// The message of this error.
    pub fn message(&self) -> (m: &str)
        ensures
            m@ == self.spec_message(),
    {
        self.message.as_str()
    }
}

} // verus!

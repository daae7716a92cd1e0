//! The envelope that carries the answer to a request: protocol version,
//! request identifier, and a result or an error.

use crate::error::{Code, Error};
use vstd::prelude::*;
use vstd::string::StringExecFns;

verus! {

/// The one protocol version that this client speaks.
pub open spec fn supported_version() -> Seq<char> {
    "2.0"@
}

/// The message of the error for an envelope of another version.
pub open spec fn unsupported_version_message(version: Seq<char>) -> Seq<char> {
    "server RPC version unsupported: '"@ + version + "' (only '2.0' supported)"@
}

/// The message of the error for an envelope with no result and no error.
pub open spec fn malformed_envelope_message() -> Seq<char> {
    "server returned malformatted JSON (no 'result' or 'error')"@
}

/// A protocol version, as an envelope names it.
#[derive(Debug, Clone, PartialEq, Eq)]
pub struct Version {
    text: String,
}

impl View for Version {
    type V = Seq<char>;

    closed spec fn view(&self) -> Seq<char> {
        self.text@
    }
}

impl Version {
    /// The version that `text` names.
    pub fn new(text: &str) -> (v: Version)
        ensures
            v@ == text@,
    {
        Version { text: String::from_str(text) }
    }

    /// The version that this client speaks.
    pub fn current() -> (v: Version)
        ensures
            v@ == supported_version(),
    {
        Version { text: String::from_str("2.0") }
    }

    /// The text of this version.
    pub fn as_str(&self) -> (s: &str)
        ensures
            s@ == self@,
    {
        self.text.as_str()
    }

    /// Whether this client speaks this version.
    pub fn is_supported(&self) -> (r: bool)
        ensures
            r == (self@ == supported_version()),
    {
        self.text == "2.0".to_owned()
    }

    /// Nothing for the supported version; for any other a `ServerError`
    /// that names it.
    pub fn ensure_supported(&self) -> (r: Result<(), Error>)
        ensures
            self@ == supported_version() ==> r is Ok,
            self@ != supported_version() ==> r is Err && r->Err_0.spec_code() == Code::ServerError
                && r->Err_0.spec_message() == unsupported_version_message(self@),
    {
        if self.is_supported() {
            Ok(())
        } else {
            let mut message = String::from_str("server RPC version unsupported: '");
            message.append(self.text.as_str());
            message.append("' (only '2.0' supported)");
            Err(Error::server_error(message.as_str()))
        }
    }
}

/// A request identifier, as plain values.
pub enum IdView {
    Num(int),
    Str(Seq<char>),
}

/// The identifier that ties a response to its request: a number or a text.
#[derive(Debug, Clone, PartialEq, Eq)]
pub enum Id {
    Num(i64),
    Str(String),
}

impl View for Id {
    type V = IdView;

    open spec fn view(&self) -> IdView {
        match self {
            Id::Num(n) => IdView::Num(*n as int),
            Id::Str(s) => IdView::Str(s@),
        }
    }
}

impl Id {
    /// Whether this identifier and `other` are the same number or the same
    /// text.
    pub fn same(&self, other: &Id) -> (r: bool)
        ensures
            r == (self@ == other@),
    {
        match self {
            Id::Num(a) => match other {
                Id::Num(b) => *a == *b,
                Id::Str(_) => false,
            },
            Id::Str(a) => match other {
                Id::Num(_) => false,
                Id::Str(b) => *a == *b,
            },
        }
    }
}

/// The envelope of a response whose payload is an `R`.
#[derive(Debug, Clone)]
pub struct Wrapper<R> {
    /// Protocol version
    jsonrpc: Version,
    /// Identifier of the request
    id: Id,
    /// Result of the request (if successful)
    result: Option<R>,
    /// Error (if unsuccessful)
    error: Option<Error>,
}

impl<R> Wrapper<R> {
    /// The protocol version, in contracts.
    pub closed spec fn spec_version(&self) -> Version {
        self.jsonrpc
    }

    /// The request identifier, in contracts.
    pub closed spec fn spec_id(&self) -> Id {
        self.id
    }

    /// The result, in contracts.
    pub closed spec fn spec_result(&self) -> Option<R> {
        self.result
    }

    /// The error, in contracts.
    pub closed spec fn spec_error(&self) -> Option<Error> {
        self.error
    }

    /// An envelope of the given parts.
    pub fn new(jsonrpc: Version, id: Id, result: Option<R>, error: Option<Error>) -> (w: Wrapper<R>)
        ensures
            w.spec_version() == jsonrpc,
            w.spec_id() == id,
            w.spec_result() == result,
            w.spec_error() == error,
    {
        Wrapper { jsonrpc, id, result, error }
    }

    /// An envelope of the current protocol version.
    pub fn new_with_id(id: Id, result: Option<R>, error: Option<Error>) -> (w: Wrapper<R>)
        ensures
            w.spec_version()@ == supported_version(),
            w.spec_id() == id,
            w.spec_result() == result,
            w.spec_error() == error,
    {
        Wrapper { jsonrpc: Version::current(), id, result, error }
    }

    /// The protocol version.
    pub fn version(&self) -> (v: &Version)
        ensures
            *v == self.spec_version(),
    {
        &self.jsonrpc
    }

    /// The request identifier.
    pub fn id(&self) -> (id: &Id)
        ensures
            *id == self.spec_id(),
    {
        &self.id
    }

    /// What the envelope carries. An envelope of an unsupported version is
    /// refused with a `ServerError` whatever else it holds. Otherwise the
    /// result if there is one, else the carried error, else a `ServerError`
    /// for an envelope that holds neither.
    pub fn into_result(self) -> (r: Result<R, Error>)
        ensures
            self.spec_version()@ != supported_version() ==> r is Err && r->Err_0.spec_code()
                == Code::ServerError && r->Err_0.spec_message() == unsupported_version_message(
                self.spec_version()@,
            ),
            self.spec_version()@ == supported_version() ==> match (
                self.spec_result(),
                self.spec_error(),
            ) {
                (Some(result), _) => r == Ok::<R, Error>(result),
                (None, Some(error)) => r == Err::<R, Error>(error),
                (None, None) => r is Err && r->Err_0.spec_code() == Code::ServerError
                    && r->Err_0.spec_message() == malformed_envelope_message(),
            },
    {
        match self.jsonrpc.ensure_supported() {
            Err(e) => Err(e),
            Ok(_) => match self.result {
                Some(result) => Ok(result),
                None => match self.error {
                    Some(error) => Err(error),
                    None => Err(
                        Error::server_error(
                            "server returned malformatted JSON (no 'result' or 'error')",
                        ),
                    ),
                },
            },
        }
    }
}

} // verus!

//! The error type of the driver and the kinds of failure it tells apart.

use vstd::prelude::*;

verus! {

/// What went wrong, as a caller needs to tell it apart.
#[derive(Clone, Copy, Debug, PartialEq, Eq, Structural)]
pub enum ErrorKind {
    /// A connection URI that cannot be used: not a URI, an unknown scheme, an unknown option.
    Config,
    /// The byte stream failed: connect, read, write, shutdown, TLS handshake.
    Transport,
    /// The session was not started, the key could not be used, or the server refused the
    /// signature.
    Auth,
    /// The peer sent something the wire format does not allow.
    Protocol,
    /// The server answered a command with one or more error messages.
    Server,
    /// A call that the state of the connection does not allow.
    Misuse,
    /// An error made with [`DriverError::new`]; the driver itself never reports this kind.
    Unclassified,
}

/// An error reported by the driver: a kind and a message for people.
#[derive(Clone, Debug)]
pub struct DriverError {
    pub kind: ErrorKind,
    pub details: String,
}

impl View for DriverError {
    type V = (ErrorKind, Seq<char>);

    open spec fn view(&self) -> (ErrorKind, Seq<char>) {
        (self.kind, self.details@)
    }
}

impl DriverError {
    /// An error that carries `msg` and no particular kind.
    pub fn new(msg: &str) -> (e: DriverError)
        ensures
            e@ == (ErrorKind::Unclassified, msg@),
    {
        DriverError { kind: ErrorKind::Unclassified, details: msg.to_owned() }
    }

    /// An error of the given kind that carries `msg`.
    pub fn with_kind(kind: ErrorKind, msg: &str) -> (e: DriverError)
        ensures
            e@ == (kind, msg@),
    {
        DriverError { kind, details: msg.to_owned() }
    }

    /// The kind of this error.
    pub fn kind(&self) -> (k: ErrorKind)
        ensures
            k == self.kind,
    {
        self.kind
    }

    /// The message of this error.
    pub fn to_string(&self) -> (s: String)
        ensures
            s@ == self.details@,
    {
        self.details.clone()
    }
}

} // verus!

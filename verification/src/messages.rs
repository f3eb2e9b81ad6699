//! The messages that the driver exchanges with the server, as plain values.
//! How a message is serialized is the schema's business; a frame carries the
//! serialized bytes.

use vstd::prelude::*;

verus! {

/// A statement for the server to run.
#[derive(Clone, Debug, PartialEq, Eq)]
pub struct Command {
    pub request_id: u64,
    pub text: String,
}

/// Opens the handshake: who wants a session.
#[derive(Clone, Debug, PartialEq, Eq)]
pub struct BeginSessionRequest {
    pub user_name: String,
}

/// The server's answer to a [`BeginSessionRequest`].
#[derive(Clone, Debug, PartialEq, Eq)]
pub struct BeginSessionResponse {
    pub session_started: bool,
    /// The bytes that the client is to sign.
    pub challenge: Vec<u8>,
}

/// The signed challenge.
#[derive(Clone, Debug, PartialEq, Eq)]
pub struct ClientAuthenticationRequest {
    pub signature: Vec<u8>,
}

/// The server's verdict on the signature.
#[derive(Clone, Debug, PartialEq, Eq)]
pub struct ClientAuthenticationResponse {
    pub authenticated: bool,
}

} // verus!

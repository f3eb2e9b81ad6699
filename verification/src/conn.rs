//! The connection: what has been said so far, and what may be said next.
//!
//! A connection does no I/O. Each method takes what has arrived, or what the
//! caller wants, and gives what is to be sent and the state to go on from.
//! The caller owns the socket: it sends what it is handed, reads, and hands
//! back what it read.

use vstd::prelude::*;
use crate::errors::DriverError;
use crate::errors::ErrorKind;
use crate::framing::BEGIN_SESSION_REQUEST;
use crate::framing::BEGIN_SESSION_RESPONSE;
use crate::framing::CLIENT_AUTHENTICATION_REQUEST;
use crate::framing::CLIENT_AUTHENTICATION_RESPONSE;
use crate::messages::BeginSessionRequest;
use crate::messages::BeginSessionResponse;
use crate::messages::ClientAuthenticationRequest;
use crate::messages::ClientAuthenticationResponse;
use crate::messages::Command;
use crate::results::affected_rows;
use crate::results::agrees_on_row;
use crate::results::consistent;
use crate::results::drain;
use crate::results::next_row;
use crate::results::opened;
use crate::results::ResultSet;
use crate::results::ResultSetView;
use crate::results::ServerResponse;
use crate::results::Value;
use crate::results::ValueView;
use crate::row::agrees;
use crate::signature::rsa_sha512_sign;
use crate::signature::MAX_PEM_LEN;
use crate::uri::descriptor;
use crate::uri::parse_uri;
use crate::uri::scheme_of;
use crate::uri::uri_parts;
use crate::uri::Scheme;
use crate::uri::UriDescriptor;
use crate::uri::UriView;
use crate::wire::varint32;
use crate::wire::Parsed;

verus! {

/// How far a connection has come.
#[derive(Clone, Copy, Debug, PartialEq, Eq, Structural)]
pub enum Phase {
    /// Made from a URI; nothing was sent yet.
    Created,
    /// The session request was handed out; the server's answer is awaited.
    SessionRequested,
    /// The server started a session; its challenge waits for a signature.
    Challenged,
    /// The signature was handed out; the server's verdict is awaited.
    AuthenticationRequested,
    /// Authenticated. Commands are taken unless rows are still to be read.
    Ready,
    /// A command was handed out; the server's response is awaited.
    Executing,
    /// Shut down, by the caller or by a failure. Nothing more is taken.
    Closed,
}

/// What happened, as the caller tells the handshake.
#[derive(Debug)]
pub enum HandshakeEvent {
    /// The transport is connected.
    Connected,
    /// The server answered the session request.
    SessionResponse(BeginSessionResponse),
    /// The identity file was read: its bytes; or it could not be read.
    Identity(Option<Vec<u8>>),
    /// The server gave its verdict on the signature.
    AuthenticationResponse(ClientAuthenticationResponse),
}

/// What the caller is to do next for the handshake.
#[derive(Debug, PartialEq, Eq)]
pub enum HandshakeAction {
    /// Send this request, then read the server's answer to it.
    SendBeginSession(BeginSessionRequest),
    /// Read the file at this path and hand in its bytes.
    LoadIdentity(String),
    /// Send this request, then read the server's verdict.
    SendAuthentication(ClientAuthenticationRequest),
    /// Nothing: the connection is ready for commands.
    Done,
}

/// An event as the handshake sees it: the identity file has become the
/// signature that was made with it.
pub enum EventView {
    Connected,
    SessionResponse { session_started: bool, challenge: Seq<u8> },
    Signature(Option<Seq<u8>>),
    AuthenticationResponse { authenticated: bool },
}

/// [`HandshakeAction`] as contracts speak of it.
pub enum ActionView {
    SendBeginSession { user_name: Seq<char> },
    LoadIdentity { path: Seq<char> },
    SendAuthentication { signature: Seq<u8> },
    Done,
}

impl View for HandshakeAction {
    type V = ActionView;

    open spec fn view(&self) -> ActionView {
        match *self {
            HandshakeAction::SendBeginSession(request) => ActionView::SendBeginSession {
                user_name: request.user_name@,
            },
            HandshakeAction::LoadIdentity(path) => ActionView::LoadIdentity { path: path@ },
            HandshakeAction::SendAuthentication(request) => ActionView::SendAuthentication {
                signature: request.signature@,
            },
            HandshakeAction::Done => ActionView::Done,
        }
    }
}

/// The view of an optional byte string.
pub open spec fn bytes_view(bytes: Option<Vec<u8>>) -> Option<Seq<u8>> {
    match bytes {
        Some(b) => Some(b@),
        None => None,
    }
}

/// What the handshake sees of `event`, where signing with the identity file
/// gave `signature`. A file that could not be read gives no signature.
pub open spec fn seen(event: HandshakeEvent, signature: Option<Seq<u8>>) -> EventView {
    match event {
        HandshakeEvent::Connected => EventView::Connected,
        HandshakeEvent::SessionResponse(response) => EventView::SessionResponse {
            session_started: response.session_started,
            challenge: response.challenge@,
        },
        HandshakeEvent::Identity(Some(_)) => EventView::Signature(signature),
        HandshakeEvent::Identity(None) => EventView::Signature(None),
        HandshakeEvent::AuthenticationResponse(response) => EventView::AuthenticationResponse {
            authenticated: response.authenticated,
        },
    }
}

/// A connection as contracts speak of it.
pub struct ConnView {
    pub uri: UriView,
    pub phase: Phase,
    /// The challenge of the server, from the moment it arrived.
    pub challenge: Seq<u8>,
    /// The result set of the last command that the server accepted.
    pub result_set: Option<ResultSetView>,
}

/// A connection that was just made from `uri`.
pub open spec fn created(uri: UriView) -> ConnView {
    ConnView { uri, phase: Phase::Created, challenge: Seq::empty(), result_set: None }
}

/// The same connection, shut down.
pub open spec fn closed(c: ConnView) -> ConnView {
    ConnView { phase: Phase::Closed, ..c }
}

/// Rows are pending: the server described columns and the end of the rows
/// was not read yet.
pub open spec fn is_streaming(c: ConnView) -> bool {
    &&& c.phase == Phase::Ready
    &&& c.result_set matches Some(rs)
    &&& !rs.end_of_row
}

/// A result set is there and has no more rows.
pub open spec fn is_drained(c: ConnView) -> bool {
    &&& c.phase == Phase::Ready
    &&& c.result_set matches Some(rs)
    &&& rs.end_of_row
}

/// Authenticated, and no result set is there.
pub open spec fn is_ready(c: ConnView) -> bool {
    c.phase == Phase::Ready && c.result_set is None
}

/// Whether a command is taken: the connection is authenticated, open, not
/// waiting for a response, and no rows are pending.
pub open spec fn accepts_command(c: ConnView) -> bool {
    is_ready(c) || is_drained(c)
}

/// The handshake: the state after `event` and what the caller is to do, or
/// the kind of the failure. A refusal by the server and a missing signature
/// fail the authentication and shut the connection; an event that the phase
/// does not wait for is a misuse and changes nothing.
pub open spec fn handshake_step(c: ConnView, event: EventView) -> (ConnView, Result<ActionView, ErrorKind>) {
    match (c.phase, event) {
        (Phase::Created, EventView::Connected) => (
            ConnView { phase: Phase::SessionRequested, ..c },
            Ok(ActionView::SendBeginSession { user_name: c.uri.user }),
        ),
        (Phase::SessionRequested, EventView::SessionResponse { session_started, challenge }) => {
            if session_started {
                (
                    ConnView { phase: Phase::Challenged, challenge, ..c },
                    Ok(ActionView::LoadIdentity { path: c.uri.pkfile }),
                )
            } else {
                (closed(c), Err(ErrorKind::Auth))
            }
        },
        (Phase::Challenged, EventView::Signature(Some(signature))) => (
            ConnView { phase: Phase::AuthenticationRequested, ..c },
            Ok(ActionView::SendAuthentication { signature }),
        ),
        (Phase::Challenged, EventView::Signature(None)) => (closed(c), Err(ErrorKind::Auth)),
        (Phase::AuthenticationRequested, EventView::AuthenticationResponse { authenticated }) => {
            if authenticated {
                (ConnView { phase: Phase::Ready, ..c }, Ok(ActionView::Done))
            } else {
                (closed(c), Err(ErrorKind::Auth))
            }
        },
        _ => (c, Err(ErrorKind::Misuse)),
    }
}

/// Submitting a command: taken where [`accepts_command`] holds, and then a
/// response is awaited; else a misuse that changes nothing.
pub open spec fn execute_step(c: ConnView) -> (ConnView, Result<(), ErrorKind>) {
    if accepts_command(c) {
        (ConnView { phase: Phase::Executing, ..c }, Ok(()))
    } else {
        (c, Err(ErrorKind::Misuse))
    }
}

/// The server's response to a command: error messages fail the command and
/// leave the connection ready, without a result set; else the response opens
/// a result set. A response that no command waits for is a misuse.
pub open spec fn response_step(c: ConnView, response: ServerResponse) -> (
    ConnView,
    Result<(), ErrorKind>,
) {
    if c.phase != Phase::Executing {
        (c, Err(ErrorKind::Misuse))
    } else if response.message@.len() > 0 {
        (ConnView { phase: Phase::Ready, result_set: None, ..c }, Err(ErrorKind::Server))
    } else {
        (ConnView { phase: Phase::Ready, result_set: Some(opened(response)), ..c }, Ok(()))
    }
}

/// Reading the next row from `input`: as [`next_row`] says where rows are
/// pending; `false` at once, and without a byte read, where none are.
pub open spec fn next_step(c: ConnView, input: Seq<u8>) -> (ConnView, Parsed<bool>) {
    if !is_streaming(c) {
        (c, Parsed::Done { value: false, consumed: 0 })
    } else {
        (
            ConnView { result_set: Some(next_row(c.result_set->0, input).0), ..c },
            next_row(c.result_set->0, input).1,
        )
    }
}

/// Reading all pending rows from `input` and keeping the first: as
/// [`drain`] says where rows are pending; no row, and no byte read, where
/// none are.
pub open spec fn query_row_step(c: ConnView, input: Seq<u8>) -> (
    ConnView,
    Parsed<Option<Seq<Option<ValueView>>>>,
) {
    if !is_streaming(c) {
        (c, Parsed::Done { value: None, consumed: 0 })
    } else {
        (
            ConnView { result_set: Some(drain(c.result_set->0, input).0), ..c },
            drain(c.result_set->0, input).1,
        )
    }
}

/// The texts of the first `k` messages, one after the other.
pub open spec fn joined(messages: Seq<String>, k: nat) -> Seq<char>
    decreases k,
{
    if k == 0 {
        Seq::empty()
    } else {
        joined(messages, (k - 1) as nat) + messages[k - 1]@
    }
}

/// The text of the error that reports the server's messages.
pub open spec fn server_error_text(messages: Seq<String>) -> Seq<char> {
    "execute | Error message(s) "@ + joined(messages, messages.len()) + "."@
}

/// Whether `r` is the outcome `expected`: the same action, or an error of
/// the same kind.
pub open spec fn is_outcome<T: View>(r: Result<T, DriverError>, expected: Result<T::V, ErrorKind>) -> bool {
    match expected {
        Ok(v) => r matches Ok(a) && a@ == v,
        Err(kind) => r matches Err(e) && e.kind == kind,
    }
}

/// Whether `r` succeeded or failed as `expected` did, with an error of the
/// same kind.
pub open spec fn is_unit_outcome(r: Result<(), DriverError>, expected: Result<(), ErrorKind>) -> bool {
    match expected {
        Ok(_) => r is Ok,
        Err(kind) => r matches Err(e) && e.kind == kind,
    }
}

/// Whether `r` is a connection just made from the descriptor `d`, or a
/// configuration error where there is none.
pub open spec fn is_created(r: Result<SiodbConn, DriverError>, d: Option<UriView>) -> bool {
    match d {
        Some(v) => r matches Ok(c) && c@ == created(v),
        None => r matches Err(e) && e.kind == ErrorKind::Config,
    }
}

impl HandshakeAction {
    /// The message type under which the request of this action is framed;
    /// `None` where the action sends nothing.
    pub fn message_type(&self) -> (r: Option<u32>)
        ensures
            r == match *self {
                HandshakeAction::SendBeginSession(_) => Some(BEGIN_SESSION_REQUEST),
                HandshakeAction::SendAuthentication(_) => Some(CLIENT_AUTHENTICATION_REQUEST),
                _ => None,
            },
    {
        match self {
            HandshakeAction::SendBeginSession(_) => Some(BEGIN_SESSION_REQUEST),
            HandshakeAction::SendAuthentication(_) => Some(CLIENT_AUTHENTICATION_REQUEST),
            _ => None,
        }
    }

    /// The message type of the answer that the request of this action
    /// waits for; `None` where the action sends nothing.
    pub fn response_type(&self) -> (r: Option<u32>)
        ensures
            r == match *self {
                HandshakeAction::SendBeginSession(_) => Some(BEGIN_SESSION_RESPONSE),
                HandshakeAction::SendAuthentication(_) => Some(CLIENT_AUTHENTICATION_RESPONSE),
                _ => None,
            },
    {
        match self {
            HandshakeAction::SendBeginSession(_) => Some(BEGIN_SESSION_RESPONSE),
            HandshakeAction::SendAuthentication(_) => Some(CLIENT_AUTHENTICATION_RESPONSE),
            _ => None,
        }
    }
}

/// A connection to Siodb.
#[derive(Debug)]
pub struct SiodbConn {
    uri: UriDescriptor,
    phase: Phase,
    challenge: Vec<u8>,
    result_set: Option<ResultSet>,
}

impl View for SiodbConn {
    type V = ConnView;

    closed spec fn view(&self) -> ConnView {
        ConnView {
            uri: self.uri@,
            phase: self.phase,
            challenge: self.challenge@,
            result_set: match self.result_set {
                Some(rs) => Some(rs@),
                None => None,
            },
        }
    }
}

impl SiodbConn {
    /// A connection for the server that `uri` names. Nothing is sent yet:
    /// the caller connects and runs the handshake with
    /// [`SiodbConn::authenticate`].
    pub fn from_uri(uri: UriDescriptor) -> (c: SiodbConn)
        ensures
            c@ == created(uri@),
    {
        SiodbConn { uri, phase: Phase::Created, challenge: Vec::new(), result_set: None }
    }

    /// A connection for the server that the URI names; a configuration
    /// error where [`parse_uri`] refuses the URI. For the two network schemes
    /// the connection is that of the URI's parts; for a Unix socket the host
    /// is the URI's path as this machine's file system spells it.
    pub fn new(uri_str: &str) -> (r: Result<SiodbConn, DriverError>)
        ensures
            match uri_parts(uri_str@) {
                None => r matches Err(e) && e.kind == ErrorKind::Config,
                Some(parts) => if scheme_of(parts.scheme) == Some(Scheme::UnixSocket) {
                    exists|path: Option<Seq<char>>| is_created(r, descriptor(parts, path))
                } else {
                    is_created(r, descriptor(parts, None))
                },
            },
    {
        match parse_uri(uri_str) {
            Ok(uri) => Ok(SiodbConn::from_uri(uri)),
            Err(e) => Err(e),
        }
    }

    /// The descriptor that the connection was made from.
    pub fn uri(&self) -> (u: &UriDescriptor)
        ensures
            u@ == self@.uri,
    {
        &self.uri
    }

    /// How far the connection has come.
    pub fn phase(&self) -> (p: Phase)
        ensures
            p == self@.phase,
    {
        self.phase
    }

    /// Whether rows are pending.
    pub fn is_streaming(&self) -> (r: bool)
        ensures
            r == is_streaming(self@),
    {
        self.phase == Phase::Ready && match &self.result_set {
            Some(rs) => !rs.end_of_row(),
            None => false,
        }
    }

    /// Shuts the connection and reports the failure `kind`.
    fn fail(&mut self, kind: ErrorKind, details: &str) -> (e: DriverError)
        ensures
            e@ == (kind, details@),
            final(self)@ == closed(old(self)@),
    {
        self.phase = Phase::Closed;
        DriverError::with_kind(kind, details)
    }

    /// The error of a call that the state does not allow.
    fn misuse(details: &str) -> (e: DriverError)
        ensures
            e@ == (ErrorKind::Misuse, details@),
    {
        DriverError::with_kind(ErrorKind::Misuse, details)
    }

    /// The handshake, once the signature is made or has failed: with a
    /// signature, the request that carries it; without one, or where the
    /// server's challenge is not what the connection waits on, a failure.
    pub fn signed(&mut self, signature: Option<Vec<u8>>) -> (r: Result<
        HandshakeAction,
        DriverError,
    >)
        ensures
            final(self)@ == handshake_step(
                old(self)@,
                EventView::Signature(bytes_view(signature)),
            ).0,
            is_outcome(
                r,
                handshake_step(old(self)@, EventView::Signature(bytes_view(signature))).1,
            ),
    {
        if self.phase != Phase::Challenged {
            return Err(Self::misuse("authenticate | No challenge to sign."));
        }
        match signature {
            Some(signature) => {
                self.phase = Phase::AuthenticationRequested;
                Ok(HandshakeAction::SendAuthentication(ClientAuthenticationRequest { signature }))
            },
            None => Err(self.fail(ErrorKind::Auth, "Error signing challenge")),
        }
    }

    /// One step of the handshake: takes what happened and says what to do
    /// next. The steps, in order: `Connected` gives the session request;
    /// the server's answer to it gives the path of the identity file; the
    /// bytes of that file give the request with the signed challenge; the
    /// server's verdict gives `Done`.
    ///
    /// The identity file is expected to hold an RSA private key in PEM; the
    /// challenge is signed with it under SHA-512. Which keys make a
    /// signature is for OpenSSL to say: the step goes on as
    /// [`SiodbConn::signed`] does with whatever signature came of it, and
    /// without one where OpenSSL made none or the file is longer than
    /// [`MAX_PEM_LEN`] bytes. An event that the phase does not wait for is
    /// a misuse, and then nothing is signed.
    pub fn authenticate(&mut self, event: HandshakeEvent) -> (r: Result<
        HandshakeAction,
        DriverError,
    >)
        ensures
            exists|signature: Option<Seq<u8>>|
                {
                    &&& final(self)@ == (#[trigger] handshake_step(
                        old(self)@,
                        seen(event, signature),
                    )).0
                    &&& is_outcome(r, handshake_step(old(self)@, seen(event, signature)).1)
                },
            !(event matches HandshakeEvent::Identity(Some(_))) ==> {
                &&& final(self)@ == handshake_step(old(self)@, seen(event, None)).0
                &&& is_outcome(r, handshake_step(old(self)@, seen(event, None)).1)
            },
    {
        let ghost before = self@;
        match event {
            HandshakeEvent::Connected => {
                if self.phase != Phase::Created {
                    assert(handshake_step(before, seen(event, None)).0 == before);
                    return Err(Self::misuse("authenticate | Session already requested."));
                }
                self.phase = Phase::SessionRequested;
                assert(self@ == handshake_step(before, seen(event, None)).0);
                Ok(
                    HandshakeAction::SendBeginSession(
                        BeginSessionRequest { user_name: self.uri.user.clone() },
                    ),
                )
            },
            HandshakeEvent::SessionResponse(response) => {
                if self.phase != Phase::SessionRequested {
                    assert(handshake_step(before, seen(event, None)).0 == before);
                    return Err(Self::misuse("authenticate | No session was requested."));
                }
                if !response.session_started {
                    let e = self.fail(ErrorKind::Auth, "Siodb session not started.");
                    assert(self@ == handshake_step(before, seen(event, None)).0);
                    return Err(e);
                }
                self.challenge = response.challenge;
                self.phase = Phase::Challenged;
                assert(self@ == handshake_step(before, seen(event, None)).0);
                Ok(HandshakeAction::LoadIdentity(self.uri.pkfile.clone()))
            },
            HandshakeEvent::Identity(pem) => {
                let signature: Option<Vec<u8>> = match pem {
                    Some(pem) => {
                        if self.phase == Phase::Challenged && pem.len() <= MAX_PEM_LEN {
                            match rsa_sha512_sign(pem.as_slice(), self.challenge.as_slice()) {
                                Ok(signature) => Some(signature),
                                Err(_) => None,
                            }
                        } else {
                            None
                        }
                    },
                    None => None,
                };
                let r = self.signed(signature);
                assert(self@ == handshake_step(before, seen(event, bytes_view(signature))).0);
                r
            },
            HandshakeEvent::AuthenticationResponse(response) => {
                if self.phase != Phase::AuthenticationRequested {
                    assert(handshake_step(before, seen(event, None)).0 == before);
                    return Err(Self::misuse("authenticate | No signature was sent."));
                }
                if !response.authenticated {
                    let e = self.fail(ErrorKind::Auth, "Siodb session not started.");
                    assert(self@ == handshake_step(before, seen(event, None)).0);
                    return Err(e);
                }
                self.phase = Phase::Ready;
                assert(self@ == handshake_step(before, seen(event, None)).0);
                Ok(HandshakeAction::Done)
            },
        }
    }

    /// Submits a statement: hands out the command to send, with request
    /// id 1, after which the server's response is to be handed to
    /// [`SiodbConn::response`]. Refused as a misuse, with nothing changed,
    /// while rows of an earlier command are pending, before the handshake is
    /// done, while a response is awaited, and after the connection was shut.
    pub fn execute(&mut self, sql: String) -> (r: Result<Command, DriverError>)
        ensures
            final(self)@ == execute_step(old(self)@).0,
            match execute_step(old(self)@).1 {
                Ok(_) => r matches Ok(command) && command.request_id == 1 && command.text == sql,
                Err(kind) => r matches Err(e) && e.kind == kind,
            },
    {
        if self.is_streaming() {
            return Err(Self::misuse("execute | There is still data in the buffer."));
        }
        if self.phase != Phase::Ready {
            return Err(Self::misuse("execute | The connection takes no command."));
        }
        self.phase = Phase::Executing;
        Ok(Command { request_id: 1, text: sql })
    }

    /// Submits a query: the same as [`SiodbConn::execute`]; the rows are
    /// read with [`SiodbConn::next`].
    pub fn query(&mut self, sql: String) -> (r: Result<Command, DriverError>)
        ensures
            final(self)@ == execute_step(old(self)@).0,
            match execute_step(old(self)@).1 {
                Ok(_) => r matches Ok(command) && command.request_id == 1 && command.text == sql,
                Err(kind) => r matches Err(e) && e.kind == kind,
            },
    {
        self.execute(sql)
    }

    /// The text that reports the server's error messages.
    fn server_error(messages: &Vec<String>) -> (e: DriverError)
        ensures
            e@ == (ErrorKind::Server, server_error_text(messages@)),
    {
        let mut text: String = "execute | Error message(s) ".to_owned();
        let mut i: usize = 0;
        while i < messages.len()
            invariant
                i <= messages.len(),
                text@ == "execute | Error message(s) "@ + joined(messages@, i as nat),
            decreases messages.len() - i,
        {
            text.append(messages[i].as_str());
            i += 1;
        }
        text.append(".");
        DriverError::with_kind(ErrorKind::Server, text.as_str())
    }

    /// Takes the server's response to the command that was handed out last.
    /// A response with error messages fails with their texts, one after the
    /// other, and leaves the connection ready for the next command. Any
    /// other response opens a result set: drained at once where it
    /// describes no columns, else with rows pending.
    pub fn response(&mut self, response: ServerResponse) -> (r: Result<(), DriverError>)
        ensures
            final(self)@ == response_step(old(self)@, response).0,
            is_unit_outcome(r, response_step(old(self)@, response).1),
            r matches Err(e) ==> e.kind == ErrorKind::Server ==> e.details@ == server_error_text(
                response.message@,
            ),
    {
        if self.phase != Phase::Executing {
            return Err(Self::misuse("response | No command was submitted."));
        }
        if response.message.len() > 0 {
            let e = Self::server_error(&response.message);
            self.result_set = None;
            self.phase = Phase::Ready;
            return Err(e);
        }
        match ResultSet::new(response) {
            Ok(rs) => {
                self.result_set = Some(rs);
                self.phase = Phase::Ready;
                Ok(())
            },
            Err(e) => Err(e),
        }
    }

    /// Reads the next row of the result set from `input`, the bytes that
    /// have arrived and were not taken yet. `Ok(None)` says that the row is
    /// not complete: call again with more. Else the number says how many
    /// bytes were taken, and the flag whether a row is there for
    /// [`SiodbConn::scan`]; `false` means that no rows are left.
    ///
    /// The rows are counted in 64 bits: the count must have room for one
    /// more.
    pub fn next(&mut self, input: &[u8]) -> (r: Result<Option<(bool, usize)>, DriverError>)
        requires
            is_streaming(old(self)@) ==> old(self)@.result_set->0.row_count < u64::MAX,
        ensures
            final(self)@ == next_step(old(self)@, input@).0,
            agrees(r, next_step(old(self)@, input@).1),
    {
        if !self.is_streaming() {
            return Ok(Some((false, 0)));
        }
        match self.result_set.take() {
            Some(mut rs) => {
                let r = rs.next(input);
                self.result_set = Some(rs);
                r
            },
            None => Ok(Some((false, 0))),
        }
    }

    /// Reads all the rows that are pending from `input` and hands out the
    /// first, `None` where there is none. The rows after it are dropped,
    /// but for the last, which is the row that [`SiodbConn::scan`] then
    /// gives. `Ok(None)` says that `input` does not hold the rows to their
    /// end yet: nothing was taken, call again with more.
    ///
    /// The rows are counted in 64 bits: the count must have room for as many
    /// rows as `input` has bytes.
    pub fn query_row(&mut self, input: &[u8]) -> (r: Result<
        Option<(Option<Vec<Option<Value>>>, usize)>,
        DriverError,
    >)
        requires
            is_streaming(old(self)@) ==> old(self)@.result_set->0.row_count + input@.len()
                <= u64::MAX,
        ensures
            final(self)@ == query_row_step(old(self)@, input@).0,
            agrees_on_row(r, query_row_step(old(self)@, input@).1),
    {
        if !self.is_streaming() {
            return Ok(Some((None, 0)));
        }
        match self.result_set.take() {
            Some(mut rs) => {
                let r = rs.query_row(input);
                self.result_set = Some(rs);
                r
            },
            None => Ok(Some((None, 0))),
        }
    }

    /// The row that [`SiodbConn::next`] read last. There is none before
    /// `next` has returned a row.
    pub fn scan(&self) -> (row: &Vec<Option<Value>>)
        requires
            self@.result_set matches Some(rs) && rs.current_row is Some,
        ensures
            self@.result_set->0.current_row == Some(row.deep_view()),
            row@.len() == self@.result_set->0.server_response.column_description@.len(),
    {
        self.result_set.as_ref().unwrap().current_row().unwrap()
    }

    /// The row that [`SiodbConn::next`] read last, where it has read one.
    pub fn current_row(&self) -> (row: Option<&Vec<Option<Value>>>)
        ensures
            match row {
                Some(cells) => self@.result_set matches Some(rs) && rs.current_row == Some(
                    cells.deep_view(),
                ),
                None => !(self@.result_set matches Some(rs) && rs.current_row is Some),
            },
    {
        match &self.result_set {
            Some(rs) => rs.current_row(),
            None => None,
        }
    }

    /// The number of rows read so far from the result set; 0 without one.
    pub fn get_row_count(&self) -> (n: u64)
        ensures
            n == match self@.result_set {
                Some(rs) => rs.row_count,
                None => 0,
            },
    {
        match &self.result_set {
            Some(rs) => rs.row_count(),
            None => 0,
        }
    }

    /// The number of rows that the last command changed, where the server
    /// said so; else 0.
    pub fn get_affected_row_count(&self) -> (n: u64)
        ensures
            n == match self@.result_set {
                Some(rs) => affected_rows(rs.server_response),
                None => 0,
            },
    {
        match &self.result_set {
            Some(rs) => rs.affected_row_count(),
            None => 0,
        }
    }

    /// Shuts the connection: the caller shuts the transport down in both
    /// directions, and nothing more is taken.
    pub fn close(&mut self) -> (r: Result<(), DriverError>)
        ensures
            r is Ok,
            final(self)@ == closed(old(self)@),
    {
        self.phase = Phase::Closed;
        Ok(())
    }

    /// The transport failed: the error to report, of kind transport. The
    /// connection is shut.
    pub fn transport_failed(&mut self, details: &str) -> (e: DriverError)
        ensures
            e@ == (ErrorKind::Transport, details@),
            final(self)@ == closed(old(self)@),
    {
        self.fail(ErrorKind::Transport, details)
    }

    /// The stream ended where a frame or a row was not complete: the error
    /// to report, of kind protocol. The connection is shut.
    pub fn end_of_stream(&mut self) -> (e: DriverError)
        ensures
            e.kind == ErrorKind::Protocol,
            final(self)@ == closed(old(self)@),
    {
        self.fail(ErrorKind::Protocol, "Truncated frame.")
    }
}

/// The handshake in full: from a new connection, the four events in their
/// order, with a session started, a signature made and the user
/// authenticated, lead to a connection that is ready and takes a command.
/// The session is asked for the user of the URI, the identity file is the
/// one of the URI, and the signature goes out as it was made.
pub proof fn lemma_handshake_leads_to_ready(
    uri: UriView,
    challenge: Seq<u8>,
    signature: Seq<u8>,
)
    ensures
        ({
            let c0 = created(uri);
            let (c1, a1) = handshake_step(c0, EventView::Connected);
            let (c2, a2) = handshake_step(
                c1,
                EventView::SessionResponse { session_started: true, challenge },
            );
            let (c3, a3) = handshake_step(c2, EventView::Signature(Some(signature)));
            let (c4, a4) = handshake_step(
                c3,
                EventView::AuthenticationResponse { authenticated: true },
            );
            &&& a1 == Ok::<ActionView, ErrorKind>(ActionView::SendBeginSession { user_name: uri.user })
            &&& a2 == Ok::<ActionView, ErrorKind>(ActionView::LoadIdentity { path: uri.pkfile })
            &&& a3 == Ok::<ActionView, ErrorKind>(ActionView::SendAuthentication { signature })
            &&& a4 == Ok::<ActionView, ErrorKind>(ActionView::Done)
            &&& c2.challenge == challenge
            &&& is_ready(c4)
            &&& accepts_command(c4)
        }),
{
}

/// The handshake runs once: each event is taken in one phase only, a
/// refusal or a missing signature shuts the connection, and neither a ready
/// nor a shut connection takes any event of the handshake. No step touches
/// the result set or the URI.
pub proof fn lemma_handshake_runs_once(c: ConnView, event: EventView)
    ensures
        handshake_step(c, event).1 is Ok ==> match event {
            EventView::Connected => c.phase == Phase::Created,
            EventView::SessionResponse { session_started, .. } => c.phase
                == Phase::SessionRequested && session_started,
            EventView::Signature(signature) => c.phase == Phase::Challenged && signature is Some,
            EventView::AuthenticationResponse { authenticated } => c.phase
                == Phase::AuthenticationRequested && authenticated,
        },
        handshake_step(c, event).1 == Err::<ActionView, ErrorKind>(ErrorKind::Auth)
            ==> handshake_step(c, event).0.phase == Phase::Closed,
        handshake_step(c, event).1 == Err::<ActionView, ErrorKind>(ErrorKind::Misuse)
            ==> handshake_step(c, event).0 == c,
        c.phase == Phase::Ready || c.phase == Phase::Executing || c.phase == Phase::Closed
            ==> handshake_step(c, event) == (c, Err::<ActionView, ErrorKind>(ErrorKind::Misuse)),
        handshake_step(c, event).0.result_set == c.result_set,
        handshake_step(c, event).0.uri == c.uri,
{
}

/// Drain before submit: while rows are pending a command is refused as a
/// misuse and nothing changes; once the rows are drained it is taken. Rows
/// stay pending until reading the next row says that none is left, and
/// from then on they are drained.
pub proof fn lemma_drain_before_submit(c: ConnView, input: Seq<u8>)
    ensures
        is_streaming(c) ==> execute_step(c) == (c, Err::<(), ErrorKind>(ErrorKind::Misuse)),
        is_drained(c) ==> execute_step(c).1 is Ok,
        is_streaming(c) ==> (is_drained(next_step(c, input).0) <==> next_step(c, input).1
            matches Parsed::Done { value: false, .. }),
        is_streaming(c) ==> is_drained(next_step(c, input).0) || is_streaming(
            next_step(c, input).0,
        ),
        is_drained(c) ==> next_step(c, input) == (c, Parsed::Done { value: false, consumed: 0 }),
{
}

/// Zero-length sentinel: while rows are pending, a row length of zero
/// drains the result set, and reading the next row says that none is left
/// and takes the bytes of the row length alone.
pub proof fn lemma_zero_row_length_drains(c: ConnView, input: Seq<u8>)
    requires
        is_streaming(c),
        varint32(input) matches Parsed::Done { value: 0, .. },
    ensures
        is_drained(next_step(c, input).0),
        next_step(c, input).1 == (Parsed::Done {
            value: false,
            consumed: varint32(input)->consumed,
        }),
        query_row_step(c, input).1 == (Parsed::Done {
            value: None::<Seq<Option<ValueView>>>,
            consumed: varint32(input)->consumed,
        }),
{
}

/// At most one result set, and a sound one: each step of the connection
/// keeps a result set in which a response without columns has no rows and
/// the current row has a cell for each column.
pub proof fn lemma_steps_keep_result_set_consistent(
    c: ConnView,
    input: Seq<u8>,
    response: ServerResponse,
    event: EventView,
)
    requires
        c.result_set matches Some(rs) ==> consistent(rs),
    ensures
        next_step(c, input).0.result_set matches Some(rs) ==> consistent(rs),
        query_row_step(c, input).0.result_set matches Some(rs) ==> consistent(rs),
        response_step(c, response).0.result_set matches Some(rs) ==> consistent(rs),
        execute_step(c).0.result_set == c.result_set,
        handshake_step(c, event).0.result_set == c.result_set,
{
    if is_streaming(c) {
        let rs = c.result_set->0;
        let columns = rs.server_response.column_description@;
        crate::row::lemma_row_consumed(columns, input);
        crate::results::lemma_rows_consumed(columns, input);
    }
}

} // verus!

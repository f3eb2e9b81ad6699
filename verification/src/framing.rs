//! Frames: a varint message type, a varint body length, and the body.
//!
//! The body is a serialized message whose schema is not this module's
//! concern: here it is bytes.

use vstd::prelude::*;
use vstd::slice::slice_subrange;
use vstd::slice::slice_to_vec;
use crate::errors::DriverError;
use crate::errors::ErrorKind;
use crate::wire::lemma_varint32_round_trip;
use crate::wire::lemma_varint64_round_trip;
use crate::wire::lemma_varint_bytes_bounds;
use crate::wire::lemma_varint_scan_consumed;
use crate::wire::max_varint_len;
use crate::wire::read_raw_varint32;
use crate::wire::read_raw_varint64;
use crate::wire::varint32;
use crate::wire::varint64;
use crate::wire::varint_bytes;
use crate::wire::write_raw_bytes;
use crate::wire::write_raw_varint32;
use crate::wire::Parsed;
use crate::wire::Scan;

verus! {

/// Message type of a `Command`, client to server.
pub const COMMAND: u32 = 1;

/// Message type of a `ServerResponse`, server to client.
pub const SERVER_RESPONSE: u32 = 2;

/// Message type of a `BeginSessionRequest`, client to server.
pub const BEGIN_SESSION_REQUEST: u32 = 5;

/// Message type of a `BeginSessionResponse`, server to client.
pub const BEGIN_SESSION_RESPONSE: u32 = 6;

/// Message type of a `ClientAuthenticationRequest`, client to server.
pub const CLIENT_AUTHENTICATION_REQUEST: u32 = 7;

/// Message type of a `ClientAuthenticationResponse`, server to client.
pub const CLIENT_AUTHENTICATION_RESPONSE: u32 = 8;

/// The bytes of the frame that carries `body` under `message_type`.
pub open spec fn frame_bytes(message_type: u32, body: Seq<u8>) -> Seq<u8> {
    varint_bytes(message_type as nat) + varint_bytes(body.len()) + body
}

/// What a reader that waits for `message_type` finds at the start of `s`: the
/// body of the frame and the length of the whole frame; or too few bytes
/// yet; or a malformed varint or another message type, both of which are
/// fatal.
pub open spec fn read_frame(message_type: u32, s: Seq<u8>) -> Parsed<Seq<u8>> {
    match varint32(s) {
        Parsed::Done { value: received, consumed: n } => {
            if received != message_type {
                Parsed::Invalid
            } else {
                match varint64(s.skip(n as int)) {
                    Parsed::Done { value: len, consumed: m } => {
                        if n + m + len <= s.len() {
                            Parsed::Done {
                                value: s.subrange((n + m) as int, (n + m + len) as int),
                                consumed: (n + m + len) as nat,
                            }
                        } else {
                            Parsed::Incomplete
                        }
                    },
                    Parsed::Incomplete => Parsed::Incomplete,
                    Parsed::Invalid => Parsed::Invalid,
                }
            }
        },
        Parsed::Incomplete => Parsed::Incomplete,
        Parsed::Invalid => Parsed::Invalid,
    }
}

/// Frames `body` under `message_type`. A body whose length does not fit the
/// 32 bits of the length field is refused.
pub fn write_message(message_type: u32, body: &[u8]) -> (r: Result<Vec<u8>, DriverError>)
    ensures
        body@.len() <= u32::MAX ==> r is Ok,
        r matches Ok(frame) ==> body@.len() <= u32::MAX && frame@ == frame_bytes(
            message_type,
            body@,
        ),
        r matches Err(e) ==> e.kind == ErrorKind::Protocol,
{
    if body.len() > u32::MAX as usize {
        return Err(DriverError::with_kind(ErrorKind::Protocol, "write_message | Codec error"));
    }
    let mut frame: Vec<u8> = Vec::new();
    write_raw_varint32(&mut frame, message_type);
    write_raw_varint32(&mut frame, body.len() as u32);
    write_raw_bytes(&mut frame, body);
    Ok(frame)
}

/// Reads the frame at the start of `input`, which must be of type
/// `message_type`. `Ok(None)` says that `input` ends before the frame does;
/// `Ok(Some(..))` hands out the body and the length of the frame.
pub fn read_message(message_type: u32, input: &[u8]) -> (r: Result<
    Option<(Vec<u8>, usize)>,
    DriverError,
>)
    ensures
        match read_frame(message_type, input@) {
            Parsed::Done { value, consumed } => r matches Ok(Some((body, n))) && body@ == value
                && n == consumed,
            Parsed::Incomplete => r matches Ok(None),
            Parsed::Invalid => r matches Err(e) && e.kind == ErrorKind::Protocol,
        },
{
    let n: usize = match read_raw_varint32(input) {
        Scan::Done(received, n) => {
            if received != message_type {
                return Err(
                    DriverError::with_kind(
                        ErrorKind::Protocol,
                        "read_message | wrong message type received from Siodb",
                    ),
                );
            }
            n
        },
        Scan::Incomplete => {
            return Ok(None);
        },
        Scan::Invalid => {
            return Err(DriverError::with_kind(ErrorKind::Protocol, "read_message | Codec error"));
        },
    };
    proof {
        lemma_varint_scan_consumed(input@, max_varint_len());
    }
    let rest = slice_subrange(input, n, input.len());
    assert(rest@ == input@.skip(n as int));
    match read_raw_varint64(rest) {
        Scan::Done(len, m) => {
            proof {
                lemma_varint_scan_consumed(rest@, max_varint_len());
            }
            let start: usize = n + m;
            if len > (input.len() - start) as u64 {
                return Ok(None);
            }
            let end: usize = start + len as usize;
            let body = slice_to_vec(slice_subrange(input, start, end));
            Ok(Some((body, end)))
        },
        Scan::Incomplete => Ok(None),
        Scan::Invalid => Err(
            DriverError::with_kind(ErrorKind::Protocol, "read_message | Codec error"),
        ),
    }
}

/// A frame that was written is read back: a reader that waits for the type
/// under which `body` was framed gets `body` and the frame's length,
/// whatever bytes follow the frame.
pub proof fn lemma_frame_round_trip(message_type: u32, body: Seq<u8>, rest: Seq<u8>)
    requires
        body.len() <= u32::MAX,
    ensures
        read_frame(message_type, frame_bytes(message_type, body) + rest) == (Parsed::Done {
            value: body,
            consumed: frame_bytes(message_type, body).len(),
        }),
{
    lemma_frame_header(message_type, body, rest);
    let tag = varint_bytes(message_type as nat);
    let len = varint_bytes(body.len());
    let s = frame_bytes(message_type, body) + rest;
    let n = tag.len();
    let m = len.len();
    assert(s.subrange((n + m) as int, (n + m + body.len()) as int) =~= body);
}

/// A reader that waits for another type than the one a frame was written
/// under refuses the frame.
pub proof fn lemma_frame_type_mismatch(
    expected: u32,
    message_type: u32,
    body: Seq<u8>,
    rest: Seq<u8>,
)
    requires
        body.len() <= u32::MAX,
        expected != message_type,
    ensures
        read_frame(expected, frame_bytes(message_type, body) + rest) == Parsed::<
            Seq<u8>,
        >::Invalid,
{
    lemma_frame_header(message_type, body, rest);
}

/// The two varints at the head of a frame read back as the type and the
/// length of the body.
proof fn lemma_frame_header(message_type: u32, body: Seq<u8>, rest: Seq<u8>)
    requires
        body.len() <= u32::MAX,
    ensures
        ({
            let s = frame_bytes(message_type, body) + rest;
            let n = varint_bytes(message_type as nat).len();
            let m = varint_bytes(body.len()).len();
            &&& varint32(s) == (Parsed::Done { value: message_type, consumed: n })
            &&& varint64(s.skip(n as int)) == (Parsed::Done {
                value: body.len() as u64,
                consumed: m,
            })
            &&& s.len() == n + m + body.len() + rest.len()
        }),
{
    let tag = varint_bytes(message_type as nat);
    let len = varint_bytes(body.len());
    let s = frame_bytes(message_type, body) + rest;
    lemma_varint_bytes_bounds(message_type as nat);
    lemma_varint_bytes_bounds(body.len());
    assert(s =~= tag + (len + body + rest));
    lemma_varint32_round_trip(message_type, len + body + rest);
    assert(s.skip(tag.len() as int) =~= len + (body + rest));
    lemma_varint64_round_trip(body.len() as u64, body + rest);
}

} // verus!

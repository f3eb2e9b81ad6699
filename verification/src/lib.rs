//! A client driver for the Siodb database server, without the I/O: the wire
//! format, the authentication handshake and the result-set state machine, as
//! functions from the bytes received to the bytes to send and the next state.
//!
//! - [`uri`] reads the connection URI.
//! - [`wire`] holds the primitive encodings, [`framing`] the frames that
//!   carry the messages of [`messages`].
//! - [`row`] and [`timestamp`] decode the rows that follow a response;
//!   [`encoding`] states what a sender writes and proves that it is read
//!   back.
//! - [`results`] holds the values and the result set, [`conn`] the
//!   connection with its handshake, and [`signature`] the signature that the
//!   handshake needs.
//!
//! The caller owns the socket. It sends what a method hands out, reads, and
//! hands in what it read; a reader that says `Ok(None)` wants more bytes.

pub mod conn;
pub mod encoding;
pub mod errors;
pub mod framing;
pub mod messages;
pub mod results;
pub mod row;
pub mod signature;
pub mod timestamp;
pub mod uri;
pub mod wire;

pub use conn::SiodbConn;
pub use errors::DriverError;
pub use errors::ErrorKind;
pub use results::ResultSet;
pub use results::Value;

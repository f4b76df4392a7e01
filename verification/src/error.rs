//! Errors surfaced by the engine.

use vstd::prelude::*;

verus! {

/// What can go wrong on a connection, per request or for the connection as a
/// whole.
#[derive(Debug, Clone, PartialEq)]
pub enum Error {
    /// I/O failure during connect, read or write; carries the transport's
    /// message text.
    Io(String),
    /// Malformed handshake or an unparsable mandatory field.
    Protocol(String),
    /// The gateway explicitly rejected or reported a problem tied to a
    /// request.
    Tws { code: i32, message: String },
    /// No connection is established.
    NotConnected,
    /// No response arrived within the caller's deadline.
    Timeout,
    /// The pump terminated; delivered to every request still pending at that
    /// moment so no caller hangs forever.
    Disconnected,
}

} // verus!

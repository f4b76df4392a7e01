//! The one-time version negotiation that precedes all framed traffic.
//!
//! The greeting is the one exception in the wire format: a fixed tag
//! `API` with a NUL, then a 4-byte big-endian length and the unframed
//! capability-range string.  The gateway's first reply is a bare NUL-delimited
//! field sequence whose field 0 is the negotiated protocol version.  The
//! negotiator drives the state machine; the caller performs the reads and
//! writes and feeds the bytes through.

use vstd::prelude::*;
use vstd::string::StrSliceExecFns;
use vstd::utf8::is_ascii_chars;

use crate::error::Error;
use crate::message::{outgoing_tag, OutgoingMessageId};
use crate::text::{ascii_bytes, i32_text, spec_i32_text, spec_parse_u32, spec_u32_text, u32_text};
use crate::wire::{
    make_message, spec_be_bytes, spec_fields, spec_message, str_views, FieldIterator,
};

verus! {

/// Where the handshake stands.  Errors abort establishment and fall back to
/// `Disconnected`.
#[derive(Debug, Clone, Copy, PartialEq, Eq, Structural)]
pub enum HandshakeState {
    Disconnected,
    GreetingSent,
    VersionReceived,
    StartSessionSent,
    Ready,
}

/// The capability range offered in the greeting.
pub fn capability_range() -> (r: &'static str)
    ensures
        r@ == "v100..176"@,
{
    "v100..176"
}

/// The greeting bytes: the tag `API` and a NUL, then the capability range,
/// length-prefixed but not framed like post-handshake traffic.
pub open spec fn spec_greeting(range: Seq<char>) -> Seq<u8>
    recommends
        is_ascii_chars(range),
        range.len() <= u32::MAX,
{
    seq![65u8, 80u8, 73u8, 0u8] + spec_be_bytes(range.len() as u32) + ascii_bytes(range)
}

/// What the gateway's first reply means: skip its 4-byte prefix, split the
/// rest into fields, and read field 0 as the numeric protocol version.
pub open spec fn spec_version_of(reply: Seq<u8>) -> Option<u32> {
    if reply.len() < 4 {
        None
    } else {
        let toks = spec_fields(reply.skip(4));
        if toks.len() > 0 {
            spec_parse_u32(toks[0])
        } else {
            None
        }
    }
}

/// The fields of the start-session message: its tag, the message version, the
/// caller-chosen connection identifier, and empty optional capabilities.
pub open spec fn spec_start_session_fields(client_id: i32) -> Seq<Seq<char>> {
    seq![
        spec_u32_text(outgoing_tag(OutgoingMessageId::StartApi) as nat),
        spec_u32_text(2),
        spec_i32_text(client_id as int),
        Seq::<char>::empty(),
    ]
}

/// Drives `Disconnected -> GreetingSent -> VersionReceived -> StartSessionSent
/// -> Ready`; the negotiated version is retained for the connection's
/// lifetime.
pub struct HandshakeNegotiator {
    pub state: HandshakeState,
    pub server_version: u32,
}

impl HandshakeNegotiator {
    pub fn new() -> (r: Self)
        ensures
            r.state == HandshakeState::Disconnected,
            r.server_version == 0,
    {
        HandshakeNegotiator { state: HandshakeState::Disconnected, server_version: 0 }
    }

    /// The greeting to write on connect.
    pub fn greeting(&mut self) -> (r: Vec<u8>)
        requires
            old(self).state == HandshakeState::Disconnected,
        ensures
            final(self).state == HandshakeState::GreetingSent,
            final(self).server_version == old(self).server_version,
            r@ == spec_greeting("v100..176"@),
    {
        proof {
            reveal_strlit("v100..176");
        }
        let mut out: Vec<u8> = Vec::new();
        out.push(65);
        out.push(80);
        out.push(73);
        out.push(0);
        let range = capability_range();
        let mut bytes = range.as_bytes_vec();
        proof {
            vstd::utf8::is_ascii_chars_encode_utf8(range@);
            assert(bytes@ =~= ascii_bytes(range@));
        }
        let len: u32 = bytes.len() as u32;
        out.push((len >> 24) as u8);
        out.push(((len >> 16) & 0xFF) as u8);
        out.push(((len >> 8) & 0xFF) as u8);
        out.push((len & 0xFF) as u8);
        out.append(&mut bytes);
        self.state = HandshakeState::GreetingSent;
        proof {
            assert(out@ =~= spec_greeting("v100..176"@));
        }
        out
    }

    /// Feed the gateway's first reply.  On success the negotiated version is
    /// retained and exposed; a short reply or an absent or non-numeric version
    /// field aborts establishment with a protocol error.
    pub fn on_reply(&mut self, reply: &[u8]) -> (r: Result<u32, Error>)
        requires
            old(self).state == HandshakeState::GreetingSent,
        ensures
            r is Ok <==> spec_version_of(reply@) is Some,
            r is Ok ==> {
                &&& r->Ok_0 == spec_version_of(reply@)->0
                &&& final(self).state == HandshakeState::VersionReceived
                &&& final(self).server_version == r->Ok_0
            },
            r is Err ==> {
                &&& final(self).state == HandshakeState::Disconnected
                &&& final(self).server_version == old(self).server_version
                &&& r->Err_0 matches Error::Protocol(m) && m@ == (if reply@.len() < 4 {
                    "Invalid handshake response"@
                } else {
                    "Failed to parse server version"@
                })
            },
    {
        if reply.len() < 4 {
            self.state = HandshakeState::Disconnected;
            return Err(Error::Protocol("Invalid handshake response".to_owned()));
        }
        let rest = vstd::slice::slice_subrange(reply, 4, reply.len());
        proof {
            assert(rest@ =~= reply@.skip(4));
        }
        let mut fields = FieldIterator::new(rest);
        match fields.next_u32() {
            Some(v) => {
                self.server_version = v;
                self.state = HandshakeState::VersionReceived;
                Ok(v)
            },
            None => {
                self.state = HandshakeState::Disconnected;
                Err(Error::Protocol("Failed to parse server version".to_owned()))
            },
        }
    }

    /// The start-session payload to frame and write once the version is known.
    pub fn start_session(&mut self, client_id: i32) -> (r: String)
        requires
            old(self).state == HandshakeState::VersionReceived,
        ensures
            final(self).state == HandshakeState::StartSessionSent,
            final(self).server_version == old(self).server_version,
            r@ == spec_message(spec_start_session_fields(client_id)),
    {
        let mut f: Vec<String> = Vec::new();
        f.push(u32_text(OutgoingMessageId::StartApi.as_u32()));
        f.push(u32_text(2));
        f.push(i32_text(client_id));
        f.push(String::new());
        proof {
            assert(str_views(f@) =~= spec_start_session_fields(client_id));
        }
        self.state = HandshakeState::StartSessionSent;
        make_message(f.as_slice())
    }

    /// Mark the handshake complete, once the start-session write succeeded.
    pub fn confirm_ready(&mut self)
        requires
            old(self).state == HandshakeState::StartSessionSent,
        ensures
            final(self).state == HandshakeState::Ready,
            final(self).server_version == old(self).server_version,
    {
        self.state = HandshakeState::Ready;
    }
}

} // verus!

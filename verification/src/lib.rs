//! Client-side engine for a binary, length-prefixed, request/response protocol
//! spoken over a long-lived duplex stream to a trading gateway.
//!
//! The library covers the connection and correlation core: message framing and
//! reassembly, NUL-delimited field encoding and decoding, the version
//! handshake, and the registry that matches asynchronous responses back to the
//! callers awaiting them, including timeout, cancellation and disconnect
//! draining.

pub mod contract;
pub mod correlator;
pub mod engine;
pub mod error;
pub mod handshake;
pub mod historical;
pub mod message;
pub mod text;
pub mod wire;

pub use contract::{Contract, OptionRight, SecurityType};
pub use correlator::{
    AccountValue, Correlator, HistoricalDataResponse, PendingEntry, ResponseEnvelope, ResponseKind,
    TypedResponse,
};
pub use engine::{DispatchOutcome, Engine};
pub use error::Error;
pub use handshake::{HandshakeNegotiator, HandshakeState};
pub use historical::{BarData, BarSize, DateFormat, Duration, HistoricalDataRequest, WhatToShow};
pub use message::{IncomingMessageId, OutgoingMessageId};
pub use wire::{encode_frame, extract_message, make_field, make_message, parse_fields, FieldIterator};

//! Message-kind tags.
//!
//! Every frame's first field is a numeric tag from one of two disjoint
//! namespaces: requests the client sends, and messages the gateway sends.
//! An unknown incoming tag is never fatal; it simply maps to `None` and the
//! frame is ignored, for forward compatibility.

use vstd::prelude::*;

verus! {

/// Requests the client sends.
#[derive(Debug, Clone, Copy, PartialEq, Eq, Structural)]
pub enum OutgoingMessageId {
    /// Subscribe to account data.
    ReqAccountData,
    /// Request historical bar data.
    ReqHistoricalData,
    /// Cancel a historical data request.
    CancelHistoricalData,
    /// Start the session after the version handshake.
    StartApi,
}

/// The wire tag of an outgoing message kind.
pub open spec fn outgoing_tag(m: OutgoingMessageId) -> u32 {
    match m {
        OutgoingMessageId::ReqAccountData => 6,
        OutgoingMessageId::ReqHistoricalData => 20,
        OutgoingMessageId::CancelHistoricalData => 25,
        OutgoingMessageId::StartApi => 71,
    }
}

impl OutgoingMessageId {
    pub fn as_u32(self) -> (r: u32)
        ensures
            r == outgoing_tag(self),
    {
        match self {
            OutgoingMessageId::ReqAccountData => 6,
            OutgoingMessageId::ReqHistoricalData => 20,
            OutgoingMessageId::CancelHistoricalData => 25,
            OutgoingMessageId::StartApi => 71,
        }
    }
}

/// Messages the gateway sends.
#[derive(Debug, Clone, Copy, PartialEq, Eq, Structural)]
pub enum IncomingMessageId {
    /// An error report, possibly tied to a request id.
    Error,
    /// One account value update.
    AccountValue,
    /// One portfolio position update.
    PortfolioValue,
    /// End of an account data download.
    AccountDownloadEnd,
    /// The next valid order id.
    NextValidId,
    /// The list of managed accounts.
    ManagedAccounts,
    /// A batch of historical bars.
    HistoricalData,
    /// One updated historical bar.
    HistoricalDataUpdate,
    /// End of a historical data stream.
    HistoricalDataEnd,
}

/// The wire tag of an incoming message kind.
pub open spec fn incoming_tag(m: IncomingMessageId) -> u32 {
    match m {
        IncomingMessageId::Error => 4,
        IncomingMessageId::AccountValue => 6,
        IncomingMessageId::PortfolioValue => 7,
        IncomingMessageId::AccountDownloadEnd => 8,
        IncomingMessageId::NextValidId => 9,
        IncomingMessageId::ManagedAccounts => 15,
        IncomingMessageId::HistoricalData => 17,
        IncomingMessageId::HistoricalDataUpdate => 90,
        IncomingMessageId::HistoricalDataEnd => 108,
    }
}

/// The message kind a wire tag denotes, `None` for an unknown tag.
pub open spec fn spec_incoming_from(value: u32) -> Option<IncomingMessageId> {
    if value == 4 {
        Some(IncomingMessageId::Error)
    } else if value == 6 {
        Some(IncomingMessageId::AccountValue)
    } else if value == 7 {
        Some(IncomingMessageId::PortfolioValue)
    } else if value == 8 {
        Some(IncomingMessageId::AccountDownloadEnd)
    } else if value == 9 {
        Some(IncomingMessageId::NextValidId)
    } else if value == 15 {
        Some(IncomingMessageId::ManagedAccounts)
    } else if value == 17 {
        Some(IncomingMessageId::HistoricalData)
    } else if value == 90 {
        Some(IncomingMessageId::HistoricalDataUpdate)
    } else if value == 108 {
        Some(IncomingMessageId::HistoricalDataEnd)
    } else {
        None
    }
}

impl IncomingMessageId {
    pub fn from_u32(value: u32) -> (r: Option<Self>)
        ensures
            r == spec_incoming_from(value),
    {
        match value {
            4 => Some(Self::Error),
            6 => Some(Self::AccountValue),
            7 => Some(Self::PortfolioValue),
            8 => Some(Self::AccountDownloadEnd),
            9 => Some(Self::NextValidId),
            15 => Some(Self::ManagedAccounts),
            17 => Some(Self::HistoricalData),
            90 => Some(Self::HistoricalDataUpdate),
            108 => Some(Self::HistoricalDataEnd),
            _ => None,
        }
    }

    pub fn as_u32(self) -> (r: u32)
        ensures
            r == incoming_tag(self),
    {
        match self {
            IncomingMessageId::Error => 4,
            IncomingMessageId::AccountValue => 6,
            IncomingMessageId::PortfolioValue => 7,
            IncomingMessageId::AccountDownloadEnd => 8,
            IncomingMessageId::NextValidId => 9,
            IncomingMessageId::ManagedAccounts => 15,
            IncomingMessageId::HistoricalData => 17,
            IncomingMessageId::HistoricalDataUpdate => 90,
            IncomingMessageId::HistoricalDataEnd => 108,
        }
    }
}

} // verus!

//! The error kinds that the bus reports.

use vstd::prelude::*;

verus! {

/// Every failure the runtime core can report.
#[derive(Clone, Copy, Debug, PartialEq, Eq, Structural)]
pub enum RillError {
    /// A second registration arrived for a path that is already live.
    RegistrationConflict,
    /// The subscriber's transport disappeared; the subscription is dropped.
    TransportClosed,
    /// A subscriber fell too far behind; it is dropped so the client reconnects.
    BackpressureOverflow,
    /// A malformed envelope or an unknown variant; the session is closed.
    ProtocolViolation,
    /// The requested operation does not exist in this mode or for this flow.
    Inapplicable,
    /// The clock reported a time before the epoch; the event is dropped.
    Clock,
    /// The UI asset bundle could not be fetched or unpacked.
    AssetFetch,
}

impl RillError {
    /// A short description of the failure, for logs.
    pub fn message(&self) -> (r: &'static str)
        ensures
            r@.len() > 0,
    {
        proof {
            reveal_strlit("duplicate path registration");
            reveal_strlit("transport closed");
            reveal_strlit("subscriber overflowed its buffer");
            reveal_strlit("protocol violation");
            reveal_strlit("not applicable in this mode");
            reveal_strlit("clock before epoch");
            reveal_strlit("asset bundle unavailable");
        }
        match self {
            RillError::RegistrationConflict => "duplicate path registration",
            RillError::TransportClosed => "transport closed",
            RillError::BackpressureOverflow => "subscriber overflowed its buffer",
            RillError::ProtocolViolation => "protocol violation",
            RillError::Inapplicable => "not applicable in this mode",
            RillError::Clock => "clock before epoch",
            RillError::AssetFetch => "asset bundle unavailable",
        }
    }
}

} // verus!

//! Error kinds of the proxy and the JSON-RPC codes they surface as.

use vstd::prelude::*;

verus! {

/// Why a request could not be answered.
#[derive(Clone, Copy, Debug, PartialEq, Eq, Structural)]
pub enum ErrorKind {
    /// The method is forbidden.
    Unsupported,
    /// The request is malformed.
    InvalidRequest,
    /// No canonical head has been agreed on yet.
    NotSynced,
    /// The overall deadline of the request expired.
    Timeout,
    /// No upstream is eligible.
    NoServers,
    /// An upstream or the shared limiter refused for lack of capacity.
    Capacity,
    /// The upstream answered with a JSON-RPC error of its own.
    UpstreamError,
    /// The transport to the upstream failed.
    Transport,
    /// The request was cancelled; nothing is sent back.
    Canceled,
    /// A configuration was rejected; the running state is kept.
    InvalidConfig,
}

impl ErrorKind {
    /// The JSON-RPC error code of this kind, where it has one of its own.
    pub open spec fn spec_code(self) -> Option<i32> {
        match self {
            ErrorKind::Unsupported => Some(-32601i32),
            ErrorKind::InvalidRequest => Some(-32600i32),
            ErrorKind::NotSynced => Some(-32002i32),
            ErrorKind::Timeout => Some(-32603i32),
            ErrorKind::NoServers => Some(-32603i32),
            ErrorKind::Transport => Some(-32603i32),
            ErrorKind::Capacity => None,
            ErrorKind::UpstreamError => None,
            ErrorKind::Canceled => None,
            ErrorKind::InvalidConfig => None,
        }
    }

    /// The HTTP status that a response for this kind goes out with: 429
    /// for a lack of capacity, 200 for everything that is answered on the
    /// JSON-RPC level or relayed, and none for what gets no response.
    pub open spec fn spec_http_status(self) -> Option<u16> {
        match self {
            ErrorKind::Capacity => Some(429u16),
            ErrorKind::Canceled => None,
            ErrorKind::InvalidConfig => None,
            _ => Some(200u16),
        }
    }

    /// The HTTP status that a response for this kind goes out with.
    pub fn http_status(&self) -> (r: Option<u16>)
        ensures
            r == self.spec_http_status(),
    {
        match self {
            ErrorKind::Capacity => Some(429u16),
            ErrorKind::Canceled => None,
            ErrorKind::InvalidConfig => None,
            _ => Some(200u16),
        }
    }

    /// The JSON-RPC error code this kind is surfaced with. `Capacity` is
    /// surfaced as HTTP 429, an upstream error is relayed unchanged, a
    /// cancelled request gets no response and a rejected configuration never
    /// reaches a client: those have no code of their own.
    pub fn code(&self) -> (r: Option<i32>)
        ensures
            r == self.spec_code(),
    {
        match self {
            ErrorKind::Unsupported => Some(-32601i32),
            ErrorKind::InvalidRequest => Some(-32600i32),
            ErrorKind::NotSynced => Some(-32002i32),
            ErrorKind::Timeout => Some(-32603i32),
            ErrorKind::NoServers => Some(-32603i32),
            ErrorKind::Transport => Some(-32603i32),
            ErrorKind::Capacity => None,
            ErrorKind::UpstreamError => None,
            ErrorKind::Canceled => None,
            ErrorKind::InvalidConfig => None,
        }
    }
}

} // verus!

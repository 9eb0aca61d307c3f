//! The pay-protocol manifest: the remote description of how to pay an
//! address. A remote response is one of three known shapes; only the pay
//! shape is accepted.

use vstd::prelude::*;

verus! {

/// The remote description of how to pay an address: amount limits and the
/// callback endpoint that yields an invoice.
#[derive(Debug)]
pub struct PayManifest {
    pub callback: String,
    pub max_sendable: u64,
    pub min_sendable: u64,
    pub metadata: String,
    pub comment_allowed: Option<u32>,
}

/// A well-formed remote response, discriminated by the protocol's marker
/// into the three known shapes.
#[derive(Debug)]
pub enum ManifestResponse {
    Pay(PayManifest),
    Withdraw,
    Channel,
}

/// Protocol-level failures of a manifest fetch, kept distinct so a caller
/// can tell an unreachable remote from one that answered with the wrong
/// kind of endpoint.
#[derive(Debug, Clone, Copy, PartialEq, Eq, Structural)]
pub enum ProtocolError {
    /// The transport failed: connection error, timeout, malformed body.
    TransportError,
    /// The remote answered with a well-formed `withdraw` or `channel`
    /// response: a content-level error, not a transport error.
    WrongManifestKind,
}

impl ManifestResponse {
    /// Accept only the pay shape. A `withdraw` or `channel` response fails
    /// with `WrongManifestKind` even though the transport call succeeded.
    pub fn accept_pay(self) -> (r: Result<PayManifest, ProtocolError>)
        ensures
            match self {
                ManifestResponse::Pay(m) => r == Ok::<PayManifest, ProtocolError>(m),
                ManifestResponse::Withdraw => r == Err::<PayManifest, ProtocolError>(
                    ProtocolError::WrongManifestKind,
                ),
                ManifestResponse::Channel => r == Err::<PayManifest, ProtocolError>(
                    ProtocolError::WrongManifestKind,
                ),
            },
    {
        match self {
            ManifestResponse::Pay(m) => Ok(m),
            ManifestResponse::Withdraw => Err(ProtocolError::WrongManifestKind),
            ManifestResponse::Channel => Err(ProtocolError::WrongManifestKind),
        }
    }
}

} // verus!

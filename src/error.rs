use vstd::prelude::*;

verus! {

/// Everything an RPC operation can fail with.
#[derive(Debug)]
pub enum Error {
    /// The operation was attempted while no connection was held.
    ConnectionNotOpen,
    /// The broker could not be reached when connecting.
    TransportConnectError(String),
    /// No reply arrived within the request timeout.
    Timeout,
    /// The broker reported a failure other than a timeout.
    TransportError(String),
    /// The reply bytes did not parse as the expected message.
    DecodeError(String),
    /// An empty user id was supplied.
    InvalidUserId,
    /// An empty server kind was supplied.
    InvalidServerKind,
    /// The worker that ran a blocking exchange failed.
    BridgeFailure(String),
}

} // verus!

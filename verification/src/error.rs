//! The ways in which a connection ends in failure. Every one of them is fatal
//! to the connection it occurs on and to no other.

use vstd::prelude::*;
use vstd::string::*;

verus! {

/// What was wrong with a client message.
#[derive(Clone, Copy, Debug, PartialEq, Eq, Structural)]
pub enum ProtocolFault {
    /// The first client message was not a login that names a wallet.
    MissingWallet,
    /// A frame that could not be read as a message at all.
    Malformed,
}

/// Why a connection was torn down.
#[derive(Clone, Copy, Debug, PartialEq, Eq, Structural)]
pub enum RelayError {
    /// A malformed or out-of-sequence client message.
    ProtocolError(ProtocolFault),
    /// The pool's first message was not an acknowledgment of the login.
    LoginRejected,
    /// Reading from, writing to or shutting down a socket failed.
    TransportError,
    /// No pool endpoint could be used.
    PoolUnavailable,
    /// Every ordinary pool-facing id of the connection has been given out.
    IdsExhausted,
}

/// The text that describes `e`.
pub open spec fn message_of(e: RelayError) -> Seq<char> {
    match e {
        RelayError::ProtocolError(ProtocolFault::MissingWallet) => "missing wallet"@,
        RelayError::ProtocolError(ProtocolFault::Malformed) => "malformed message"@,
        RelayError::LoginRejected => "login rejected by pool"@,
        RelayError::TransportError => "transport failure"@,
        RelayError::PoolUnavailable => "no pool available"@,
        RelayError::IdsExhausted => "request ids exhausted"@,
    }
}

impl RelayError {
    /// A short description of the error, for logs.
    pub fn message(&self) -> (s: String)
        ensures
            s@ == message_of(*self),
    {
        match self {
            RelayError::ProtocolError(ProtocolFault::MissingWallet) => String::from_str(
                "missing wallet",
            ),
            RelayError::ProtocolError(ProtocolFault::Malformed) => String::from_str(
                "malformed message",
            ),
            RelayError::LoginRejected => String::from_str("login rejected by pool"),
            RelayError::TransportError => String::from_str("transport failure"),
            RelayError::PoolUnavailable => String::from_str("no pool available"),
            RelayError::IdsExhausted => String::from_str("request ids exhausted"),
        }
    }
}

} // verus!

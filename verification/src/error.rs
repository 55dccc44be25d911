//! The failures that a channel and an adapter report.

use vstd::prelude::*;

verus! {

/// Why a message channel refused or failed an operation.
#[derive(Debug, Clone, PartialEq, Eq)]
pub enum ChannelError {
    /// The operation was attempted outside the connected state.
    NotConnected,
    /// The underlying connection or multiplexing session failed; the text
    /// carries the cause.
    TransportFailure(String),
}

/// Why an adapter refused or failed an operation.
#[derive(Debug, Clone, PartialEq, Eq)]
pub enum StreamError {
    /// The adapter is not connected.
    NotConnected,
    /// The channel failed; the cause is kept as the channel gave it.
    TransportFailure(ChannelError),
    /// A disconnect was refused because this many received bytes have not
    /// been read yet and would be lost.
    PendingDataOnDisconnect(usize),
}

/// What an adapter reports for a channel's outcome: a success passes through,
/// any failure becomes a transport failure that wraps its cause.
pub open spec fn surfaced<T>(outcome: Result<T, ChannelError>) -> Result<T, StreamError> {
    match outcome {
        Ok(value) => Ok(value),
        Err(cause) => Err(StreamError::TransportFailure(cause)),
    }
}

/// Turns a channel's outcome into the adapter's.
pub fn surface<T>(outcome: Result<T, ChannelError>) -> (r: Result<T, StreamError>)
    ensures
        r == surfaced(outcome),
{
    match outcome {
        Ok(value) => Ok(value),
        Err(cause) => Err(StreamError::TransportFailure(cause)),
    }
}

impl StreamError {
    /// Whether the caller can put the failure right and keep the channel:
    /// true of every failure but a transport failure.
    pub open spec fn spec_is_recoverable(&self) -> bool {
        !(self is TransportFailure)
    }

    /// Whether the caller can put the failure right and keep the channel.
    pub fn is_recoverable(&self) -> (r: bool)
        ensures
            r == self.spec_is_recoverable(),
    {
        match self {
            StreamError::TransportFailure(_) => false,
            _ => true,
        }
    }
}

} // verus!

//! The message channel that an adapter drives, and the address of a peer.

use vstd::prelude::*;
use crate::error::ChannelError;

verus! {

/// The address of a peer: a context identifier and a port.
#[derive(Debug, Clone, Copy, PartialEq, Eq, Structural)]
pub struct Endpoint {
    pub cid: u32,
    pub port: u32,
}

impl Endpoint {
    pub fn new(cid: u32, port: u32) -> (e: Endpoint)
        ensures
            e == (Endpoint { cid, port }),
    {
        Endpoint { cid, port }
    }
}

/// A connection that carries whole messages, one per call.
///
/// `send` hands one message to the peer and `recv` waits for the next one
/// from it; both keep the message's boundaries. Two things are taken on
/// trust of an implementation: that a `send` which succeeds has accepted the
/// whole message, and that the answer of `is_connected` depends on the
/// channel's state alone, which `alive` names. The other methods carry no
/// contract: whatever they return, what is proved of an adapter holds.
pub trait MessageChannel {
    /// The answer that `is_connected` gives in this state of the channel. An
    /// implementation defines it as what its `is_connected` computes.
    spec fn alive(&self) -> bool;

    /// Connects to the peer at `endpoint`.
    fn connect(&mut self, endpoint: Endpoint) -> Result<(), ChannelError>;

    /// Tears the connection down.
    fn disconnect(&mut self) -> Result<(), ChannelError>;

    /// Sends `message` as one message and returns the number of bytes
    /// accepted. A message is sent whole or not at all, so on success that
    /// number is the message's length.
    fn send(&mut self, message: &[u8]) -> (r: Result<usize, ChannelError>)
        ensures
            r matches Ok(n) ==> n == message@.len(),
    ;

    /// Waits for the next whole message.
    fn recv(&mut self) -> Result<Vec<u8>, ChannelError>;

    /// Reports whether the channel is connected.
    fn is_connected(&self) -> (live: bool)
        ensures
            live == self.alive(),
    ;
}

/// The side of the multiplexing session that a channel takes.
#[derive(Debug, Clone, Copy, PartialEq, Eq, Structural)]
pub enum Role {
    /// The side that dialed.
    Client,
    /// The side that accepted.
    Server,
}

/// How the logical stream for one message is acquired.
///
/// Every message travels on a stream of its own. A sender opens one, writes
/// the message and half-closes the stream; a receiver accepts the next one
/// that the peer opened and reads it to its end.
#[derive(Debug, Clone, Copy, PartialEq, Eq, Structural)]
pub enum StreamKind {
    /// Open a new stream towards the peer.
    Outbound,
    /// Accept the next stream that the peer opened.
    Inbound,
}

/// The connection state of a multiplexed channel, and the decisions that
/// depend on it. The code that owns the sockets asks here what to do and
/// reports back what happened.
#[derive(Debug, Clone, Copy, PartialEq, Eq, Structural)]
pub struct ChannelState {
    role: Role,
    connected: bool,
}

impl ChannelState {
    /// The side of the session that the channel takes.
    pub closed spec fn spec_role(&self) -> Role {
        self.role
    }

    /// Whether the channel is in the connected state.
    pub closed spec fn spec_is_connected(&self) -> bool {
        self.connected
    }

    /// A disconnected channel for the side that dials.
    pub fn new_client() -> (s: ChannelState)
        ensures
            s.spec_role() == Role::Client,
            !s.spec_is_connected(),
    {
        ChannelState { role: Role::Client, connected: false }
    }

    /// A disconnected channel for the side that accepts.
    pub fn new_server() -> (s: ChannelState)
        ensures
            s.spec_role() == Role::Server,
            !s.spec_is_connected(),
    {
        ChannelState { role: Role::Server, connected: false }
    }

    /// The side of the session that the channel takes.
    pub fn role(&self) -> (r: Role)
        ensures
            r == self.spec_role(),
    {
        self.role
    }

    /// Whether the channel is in the connected state.
    pub fn is_connected(&self) -> (r: bool)
        ensures
            r == self.spec_is_connected(),
    {
        self.connected
    }

    /// Takes note of how an attempt to set up the connection and its session
    /// ended. Success makes the channel connected. A failure leaves it as it
    /// was and is reported as a transport failure with the same cause.
    pub fn on_connect(&mut self, outcome: Result<(), String>) -> (r: Result<(), ChannelError>)
        ensures
            final(self).spec_role() == old(self).spec_role(),
            match outcome {
                Ok(_) => r is Ok && final(self).spec_is_connected(),
                Err(cause) => r == Err::<(), ChannelError>(ChannelError::TransportFailure(cause))
                    && final(self).spec_is_connected() == old(self).spec_is_connected(),
            },
    {
        match outcome {
            Ok(()) => {
                self.connected = true;
                Ok(())
            },
            Err(cause) => Err(ChannelError::TransportFailure(cause)),
        }
    }

    /// Takes note that the session was torn down.
    pub fn on_disconnect(&mut self)
        ensures
            final(self).spec_role() == old(self).spec_role(),
            !final(self).spec_is_connected(),
    {
        self.connected = false;
    }

    /// Decides how to acquire the stream for a message that is to be sent: a
    /// new outbound one, if the channel is connected.
    pub fn begin_send(&self) -> (r: Result<StreamKind, ChannelError>)
        ensures
            self.spec_is_connected() ==> r == Ok::<StreamKind, ChannelError>(
                StreamKind::Outbound,
            ),
            !self.spec_is_connected() ==> r == Err::<StreamKind, ChannelError>(
                ChannelError::NotConnected,
            ),
    {
        if self.connected {
            Ok(StreamKind::Outbound)
        } else {
            Err(ChannelError::NotConnected)
        }
    }

    /// Decides how to acquire the stream for a message that is to be
    /// received: the next inbound one, if the channel is connected.
    pub fn begin_recv(&self) -> (r: Result<StreamKind, ChannelError>)
        ensures
            self.spec_is_connected() ==> r == Ok::<StreamKind, ChannelError>(StreamKind::Inbound),
            !self.spec_is_connected() ==> r == Err::<StreamKind, ChannelError>(
                ChannelError::NotConnected,
            ),
    {
        if self.connected {
            Ok(StreamKind::Inbound)
        } else {
            Err(ChannelError::NotConnected)
        }
    }
}

/// The answer to a `send` of `len` bytes, given how the stream's work ended:
/// all of the message was accepted, or none of it.
pub fn finish_send(len: usize, outcome: Result<(), String>) -> (r: Result<usize, ChannelError>)
    ensures
        match outcome {
            Ok(_) => r == Ok::<usize, ChannelError>(len),
            Err(cause) => r == Err::<usize, ChannelError>(ChannelError::TransportFailure(cause)),
        },
{
    match outcome {
        Ok(()) => Ok(len),
        Err(cause) => Err(ChannelError::TransportFailure(cause)),
    }
}

/// The answer to a `recv`, given how the stream's work ended: the bytes read
/// up to the peer's half-close are the message.
pub fn finish_recv(outcome: Result<Vec<u8>, String>) -> (r: Result<Vec<u8>, ChannelError>)
    ensures
        match outcome {
            Ok(message) => r == Ok::<Vec<u8>, ChannelError>(message),
            Err(cause) => r == Err::<Vec<u8>, ChannelError>(ChannelError::TransportFailure(cause)),
        },
{
    match outcome {
        Ok(message) => Ok(message),
        Err(cause) => Err(ChannelError::TransportFailure(cause)),
    }
}

} // verus!

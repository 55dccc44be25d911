//! The connecting side: an adapter that dials a peer and then reads and
//! writes bytes over the channel.

use vstd::prelude::*;
use crate::error::{surface, StreamError};
use crate::stream::{chunk_len, filled, ReadAction, ReadView, StreamState, StreamView};
use crate::transport::{Endpoint, MessageChannel};

verus! {

/// What a client is set up with.
///
/// `chunk_size` and `is_ack` are kept for a later segmenting and
/// acknowledging mode; nothing reads them yet.
#[derive(Debug, Clone, Copy, PartialEq, Eq, Structural)]
pub struct ClientConfig {
    pub server_cid: u32,
    pub server_port: u32,
    pub chunk_size: usize,
    pub is_ack: bool,
}

impl ClientConfig {
    pub fn new(server_cid: u32, server_port: u32, chunk_size: usize, is_ack: bool) -> (c:
        ClientConfig)
        ensures
            c == (ClientConfig { server_cid, server_port, chunk_size, is_ack }),
    {
        ClientConfig { server_cid, server_port, chunk_size, is_ack }
    }

    /// The address of the server.
    pub open spec fn spec_endpoint(&self) -> Endpoint {
        Endpoint { cid: self.server_cid, port: self.server_port }
    }

    /// The address of the server.
    pub fn endpoint(&self) -> (e: Endpoint)
        ensures
            e == self.spec_endpoint(),
    {
        Endpoint { cid: self.server_cid, port: self.server_port }
    }
}

/// A blocking byte stream to a server, over a message channel.
pub struct VirgeClient<C: MessageChannel> {
    transport_handler: C,
    config: ClientConfig,
    state: StreamState,
}

impl<C: MessageChannel> VirgeClient<C> {
    /// The channel that the client drives.
    pub closed spec fn channel(&self) -> C {
        self.transport_handler
    }

    /// What the client was set up with.
    pub closed spec fn config(&self) -> ClientConfig {
        self.config
    }

    /// The client's record of being connected and the leftover of the
    /// message being read.
    pub closed spec fn state(&self) -> StreamView {
        self.state@
    }

    /// A client for `config` that will drive `channel`; it is not connected.
    pub fn new(config: ClientConfig, channel: C) -> (client: Self)
        ensures
            client.channel() == channel,
            client.config() == config,
            client.state() == StreamView::fresh(false),
    {
        VirgeClient { transport_handler: channel, config, state: StreamState::new(false) }
    }

    /// Connects the channel to the configured server.
    ///
    /// The client counts as connected from the moment the channel reports
    /// success. A failure is passed on, wrapped as a transport failure, and
    /// leaves the client's record as it was.
    pub fn connect(&mut self) -> (r: Result<(), StreamError>)
        ensures
            final(self).config() == old(self).config(),
            match r {
                Ok(_) => final(self).state() == old(self).state().after_connect(Ok(())),
                Err(e) => e is TransportFailure && final(self).state() == old(self).state(),
            },
    {
        let outcome = self.transport_handler.connect(self.config.endpoint());
        self.state.connect_done(outcome)
    }

    /// Disconnects the channel, unless received bytes are still unread.
    ///
    /// With unread bytes the call is refused and nothing changes, the channel
    /// included. Otherwise the channel decides: on its success the client no
    /// longer counts as connected; its failure is passed on, wrapped as a
    /// transport failure, and the client's record stays.
    pub fn disconnect(&mut self) -> (r: Result<(), StreamError>)
        ensures
            final(self).config() == old(self).config(),
            old(self).state().read.pending.len() > 0 ==> {
                &&& r == old(self).state().disconnect_check()
                &&& final(self).state() == old(self).state()
                &&& final(self).channel() == old(self).channel()
            },
            old(self).state().read.pending.len() == 0 ==> match r {
                Ok(_) => final(self).state() == old(self).state().after_disconnect(Ok(())),
                Err(e) => e is TransportFailure && final(self).state() == old(self).state(),
            },
    {
        match self.state.check_disconnect() {
            Err(refusal) => Err(refusal),
            Ok(()) => {
                let outcome = self.transport_handler.disconnect();
                self.state.disconnect_done(outcome)
            },
        }
    }

    /// Sends `data` as one message.
    ///
    /// A client that is not connected fails at once and the channel is not
    /// asked. Otherwise the channel's answer is passed on: on success the
    /// length of `data`, all of which was accepted; a failure wrapped as a
    /// transport failure.
    pub fn send(&mut self, data: Vec<u8>) -> (r: Result<usize, StreamError>)
        ensures
            final(self).config() == old(self).config(),
            final(self).state() == old(self).state(),
            !old(self).state().connected ==> r == Err::<usize, StreamError>(
                StreamError::NotConnected,
            ) && final(self).channel() == old(self).channel(),
            old(self).state().connected ==> match r {
                Ok(n) => n == data@.len(),
                Err(e) => e is TransportFailure,
            },
    {
        match self.state.check_connected() {
            Err(refusal) => Err(refusal),
            Ok(()) => surface(self.transport_handler.send(data.as_slice())),
        }
    }

    /// Receives the next whole message, past the read buffer.
    ///
    /// A client that is not connected fails at once and the channel is not
    /// asked. Otherwise the channel's answer is passed on, a failure wrapped
    /// as a transport failure.
    pub fn recv(&mut self) -> (r: Result<Vec<u8>, StreamError>)
        ensures
            final(self).config() == old(self).config(),
            final(self).state() == old(self).state(),
            !old(self).state().connected ==> r == Err::<Vec<u8>, StreamError>(
                StreamError::NotConnected,
            ) && final(self).channel() == old(self).channel(),
            old(self).state().connected ==> r is Ok || r->Err_0 is TransportFailure,
    {
        match self.state.check_connected() {
            Err(refusal) => Err(refusal),
            Ok(()) => surface(self.transport_handler.recv()),
        }
    }

    /// Whether the client has connected and the channel still says that it is
    /// connected: both must hold. A client that has not connected answers
    /// `false` without asking the channel.
    pub fn is_connected(&self) -> (r: bool)
        ensures
            r == self.state().is_connected(self.channel().alive()),
    {
        if !self.state.connected() {
            return false;
        }
        let channel_live = self.transport_handler.is_connected();
        self.state.is_connected(channel_live)
    }

    /// Reads bytes of the current message into `buf`, or reports its end.
    ///
    /// A client that is not connected fails and nothing changes. With bytes
    /// of a message waiting, as many as fit move to the front of `buf`. With
    /// none waiting after a message was handed out in full, the result is 0
    /// once: the boundary signal. In both cases the channel is not asked.
    /// Otherwise the client waits for the next message, hands out its first
    /// part and keeps the rest: the bytes put into `buf`, followed by those
    /// kept, are that message. A failure of the channel is passed on, wrapped
    /// as a transport failure, and changes neither `buf` nor the leftover.
    pub fn read(&mut self, buf: &mut [u8]) -> (r: Result<usize, StreamError>)
        ensures
            final(self).config() == old(self).config(),
            final(self).state().connected == old(self).state().connected,
            !old(self).state().connected ==> {
                &&& r == Err::<usize, StreamError>(StreamError::NotConnected)
                &&& final(self).state() == old(self).state()
                &&& final(self).channel() == old(self).channel()
                &&& final(buf)@ == old(buf)@
            },
            old(self).state().connected && old(self).state().read.action() != ReadAction::Receive
                ==> {
                &&& r matches Ok(n) && n == chunk_len(
                    old(self).state().read.pending.len(),
                    old(buf)@.len(),
                )
                &&& final(self).state().read == old(self).state().read.after_local(
                    old(buf)@.len(),
                )
                &&& final(buf)@ == filled(
                    old(buf)@,
                    old(self).state().read.local_output(old(buf)@.len()),
                )
                &&& final(self).channel() == old(self).channel()
            },
            old(self).state().connected && old(self).state().read.action() == ReadAction::Receive
                ==> match r {
                Ok(n) => {
                    let message = final(buf)@.take(n as int) + final(self).state().read.pending;
                    &&& n == chunk_len(message.len(), old(buf)@.len())
                    &&& final(self).state().read == ReadView::after_message(
                        message,
                        old(buf)@.len(),
                    )
                    &&& final(buf)@ == filled(old(buf)@, message.take(n as int))
                },
                Err(e) => {
                    &&& e is TransportFailure
                    &&& final(self).state() == old(self).state()
                    &&& final(buf)@ == old(buf)@
                },
            },
    {
        match self.state.read_buffered(buf) {
            Err(refusal) => Err(refusal),
            Ok(Some(n)) => Ok(n),
            Ok(None) => {
                let received = self.transport_handler.recv();
                let ghost got = received;
                let r = self.state.deliver(received, buf);
                proof {
                    if let Ok(message) = got {
                        let n = chunk_len(message@.len(), old(buf)@.len()) as int;
                        assert(buf@.take(n) =~= message@.take(n));
                        assert(message@.take(n) + message@.skip(n) =~= message@);
                    }
                }
                r
            },
        }
    }

    /// Sends the whole of `buf` as one message.
    ///
    /// A client that is not connected fails at once and the channel is not
    /// asked. Otherwise the channel's answer is passed on: on success the
    /// length of `buf`, all of which was accepted; a failure wrapped as a
    /// transport failure.
    pub fn write(&mut self, buf: &[u8]) -> (r: Result<usize, StreamError>)
        ensures
            final(self).config() == old(self).config(),
            final(self).state() == old(self).state(),
            !old(self).state().connected ==> r == Err::<usize, StreamError>(
                StreamError::NotConnected,
            ) && final(self).channel() == old(self).channel(),
            old(self).state().connected ==> match r {
                Ok(n) => n == buf@.len(),
                Err(e) => e is TransportFailure,
            },
    {
        match self.state.check_connected() {
            Err(refusal) => Err(refusal),
            Ok(()) => surface(self.transport_handler.send(buf)),
        }
    }

    /// Does nothing: a write leaves nothing behind to flush.
    pub fn flush(&mut self) -> (r: Result<(), StreamError>)
        ensures
            r is Ok,
            *final(self) == *old(self),
    {
        Ok(())
    }
}

} // verus!

//! The accepting side: an adapter over a channel that a listener has already
//! accepted, reading and writing bytes over it.

use vstd::prelude::*;
use crate::error::{surface, StreamError};
use crate::stream::{chunk_len, filled, ReadAction, ReadView, StreamState, StreamView};
use crate::transport::MessageChannel;

verus! {

/// A blocking byte stream to one accepted client, over a message channel.
pub struct VirgeServer<C: MessageChannel> {
    transport_handler: C,
    state: StreamState,
}

impl<C: MessageChannel> VirgeServer<C> {
    /// The channel that the server drives.
    pub closed spec fn channel(&self) -> C {
        self.transport_handler
    }

    /// The server's record of being connected and the leftover of the
    /// message being read.
    pub closed spec fn state(&self) -> StreamView {
        self.state@
    }

    /// A server side for the accepted channel `trans`; `conn` says whether
    /// that channel counts as connected already.
    pub fn new(trans: C, conn: bool) -> (server: Self)
        ensures
            server.channel() == trans,
            server.state() == StreamView::fresh(conn),
    {
        VirgeServer { transport_handler: trans, state: StreamState::new(conn) }
    }

    /// Disconnects the channel, unless received bytes are still unread.
    ///
    /// With unread bytes the call is refused and nothing changes, the channel
    /// included. Otherwise the channel decides: on its success the server no
    /// longer counts as connected; its failure is passed on, wrapped as a
    /// transport failure, and the server's record stays.
    pub fn disconnect(&mut self) -> (r: Result<(), StreamError>)
        ensures
            old(self).state().read.pending.len() > 0 ==> {
                &&& r == old(self).state().disconnect_check()
                &&& final(self).state() == old(self).state()
                &&& final(self).channel() == old(self).channel()
            },
            old(self).state().read.pending.len() == 0 ==> match r {
                Ok(_) => final(self).state() == old(self).state().after_disconnect(Ok(())),
                Err(e) => e is TransportFailure && final(self).state() == old(self).state(),
            },
    {
        match self.state.check_disconnect() {
            Err(refusal) => Err(refusal),
            Ok(()) => {
                let outcome = self.transport_handler.disconnect();
                self.state.disconnect_done(outcome)
            },
        }
    }

    /// Sends `data` as one message.
    ///
    /// A server that is not connected fails at once and the channel is not
    /// asked. Otherwise the channel's answer is passed on: on success the
    /// length of `data`, all of which was accepted; a failure wrapped as a
    /// transport failure.
    pub fn send(&mut self, data: Vec<u8>) -> (r: Result<usize, StreamError>)
        ensures
            final(self).state() == old(self).state(),
            !old(self).state().connected ==> r == Err::<usize, StreamError>(
                StreamError::NotConnected,
            ) && final(self).channel() == old(self).channel(),
            old(self).state().connected ==> match r {
                Ok(n) => n == data@.len(),
                Err(e) => e is TransportFailure,
            },
    {
        match self.state.check_connected() {
            Err(refusal) => Err(refusal),
            Ok(()) => surface(self.transport_handler.send(data.as_slice())),
        }
    }

    /// Receives the next whole message, past the read buffer.
    ///
    /// A server that is not connected fails at once and the channel is not
    /// asked. Otherwise the channel's answer is passed on, a failure wrapped
    /// as a transport failure.
    pub fn recv(&mut self) -> (r: Result<Vec<u8>, StreamError>)
        ensures
            final(self).state() == old(self).state(),
            !old(self).state().connected ==> r == Err::<Vec<u8>, StreamError>(
                StreamError::NotConnected,
            ) && final(self).channel() == old(self).channel(),
            old(self).state().connected ==> r is Ok || r->Err_0 is TransportFailure,
    {
        match self.state.check_connected() {
            Err(refusal) => Err(refusal),
            Ok(()) => surface(self.transport_handler.recv()),
        }
    }

    /// Whether the server has connected and the channel still says that it is
    /// connected: both must hold. A server that has not connected answers
    /// `false` without asking the channel.
    pub fn is_connected(&self) -> (r: bool)
        ensures
            r == self.state().is_connected(self.channel().alive()),
    {
        if !self.state.connected() {
            return false;
        }
        let channel_live = self.transport_handler.is_connected();
        self.state.is_connected(channel_live)
    }

    /// Reads bytes of the current message into `buf`, or reports its end.
    ///
    /// A server that is not connected fails and nothing changes. With bytes
    /// of a message waiting, as many as fit move to the front of `buf`. With
    /// none waiting after a message was handed out in full, the result is 0
    /// once: the boundary signal. In both cases the channel is not asked.
    /// Otherwise the server waits for the next message, hands out its first
    /// part and keeps the rest: the bytes put into `buf`, followed by those
    /// kept, are that message. A failure of the channel is passed on, wrapped
    /// as a transport failure, and changes neither `buf` nor the leftover.
    pub fn read(&mut self, buf: &mut [u8]) -> (r: Result<usize, StreamError>)
        ensures
            final(self).state().connected == old(self).state().connected,
            !old(self).state().connected ==> {
                &&& r == Err::<usize, StreamError>(StreamError::NotConnected)
                &&& final(self).state() == old(self).state()
                &&& final(self).channel() == old(self).channel()
                &&& final(buf)@ == old(buf)@
            },
            old(self).state().connected && old(self).state().read.action() != ReadAction::Receive
                ==> {
                &&& r matches Ok(n) && n == chunk_len(
                    old(self).state().read.pending.len(),
                    old(buf)@.len(),
                )
                &&& final(self).state().read == old(self).state().read.after_local(
                    old(buf)@.len(),
                )
                &&& final(buf)@ == filled(
                    old(buf)@,
                    old(self).state().read.local_output(old(buf)@.len()),
                )
                &&& final(self).channel() == old(self).channel()
            },
            old(self).state().connected && old(self).state().read.action() == ReadAction::Receive
                ==> match r {
                Ok(n) => {
                    let message = final(buf)@.take(n as int) + final(self).state().read.pending;
                    &&& n == chunk_len(message.len(), old(buf)@.len())
                    &&& final(self).state().read == ReadView::after_message(
                        message,
                        old(buf)@.len(),
                    )
                    &&& final(buf)@ == filled(old(buf)@, message.take(n as int))
                },
                Err(e) => {
                    &&& e is TransportFailure
                    &&& final(self).state() == old(self).state()
                    &&& final(buf)@ == old(buf)@
                },
            },
    {
        match self.state.read_buffered(buf) {
            Err(refusal) => Err(refusal),
            Ok(Some(n)) => Ok(n),
            Ok(None) => {
                let received = self.transport_handler.recv();
                let ghost got = received;
                let r = self.state.deliver(received, buf);
                proof {
                    if let Ok(message) = got {
                        let n = chunk_len(message@.len(), old(buf)@.len()) as int;
                        assert(buf@.take(n) =~= message@.take(n));
                        assert(message@.take(n) + message@.skip(n) =~= message@);
                    }
                }
                r
            },
        }
    }

    /// Sends the whole of `buf` as one message.
    ///
    /// A server that is not connected fails at once and the channel is not
    /// asked. Otherwise the channel's answer is passed on: on success the
    /// length of `buf`, all of which was accepted; a failure wrapped as a
    /// transport failure.
    pub fn write(&mut self, buf: &[u8]) -> (r: Result<usize, StreamError>)
        ensures
            final(self).state() == old(self).state(),
            !old(self).state().connected ==> r == Err::<usize, StreamError>(
                StreamError::NotConnected,
            ) && final(self).channel() == old(self).channel(),
            old(self).state().connected ==> match r {
                Ok(n) => n == buf@.len(),
                Err(e) => e is TransportFailure,
            },
    {
        match self.state.check_connected() {
            Err(refusal) => Err(refusal),
            Ok(()) => surface(self.transport_handler.send(buf)),
        }
    }

    /// Does nothing: a write leaves nothing behind to flush.
    pub fn flush(&mut self) -> (r: Result<(), StreamError>)
        ensures
            r is Ok,
            *final(self) == *old(self),
    {
        Ok(())
    }
}

} // verus!

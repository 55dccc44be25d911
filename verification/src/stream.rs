//! How received messages are handed to a reader whose buffer may be smaller
//! than a message.
//!
//! A reader sees each message that holds at least one byte as a run of reads
//! that hand out its bytes, followed by one read of zero bytes, the boundary
//! signal. An empty message is the exception: it reads as zero bytes once and
//! owes no boundary after that, so the reader cannot tell it from a boundary.
//! [`ReadState`] keeps what is needed between reads: the bytes of the current
//! message that the reader has not taken yet, and the message's length.
//! [`ReadView`] is its mathematical model, and the laws at the end of this
//! file are stated over that model.

use vstd::prelude::*;
use vstd::slice::{slice_subrange, slice_to_vec};
use crate::error::{surfaced, ChannelError, StreamError};

verus! {

/// What the next read has to do.
#[derive(Debug, Clone, Copy, PartialEq, Eq, Structural)]
pub enum ReadAction {
    /// Bytes of the current message are waiting: hand them out.
    Drain,
    /// The current message has been handed out in full: report its end.
    SignalBoundary,
    /// Nothing is left of any message: ask the channel for the next one.
    Receive,
}

/// The model of a [`ReadState`].
pub struct ReadView {
    /// The bytes of the current message that no read has taken yet, in order.
    pub pending: Seq<u8>,
    /// The length of the current message; 0 when no boundary is owed.
    pub total_len: nat,
}

/// The number of bytes that one read moves: all that is available, or as many
/// as the reader's buffer holds if that is fewer.
pub open spec fn chunk_len(available: nat, capacity: nat) -> nat {
    if available <= capacity {
        available
    } else {
        capacity
    }
}

/// A reader's buffer after `chunk` was copied to its front: the bytes behind
/// the chunk stay as they were.
pub open spec fn filled(buf: Seq<u8>, chunk: Seq<u8>) -> Seq<u8> {
    chunk + buf.skip(chunk.len() as int)
}

impl ReadView {
    /// The state in which nothing is buffered and no boundary is owed.
    pub open spec fn idle() -> ReadView {
        ReadView { pending: Seq::empty(), total_len: 0 }
    }

    /// The buffered bytes are a part of one message.
    pub open spec fn wf(self) -> bool {
        self.pending.len() <= self.total_len
    }

    pub open spec fn action(self) -> ReadAction {
        if self.pending.len() > 0 {
            ReadAction::Drain
        } else if self.total_len != 0 {
            ReadAction::SignalBoundary
        } else {
            ReadAction::Receive
        }
    }

    /// The state right after `message` arrived and a reader with room for
    /// `capacity` bytes took its first part.
    pub open spec fn after_message(message: Seq<u8>, capacity: nat) -> ReadView {
        ReadView {
            pending: message.skip(chunk_len(message.len(), capacity) as int),
            total_len: message.len(),
        }
    }

    /// The bytes that a read with room for `capacity` bytes hands out without
    /// asking the channel.
    pub open spec fn local_output(self, capacity: nat) -> Seq<u8> {
        self.pending.take(chunk_len(self.pending.len(), capacity) as int)
    }

    /// The state after a read with room for `capacity` bytes that does not ask
    /// the channel: waiting bytes leave from the front; with none waiting, an
    /// owed boundary is paid; an idle state stays idle.
    pub open spec fn after_local(self, capacity: nat) -> ReadView {
        match self.action() {
            ReadAction::Drain => ReadView {
                pending: self.pending.skip(chunk_len(self.pending.len(), capacity) as int),
                total_len: self.total_len,
            },
            ReadAction::SignalBoundary => ReadView { pending: self.pending, total_len: 0 },
            ReadAction::Receive => self,
        }
    }

    /// The state after one such read for each entry of `capacities`, in order.
    pub open spec fn after_reads(self, capacities: Seq<nat>) -> ReadView
        decreases capacities.len(),
    {
        if capacities.len() == 0 {
            self
        } else {
            self.after_reads(capacities.drop_last()).after_local(capacities.last())
        }
    }

    /// All the bytes that those reads hand out, in order.
    pub open spec fn outputs(self, capacities: Seq<nat>) -> Seq<u8>
        decreases capacities.len(),
    {
        if capacities.len() == 0 {
            Seq::empty()
        } else {
            self.outputs(capacities.drop_last()) + self.after_reads(
                capacities.drop_last(),
            ).local_output(capacities.last())
        }
    }
}

/// The leftover of the message being read and the boundary that is owed for
/// it.
#[derive(Debug)]
pub struct ReadState {
    read_buffer: Vec<u8>,
    read_total_len: usize,
}

impl View for ReadState {
    type V = ReadView;

    closed spec fn view(&self) -> ReadView {
        ReadView { pending: self.read_buffer@, total_len: self.read_total_len as nat }
    }
}

/// Copies the first `n` bytes of `src` to the front of `dst`.
fn copy_prefix(dst: &mut [u8], src: &[u8], n: usize)
    requires
        n <= old(dst)@.len(),
        n <= src@.len(),
    ensures
        final(dst)@ == filled(old(dst)@, src@.take(n as int)),
{
    let mut i: usize = 0;
    while i < n
        invariant
            i <= n,
            n <= src@.len(),
            dst@.len() == old(dst)@.len(),
            n <= dst@.len(),
            forall|j: int| 0 <= j < i ==> dst@[j] == src@[j],
            forall|j: int| i <= j < dst@.len() ==> dst@[j] == old(dst)@[j],
        decreases n - i,
    {
        dst[i] = src[i];
        i += 1;
    }
    assert(dst@ =~= filled(old(dst)@, src@.take(n as int)));
}

impl ReadState {
    #[verifier::type_invariant]
    spec fn inv(self) -> bool {
        self.read_buffer@.len() <= self.read_total_len
    }

    /// A state with nothing buffered and no boundary owed.
    pub fn new() -> (s: ReadState)
        ensures
            s@ == ReadView::idle(),
    {
        ReadState { read_buffer: Vec::new(), read_total_len: 0 }
    }

    /// The number of received bytes that no read has taken yet.
    pub fn pending_len(&self) -> (n: usize)
        ensures
            n == self@.pending.len(),
            self@.wf(),
    {
        proof {
            use_type_invariant(self);
        }
        self.read_buffer.len()
    }

    /// The length of the message being read, or 0 when no boundary is owed.
    pub fn total_len(&self) -> (n: usize)
        ensures
            n == self@.total_len,
    {
        self.read_total_len
    }

    /// What the next read has to do.
    pub fn next_action(&self) -> (a: ReadAction)
        ensures
            a == self@.action(),
    {
        if self.read_buffer.len() > 0 {
            ReadAction::Drain
        } else if self.read_total_len != 0 {
            ReadAction::SignalBoundary
        } else {
            ReadAction::Receive
        }
    }

    /// Serves a read from what is already here, if anything is.
    ///
    /// With bytes waiting, as many as fit move to the front of `buf` and their
    /// number is returned. With none waiting and a boundary owed, the boundary
    /// is paid: the result is `Some(0)` and `buf` is untouched. Otherwise the
    /// result is `None`: the next message has to be received first.
    pub fn read_buffered(&mut self, buf: &mut [u8]) -> (r: Option<usize>)
        ensures
            final(self)@ == old(self)@.after_local(old(buf)@.len()),
            final(buf)@ == filled(old(buf)@, old(self)@.local_output(old(buf)@.len())),
            old(self)@.action() == ReadAction::Receive ==> r is None,
            old(self)@.action() != ReadAction::Receive ==> (r matches Some(n) && n == chunk_len(
                old(self)@.pending.len(),
                old(buf)@.len(),
            )),
    {
        proof {
            use_type_invariant(&*self);
        }
        let available = self.read_buffer.len();
        if available > 0 {
            let n = if available <= buf.len() {
                available
            } else {
                buf.len()
            };
            copy_prefix(buf, self.read_buffer.as_slice(), n);
            let rest = slice_to_vec(slice_subrange(self.read_buffer.as_slice(), n, available));
            self.read_buffer = rest;
            Some(n)
        } else if self.read_total_len != 0 {
            self.read_total_len = 0;
            assert(buf@ =~= filled(old(buf)@, old(self)@.local_output(old(buf)@.len())));
            Some(0)
        } else {
            assert(buf@ =~= filled(old(buf)@, old(self)@.local_output(old(buf)@.len())));
            None
        }
    }

    /// Takes in what the channel gave for the next message and serves the read
    /// from it.
    ///
    /// A message's first part, as much as fits, moves to the front of `buf`;
    /// the rest is kept for the reads that follow, and the message's length is
    /// noted so that its end is reported once. A failure changes nothing and
    /// is passed on, wrapped as a transport failure.
    pub fn deliver(&mut self, received: Result<Vec<u8>, ChannelError>, buf: &mut [u8]) -> (r:
        Result<usize, StreamError>)
        requires
            old(self)@.action() == ReadAction::Receive,
        ensures
            match received {
                Ok(message) => {
                    &&& r matches Ok(n) && n == chunk_len(message@.len(), old(buf)@.len())
                    &&& final(self)@ == ReadView::after_message(message@, old(buf)@.len())
                    &&& final(buf)@ == filled(
                        old(buf)@,
                        message@.take(chunk_len(message@.len(), old(buf)@.len()) as int),
                    )
                },
                Err(cause) => {
                    &&& r == Err::<usize, StreamError>(StreamError::TransportFailure(cause))
                    &&& final(self)@ == old(self)@
                    &&& final(buf)@ == old(buf)@
                },
            },
    {
        match received {
            Ok(message) => {
                let mut head = message;
                let len = head.len();
                let n = if len <= buf.len() {
                    len
                } else {
                    buf.len()
                };
                let rest = head.split_off(n);
                copy_prefix(buf, head.as_slice(), n);
                self.read_total_len = len;
                self.read_buffer = rest;
                Ok(n)
            },
            Err(cause) => Err(StreamError::TransportFailure(cause)),
        }
    }
}

/// The model of a [`StreamState`].
pub struct StreamView {
    /// The adapter's own record of being connected.
    pub connected: bool,
    /// The leftover of the message being read.
    pub read: ReadView,
}

impl StreamView {
    /// The state of an adapter that has read nothing yet.
    pub open spec fn fresh(connected: bool) -> StreamView {
        StreamView { connected, read: ReadView::idle() }
    }

    /// Whether the adapter counts as connected, given the channel's answer:
    /// its own record and the channel must both say so.
    pub open spec fn is_connected(self, channel_live: bool) -> bool {
        self.connected && channel_live
    }

    /// What the adapter answers to an operation that needs a connection,
    /// before the channel is asked.
    pub open spec fn connection_check(self) -> Result<(), StreamError> {
        if self.connected {
            Ok(())
        } else {
            Err(StreamError::NotConnected)
        }
    }

    /// What the adapter answers to a disconnect before the channel is asked:
    /// unread bytes forbid it.
    pub open spec fn disconnect_check(self) -> Result<(), StreamError> {
        if self.read.pending.len() > 0 {
            Err(StreamError::PendingDataOnDisconnect(self.read.pending.len() as usize))
        } else {
            Ok(())
        }
    }

    /// The state after the channel answered a connect.
    pub open spec fn after_connect(self, outcome: Result<(), ChannelError>) -> StreamView {
        if outcome is Ok {
            StreamView { connected: true, read: self.read }
        } else {
            self
        }
    }

    /// The state after the channel answered a disconnect.
    pub open spec fn after_disconnect(self, outcome: Result<(), ChannelError>) -> StreamView {
        if outcome is Ok {
            StreamView { connected: false, read: self.read }
        } else {
            self
        }
    }
}

/// All that an adapter keeps besides its channel: its record of being
/// connected and the leftover of the message being read.
///
/// Every decision of an adapter is taken here. The adapter itself only
/// carries questions to the channel and the channel's answers back.
#[derive(Debug)]
pub struct StreamState {
    connected: bool,
    read: ReadState,
}

impl View for StreamState {
    type V = StreamView;

    closed spec fn view(&self) -> StreamView {
        StreamView { connected: self.connected, read: self.read@ }
    }
}

impl StreamState {
    /// The state of an adapter that has read nothing yet; `connected` says
    /// whether its channel counts as connected already.
    pub fn new(connected: bool) -> (s: StreamState)
        ensures
            s@ == StreamView::fresh(connected),
    {
        StreamState { connected, read: ReadState::new() }
    }

    /// The adapter's own record of being connected.
    pub fn connected(&self) -> (r: bool)
        ensures
            r == self@.connected,
    {
        self.connected
    }

    /// The number of received bytes that no read has taken yet.
    pub fn pending_len(&self) -> (n: usize)
        ensures
            n == self@.read.pending.len(),
            self@.read.wf(),
    {
        self.read.pending_len()
    }

    /// Whether the adapter counts as connected, given what the channel
    /// answered.
    pub fn is_connected(&self, channel_live: bool) -> (r: bool)
        ensures
            r == self@.is_connected(channel_live),
    {
        self.connected && channel_live
    }

    /// Refuses an operation that needs a connection if there is none on
    /// record.
    pub fn check_connected(&self) -> (r: Result<(), StreamError>)
        ensures
            r == self@.connection_check(),
    {
        if self.connected {
            Ok(())
        } else {
            Err(StreamError::NotConnected)
        }
    }

    /// Takes note of the channel's answer to a connect and passes it on:
    /// success is put on record, a failure leaves the record as it was.
    pub fn connect_done(&mut self, outcome: Result<(), ChannelError>) -> (r: Result<
        (),
        StreamError,
    >)
        ensures
            r == surfaced(outcome),
            final(self)@ == old(self)@.after_connect(outcome),
    {
        match outcome {
            Ok(()) => {
                self.connected = true;
                Ok(())
            },
            Err(cause) => Err(StreamError::TransportFailure(cause)),
        }
    }

    /// Refuses a disconnect while received bytes are unread, and says how
    /// many there are.
    pub fn check_disconnect(&self) -> (r: Result<(), StreamError>)
        ensures
            r == self@.disconnect_check(),
    {
        let unread = self.read.pending_len();
        if unread > 0 {
            Err(StreamError::PendingDataOnDisconnect(unread))
        } else {
            Ok(())
        }
    }

    /// Takes note of the channel's answer to a disconnect and passes it on:
    /// on success the record is cleared, a failure leaves it as it was.
    pub fn disconnect_done(&mut self, outcome: Result<(), ChannelError>) -> (r: Result<
        (),
        StreamError,
    >)
        ensures
            r == surfaced(outcome),
            final(self)@ == old(self)@.after_disconnect(outcome),
    {
        match outcome {
            Ok(()) => {
                self.connected = false;
                Ok(())
            },
            Err(cause) => Err(StreamError::TransportFailure(cause)),
        }
    }

    /// Serves a read as far as that takes no new message.
    ///
    /// Without a connection on record the read is refused and nothing
    /// changes. Otherwise the result is that of [`ReadState::read_buffered`]:
    /// `Some` with the number of bytes moved to the front of `buf`, which is 0
    /// for the boundary signal, or `None` when the next message has to be
    /// received first.
    pub fn read_buffered(&mut self, buf: &mut [u8]) -> (r: Result<Option<usize>, StreamError>)
        ensures
            final(self)@.connected == old(self)@.connected,
            !old(self)@.connected ==> {
                &&& r == Err::<Option<usize>, StreamError>(StreamError::NotConnected)
                &&& final(self)@ == old(self)@
                &&& final(buf)@ == old(buf)@
            },
            old(self)@.connected ==> {
                &&& final(self)@.read == old(self)@.read.after_local(old(buf)@.len())
                &&& final(buf)@ == filled(
                    old(buf)@,
                    old(self)@.read.local_output(old(buf)@.len()),
                )
                &&& old(self)@.read.action() == ReadAction::Receive ==> r == Ok::<
                    Option<usize>,
                    StreamError,
                >(None)
                &&& old(self)@.read.action() != ReadAction::Receive ==> (r matches Ok(Some(n))
                    && n == chunk_len(old(self)@.read.pending.len(), old(buf)@.len()))
            },
    {
        if !self.connected {
            return Err(StreamError::NotConnected);
        }
        Ok(self.read.read_buffered(buf))
    }

    /// Takes in what the channel gave for the next message and serves the
    /// read from it, as [`ReadState::deliver`] does.
    pub fn deliver(&mut self, received: Result<Vec<u8>, ChannelError>, buf: &mut [u8]) -> (r:
        Result<usize, StreamError>)
        requires
            old(self)@.read.action() == ReadAction::Receive,
        ensures
            final(self)@.connected == old(self)@.connected,
            match received {
                Ok(message) => {
                    &&& r matches Ok(n) && n == chunk_len(message@.len(), old(buf)@.len())
                    &&& final(self)@.read == ReadView::after_message(message@, old(buf)@.len())
                    &&& final(buf)@ == filled(
                        old(buf)@,
                        message@.take(chunk_len(message@.len(), old(buf)@.len()) as int),
                    )
                },
                Err(cause) => {
                    &&& r == Err::<usize, StreamError>(StreamError::TransportFailure(cause))
                    &&& final(self)@ == old(self)@
                    &&& final(buf)@ == old(buf)@
                },
            },
    {
        self.read.deliver(received, buf)
    }
}

/// The room that a run of reads offers in all.
pub open spec fn total_capacity(capacities: Seq<nat>) -> nat
    decreases capacities.len(),
{
    if capacities.len() == 0 {
        0
    } else {
        total_capacity(capacities.drop_last()) + capacities.last()
    }
}

/// `count` reads, each with room for `capacity` bytes.
pub open spec fn steady(capacity: nat, count: nat) -> Seq<nat> {
    Seq::new(count, |i: int| capacity)
}

/// The number of reads with room for `capacity` bytes that it takes to hand
/// out `len` bytes: `len / capacity`, rounded up.
pub open spec fn reads_to_drain(len: nat, capacity: nat) -> nat
    recommends
        capacity > 0,
{
    ((len + capacity - 1) / (capacity as int)) as nat
}

/// Reads that do not ask the channel hand out the waiting bytes from the
/// front, as far as their room goes in all, and leave the rest waiting.
pub proof fn lemma_reads_take_prefix(state: ReadView, capacities: Seq<nat>)
    ensures
        state.outputs(capacities) == state.pending.take(
            chunk_len(state.pending.len(), total_capacity(capacities)) as int,
        ),
        state.after_reads(capacities).pending == state.pending.skip(
            chunk_len(state.pending.len(), total_capacity(capacities)) as int,
        ),
    decreases capacities.len(),
{
    let bytes = state.pending;
    if capacities.len() == 0 {
        assert(state.outputs(capacities) =~= bytes.take(0));
        assert(state.after_reads(capacities).pending =~= bytes.skip(0));
    } else {
        let earlier = capacities.drop_last();
        lemma_reads_take_prefix(state, earlier);
        let before = state.after_reads(earlier);
        let done = chunk_len(bytes.len(), total_capacity(earlier)) as int;
        let step = chunk_len(before.pending.len(), capacities.last()) as int;
        assert(before.after_local(capacities.last()).pending =~= bytes.skip(done + step));
        assert(bytes.take(done) + before.local_output(capacities.last()) =~= bytes.take(
            done + step,
        ));
    }
}

/// The room of `count` equal reads is `count` times the room of one.
pub proof fn lemma_steady_total(capacity: nat, count: nat)
    ensures
        total_capacity(steady(capacity, count)) == count * capacity,
    decreases count,
{
    if count > 0 {
        let fewer = (count - 1) as nat;
        assert(steady(capacity, count).drop_last() =~= steady(capacity, fewer));
        assert(steady(capacity, count).last() == capacity);
        lemma_steady_total(capacity, fewer);
        assert(count * capacity == fewer * capacity + capacity) by (nonlinear_arith)
            requires
                fewer == count - 1,
        ;
    } else {
        assert(steady(capacity, count).len() == 0);
        assert(count * capacity == 0) by (nonlinear_arith)
            requires
                count == 0,
        ;
    }
}

/// As long as every one of `count` equal reads finds bytes waiting, the
/// message's length stays noted.
pub proof fn lemma_steady_keeps_length(state: ReadView, capacity: nat, count: nat)
    requires
        count > 0 ==> state.pending.len() > (count - 1) * capacity,
    ensures
        state.after_reads(steady(capacity, count)).total_len == state.total_len,
    decreases count,
{
    if count > 0 {
        let fewer = (count - 1) as nat;
        assert(steady(capacity, count).drop_last() =~= steady(capacity, fewer));
        if fewer > 0 {
            assert((fewer - 1) * capacity <= fewer * capacity) by (nonlinear_arith)
                requires
                    fewer > 0,
            ;
        }
        lemma_steady_keeps_length(state, capacity, fewer);
        lemma_reads_take_prefix(state, steady(capacity, fewer));
        lemma_steady_total(capacity, fewer);
        assert(state.after_reads(steady(capacity, fewer)).action() == ReadAction::Drain);
    }
}

/// A message comes out as it went in, however the reader's buffers split it.
///
/// Let a message arrive at a read with room for `first` bytes, and let reads
/// with room for `rest` follow. Then the bytes handed out, in order, followed
/// by those still waiting are the message. If the reads offer at least as
/// much room in all as the message is long, the bytes handed out are the
/// message, and nothing is waiting.
pub proof fn lemma_message_survives_any_split(message: Seq<u8>, first: nat, rest: Seq<nat>)
    ensures
        ({
            let start = ReadView::after_message(message, first);
            let head = message.take(chunk_len(message.len(), first) as int);
            &&& head + start.outputs(rest) + start.after_reads(rest).pending == message
            &&& first + total_capacity(rest) >= message.len() ==> {
                &&& head + start.outputs(rest) == message
                &&& start.after_reads(rest).pending.len() == 0
            }
        }),
{
    let start = ReadView::after_message(message, first);
    let head = message.take(chunk_len(message.len(), first) as int);
    lemma_reads_take_prefix(start, rest);
    let more = chunk_len(start.pending.len(), total_capacity(rest)) as int;
    assert(start.pending.take(more) + start.pending.skip(more) =~= start.pending);
    assert(head + start.pending =~= message);
    assert(head + start.outputs(rest) + start.after_reads(rest).pending =~= message);
    if first + total_capacity(rest) >= message.len() {
        assert(start.after_reads(rest).pending.len() == 0);
        assert(head + start.outputs(rest) =~= message);
    }
}

/// The end of a message is reported right after its last byte.
///
/// Let a message longer than the reader's buffer be read with that buffer,
/// which holds at least one byte. It takes `reads_to_drain` reads to hand the
/// message out: before each of them but the first, bytes are still waiting.
/// After the last of them nothing is waiting and the boundary is owed, so the
/// next read hands out no byte, does not ask the channel, and leaves the
/// state idle.
pub proof fn lemma_boundary_follows_last_byte(message: Seq<u8>, capacity: nat)
    requires
        1 <= capacity < message.len(),
    ensures
        ({
            let start = ReadView::after_message(message, capacity);
            let reads = reads_to_drain(message.len(), capacity);
            let drained = start.after_reads(steady(capacity, (reads - 1) as nat));
            &&& reads >= 2
            &&& forall|done: nat|
                1 <= done < reads ==> (#[trigger] start.after_reads(
                    steady(capacity, (done - 1) as nat),
                )).action() == ReadAction::Drain
            &&& drained.action() == ReadAction::SignalBoundary
            &&& drained.local_output(capacity).len() == 0
            &&& drained.after_local(capacity) == ReadView::idle()
        }),
{
    let len = message.len() as int;
    let cap = capacity as int;
    let start = ReadView::after_message(message, capacity);
    let reads = reads_to_drain(message.len(), capacity);
    vstd::arithmetic::div_mod::lemma_fundamental_div_mod(len + cap - 1, cap);
    vstd::arithmetic::div_mod::lemma_mod_bound(len + cap - 1, cap);
    assert(reads * cap >= len && (reads - 1) * cap < len && reads >= 2) by (nonlinear_arith)
        requires
            len + cap - 1 == cap * reads + (len + cap - 1) % cap,
            0 <= (len + cap - 1) % cap < cap,
            1 <= cap < len,
    ;
    assert(start.pending.len() == len - cap);
    assert forall|done: nat| 1 <= done <= reads implies ({
        let state = #[trigger] start.after_reads(steady(capacity, (done - 1) as nat));
        &&& state.total_len == message.len()
        &&& state.pending.len() == if done * cap <= len {
            len - done * cap
        } else {
            0
        }
    }) by {
        let earlier = (done - 1) as nat;
        assert(earlier * cap == done * cap - cap && earlier * cap < len) by (nonlinear_arith)
            requires
                earlier == done - 1,
                1 <= done <= reads,
                (reads - 1) * cap < len,
                1 <= cap,
        ;
        if earlier > 0 {
            assert((earlier - 1) * cap == earlier * cap - cap) by (nonlinear_arith);
        }
        lemma_steady_total(capacity, earlier);
        lemma_reads_take_prefix(start, steady(capacity, earlier));
        lemma_steady_keeps_length(start, capacity, earlier);
    }
    let drained = start.after_reads(steady(capacity, (reads - 1) as nat));
    assert(drained.pending.len() == 0 && drained.total_len == message.len());
    assert(drained.pending =~= Seq::<u8>::empty());
    assert forall|done: nat| 1 <= done < reads implies (#[trigger] start.after_reads(
        steady(capacity, (done - 1) as nat),
    )).action() == ReadAction::Drain by {
        assert(done * cap < len) by (nonlinear_arith)
            requires
                1 <= done < reads,
                (reads - 1) * cap < len,
                1 <= cap,
        ;
    }
}

/// An adapter does not count as connected before it has connected, nor
/// after a disconnect that succeeded. After a connect that succeeded it
/// counts as connected exactly while the channel says that it is.
pub proof fn lemma_connectivity(state: StreamView, channel_live: bool)
    ensures
        !StreamView::fresh(false).is_connected(channel_live),
        !state.after_disconnect(Ok(())).is_connected(channel_live),
        state.after_connect(Ok(())).is_connected(channel_live) == channel_live,
{
}

/// Whatever is read, the bytes that wait are a part of one message.
pub proof fn lemma_reads_keep_well_formed(state: ReadView, message: Seq<u8>, capacity: nat)
    ensures
        ReadView::idle().wf(),
        ReadView::after_message(message, capacity).wf(),
        state.wf() ==> state.after_local(capacity).wf(),
{
}

} // verus!

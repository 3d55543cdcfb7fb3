//! The bounded channel between producers and consumers: a first-in,
//! first-out buffer of chunks with a fixed capacity. A full channel refuses
//! the next chunk until a consumer takes one, which is what keeps a slow
//! disk from growing the memory of a fast producer.

use std::collections::VecDeque;
use vstd::prelude::*;

verus! {

/// One unit of data on its way to the file: where it goes and what it holds.
#[derive(Debug, PartialEq, Eq)]
pub struct DataChunk {
    pub offset: u64,
    pub data: Vec<u8>,
}

/// What became of an attempt to enqueue a chunk.
#[derive(Clone, Copy, Debug, PartialEq, Eq, Structural)]
pub enum SendOutcome {
    /// The chunk is in the channel.
    Accepted,
    /// The channel holds `capacity` chunks: the producer has to wait.
    Full,
    /// The channel was closed: the producer has to stop.
    Closed,
}

/// A refused chunk, handed back to the producer.
#[derive(Debug, PartialEq, Eq)]
pub enum SendError {
    Full(DataChunk),
    Closed(DataChunk),
}

/// Why no chunk came out of the channel.
#[derive(Clone, Copy, Debug, PartialEq, Eq, Structural)]
pub enum RecvError {
    /// Nothing is buffered, but producers may still send: the consumer has
    /// to wait.
    Empty,
    /// Nothing is buffered and the channel is closed: the consumer is done.
    Closed,
}

/// Mathematical state of a channel.
pub ghost struct ChannelSpec {
    pub capacity: nat,
    pub queue: Seq<DataChunk>,
    pub closed: bool,
}

impl ChannelSpec {
    /// An open, empty channel.
    pub open spec fn empty(capacity: nat) -> ChannelSpec {
        ChannelSpec { capacity, queue: Seq::empty(), closed: false }
    }

    /// The chunks in flight never outnumber the capacity.
    pub open spec fn wf(self) -> bool {
        0 < self.capacity && self.queue.len() <= self.capacity
    }

    /// What an enqueue attempt meets.
    pub open spec fn send_outcome(self) -> SendOutcome {
        if self.closed {
            SendOutcome::Closed
        } else if self.queue.len() >= self.capacity {
            SendOutcome::Full
        } else {
            SendOutcome::Accepted
        }
    }

    /// The channel after an enqueue attempt: the chunk is appended where it
    /// is accepted, and nothing changes otherwise.
    pub open spec fn send(self, chunk: DataChunk) -> ChannelSpec {
        if self.send_outcome() == SendOutcome::Accepted {
            ChannelSpec { queue: self.queue.push(chunk), ..self }
        } else {
            self
        }
    }

    /// What a dequeue attempt yields: the oldest chunk while any is
    /// buffered, closed or not.
    pub open spec fn recv_result(self) -> Result<DataChunk, RecvError> {
        if self.queue.len() > 0 {
            Ok(self.queue[0])
        } else if self.closed {
            Err(RecvError::Closed)
        } else {
            Err(RecvError::Empty)
        }
    }

    /// The channel after a dequeue attempt.
    pub open spec fn recv(self) -> ChannelSpec {
        if self.queue.len() > 0 {
            ChannelSpec { queue: self.queue.skip(1), ..self }
        } else {
            self
        }
    }

    /// The channel after its send side was shut: what is buffered stays.
    pub open spec fn close(self) -> ChannelSpec {
        ChannelSpec { closed: true, ..self }
    }

    /// The channel after one enqueue attempt for each of `chunks`, in order.
    pub open spec fn send_all(self, chunks: Seq<DataChunk>) -> ChannelSpec
        decreases chunks.len(),
    {
        if chunks.len() == 0 {
            self
        } else {
            self.send_all(chunks.drop_last()).send(chunks.last())
        }
    }

    /// The channel after `n` dequeue attempts.
    pub open spec fn recv_n(self, n: nat) -> ChannelSpec
        decreases n,
    {
        if n == 0 {
            self
        } else {
            self.recv_n((n - 1) as nat).recv()
        }
    }
}

/// Every operation keeps the chunks in flight within the capacity.
pub proof fn lemma_capacity_never_exceeded(s: ChannelSpec, chunk: DataChunk)
    requires
        s.wf(),
    ensures
        s.send(chunk).wf(),
        s.recv().wf(),
        s.close().wf(),
{
}

/// While the consumer takes nothing, an open channel accepts chunks up to
/// its capacity and keeps them in order.
pub proof fn lemma_fill(capacity: nat, chunks: Seq<DataChunk>)
    requires
        0 < capacity,
        chunks.len() <= capacity,
    ensures
        ChannelSpec::empty(capacity).send_all(chunks) == (ChannelSpec {
            capacity,
            queue: chunks,
            closed: false,
        }),
    decreases chunks.len(),
{
    if chunks.len() > 0 {
        lemma_fill(capacity, chunks.drop_last());
        assert(chunks.drop_last().push(chunks.last()) =~= chunks);
    } else {
        assert(chunks =~= Seq::<DataChunk>::empty());
    }
}

/// Backpressure. After `capacity` chunks were enqueued and none was taken,
/// the next attempt is refused as `Full` and changes nothing; an attempt is
/// accepted exactly when fewer than `capacity` chunks are in flight, so the
/// refused chunk goes in as soon as one chunk, the oldest, has been taken.
pub proof fn lemma_backpressure(capacity: nat, chunks: Seq<DataChunk>, extra: DataChunk)
    requires
        0 < capacity,
        chunks.len() == capacity,
    ensures
        ({
            let full = ChannelSpec::empty(capacity).send_all(chunks);
            &&& full.queue == chunks
            &&& full.send_outcome() == SendOutcome::Full
            &&& full.send(extra) == full
            &&& full.recv_result() == Ok::<DataChunk, RecvError>(chunks[0])
            &&& full.recv().send_outcome() == SendOutcome::Accepted
            &&& full.recv().send(extra).queue == chunks.skip(1).push(extra)
        }),
        forall|s: ChannelSpec|
            s.wf() && !s.closed ==> (#[trigger] s.send_outcome() == SendOutcome::Accepted
                <==> s.queue.len() < s.capacity),
{
    lemma_fill(capacity, chunks);
}

/// Shutdown loses nothing. After the send side is shut, no further chunk
/// is accepted, the chunks that were buffered come out in the order in
/// which they went in, and only then does the consumer see `Closed`.
pub proof fn lemma_close_drains(s: ChannelSpec, chunk: DataChunk, n: nat)
    requires
        s.wf(),
        n <= s.queue.len(),
    ensures
        s.close().send(chunk) == s.close(),
        s.close().recv_n(n).queue == s.queue.skip(n as int),
        s.close().recv_n(n).closed,
        n < s.queue.len() ==> s.close().recv_n(n).recv_result() == Ok::<DataChunk, RecvError>(
            s.queue[n as int],
        ),
        n == s.queue.len() ==> s.close().recv_n(n).recv_result() == Err::<DataChunk, RecvError>(
            RecvError::Closed,
        ),
    decreases n,
{
    if n > 0 {
        lemma_close_drains(s, chunk, (n - 1) as nat);
        assert(s.queue.skip(n - 1).skip(1) =~= s.queue.skip(n as int));
    } else {
        assert(s.queue.skip(0) =~= s.queue);
    }
}

/// A bounded first-in, first-out channel of chunks.
pub struct Channel {
    capacity: usize,
    queue: VecDeque<DataChunk>,
    closed: bool,
}

impl View for Channel {
    type V = ChannelSpec;

    closed spec fn view(&self) -> ChannelSpec {
        ChannelSpec { capacity: self.capacity as nat, queue: self.queue@, closed: self.closed }
    }
}

impl Channel {
    /// An open, empty channel that holds at most `capacity` chunks.
    pub fn new(capacity: usize) -> (ch: Channel)
        requires
            capacity > 0,
        ensures
            ch@ == ChannelSpec::empty(capacity as nat),
            ch@.wf(),
    {
        Channel { capacity, queue: VecDeque::new(), closed: false }
    }

    pub fn capacity(&self) -> (r: usize)
        ensures
            r == self@.capacity,
    {
        self.capacity
    }

    /// Number of chunks in flight.
    pub fn len(&self) -> (r: usize)
        ensures
            r == self@.queue.len(),
    {
        self.queue.len()
    }

    pub fn is_empty(&self) -> (r: bool)
        ensures
            r == (self@.queue.len() == 0),
    {
        self.queue.len() == 0
    }

    pub fn is_full(&self) -> (r: bool)
        ensures
            r == (self@.queue.len() >= self@.capacity),
    {
        self.queue.len() >= self.capacity
    }

    pub fn is_closed(&self) -> (r: bool)
        ensures
            r == self@.closed,
    {
        self.closed
    }

    /// Tries to enqueue `chunk`. A refused chunk comes back in the error.
    pub fn try_send(&mut self, chunk: DataChunk) -> (r: Result<(), SendError>)
        requires
            old(self)@.wf(),
        ensures
            final(self)@ == old(self)@.send(chunk),
            final(self)@.wf(),
            match r {
                Ok(()) => old(self)@.send_outcome() == SendOutcome::Accepted,
                Err(SendError::Full(c)) => old(self)@.send_outcome() == SendOutcome::Full && c
                    == chunk,
                Err(SendError::Closed(c)) => old(self)@.send_outcome() == SendOutcome::Closed && c
                    == chunk,
            },
    {
        if self.closed {
            Err(SendError::Closed(chunk))
        } else if self.queue.len() >= self.capacity {
            Err(SendError::Full(chunk))
        } else {
            self.queue.push_back(chunk);
            Ok(())
        }
    }

    /// Tries to dequeue the oldest chunk.
    pub fn try_recv(&mut self) -> (r: Result<DataChunk, RecvError>)
        requires
            old(self)@.wf(),
        ensures
            r == old(self)@.recv_result(),
            final(self)@ == old(self)@.recv(),
            final(self)@.wf(),
    {
        match self.queue.pop_front() {
            Some(chunk) => {
                assert(self.queue@ =~= old(self).queue@.skip(1));
                Ok(chunk)
            },
            None => {
                if self.closed {
                    Err(RecvError::Closed)
                } else {
                    Err(RecvError::Empty)
                }
            },
        }
    }

    /// Shuts the send side. Returns whether this call was the one that
    /// closed the channel.
    pub fn close(&mut self) -> (first: bool)
        requires
            old(self)@.wf(),
        ensures
            final(self)@ == old(self)@.close(),
            final(self)@.wf(),
            first == !old(self)@.closed,
    {
        let first = !self.closed;
        self.closed = true;
        first
    }
}

} // verus!

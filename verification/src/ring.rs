//! The ring between the decoding side and the playback side.
//!
//! A ring holds a fixed number of sample words in a circular store. The producer
//! owns the write cursor and the consumer owns the read cursor: `push` moves only
//! the first, `pop_into` only the second. Neither ever waits, allocates or
//! overwrites a sample that has not been read; a `push` that finds too little
//! room takes what fits and says how much that was.

use vstd::prelude::*;

verus! {

/// A fixed-capacity queue of sample words, oldest first.
#[derive(Debug)]
pub struct RingBuffer {
    /// Circular store; one slot more than the capacity, so that a full ring and an
    /// empty one differ in their cursors.
    slots: Vec<u32>,
    /// Slot of the oldest queued sample.
    read: usize,
    /// Slot that the next pushed sample goes to.
    write: usize,
}

/// The lesser of two numbers.
pub open spec fn least(a: nat, b: nat) -> nat {
    if a <= b {
        a
    } else {
        b
    }
}

/// The part of `offered` that a queue of `capacity` holding `queue` takes: as much
/// of its beginning as there is room for.
pub open spec fn accepted(queue: Seq<u32>, capacity: nat, offered: Seq<u32>) -> Seq<u32> {
    offered.take(least(offered.len(), (capacity - queue.len()) as nat) as int)
}

/// The queue after `offered` was pushed.
pub open spec fn after_push(queue: Seq<u32>, capacity: nat, offered: Seq<u32>) -> Seq<u32> {
    queue + accepted(queue, capacity, offered)
}

/// What a consumer that asks for `wanted` samples gets: the oldest ones, as many
/// as there are.
pub open spec fn taken(queue: Seq<u32>, wanted: nat) -> Seq<u32> {
    queue.take(least(wanted, queue.len()) as int)
}

/// The queue after a consumer asked for `wanted` samples.
pub open spec fn after_pop(queue: Seq<u32>, wanted: nat) -> Seq<u32> {
    queue.skip(least(wanted, queue.len()) as int)
}

/// The slot that lies `ahead` slots after `slot` in a circular store of `size`
/// slots.
pub open spec fn slot_ahead(slot: int, ahead: int, size: int) -> int {
    if slot + ahead < size {
        slot + ahead
    } else {
        slot + ahead - size
    }
}

/// How many slots lie from `read` up to `write`, going round.
pub open spec fn distance(read: int, write: int, size: int) -> int {
    if read <= write {
        write - read
    } else {
        write + size - read
    }
}

impl View for RingBuffer {
    type V = Seq<u32>;

    /// The queued samples, oldest first.
    closed spec fn view(&self) -> Seq<u32> {
        Seq::new(
            distance(self.read as int, self.write as int, self.slots@.len() as int) as nat,
            |i: int| self.slots@[slot_ahead(self.read as int, i, self.slots@.len() as int)],
        )
    }
}

impl RingBuffer {
    #[verifier::type_invariant]
    spec fn inv(&self) -> bool {
        &&& self.slots@.len() >= 1
        &&& self.read < self.slots@.len()
        &&& self.write < self.slots@.len()
    }

    /// How many samples the ring can hold. It never changes.
    pub closed spec fn capacity(&self) -> nat {
        (self.slots@.len() - 1) as nat
    }

    /// The cursor that only the consumer moves.
    pub closed spec fn read_cursor(&self) -> nat {
        self.read as nat
    }

    /// The cursor that only the producer moves.
    pub closed spec fn write_cursor(&self) -> nat {
        self.write as nat
    }

    /// The store that only the producer writes.
    pub closed spec fn store(&self) -> Seq<u32> {
        self.slots@
    }

    /// An empty ring for `capacity` samples; `None` for `usize::MAX`, for which no
    /// store can be addressed.
    pub fn new(capacity: usize) -> (made: Option<RingBuffer>)
        ensures
            made is Some <==> capacity < usize::MAX,
            made matches Some(ring) ==> ring@ == Seq::<u32>::empty() && ring.capacity()
                == capacity,
    {
        if capacity == usize::MAX {
            return None;
        }
        let size: usize = capacity + 1;
        let mut slots: Vec<u32> = Vec::new();
        let mut i: usize = 0;
        while i < size
            invariant
                i <= size,
                slots@.len() == i,
            decreases size - i,
        {
            slots.push(0);
            i = i + 1;
        }
        let ring = RingBuffer { slots, read: 0, write: 0 };
        Some(ring)
    }

    /// How many samples the ring can hold.
    pub fn max_len(&self) -> (capacity: usize)
        ensures
            capacity == self.capacity(),
    {
        proof {
            use_type_invariant(self);
        }
        self.slots.len() - 1
    }

    /// How many samples are queued.
    pub fn len(&self) -> (len: usize)
        ensures
            len == self@.len(),
            len <= self.capacity(),
    {
        proof {
            use_type_invariant(self);
        }
        if self.read <= self.write {
            self.write - self.read
        } else {
            self.slots.len() - self.read + self.write
        }
    }

    /// How many samples can be pushed before the ring is full.
    pub fn free(&self) -> (free: usize)
        ensures
            free == self.capacity() - self@.len(),
    {
        self.max_len() - self.len()
    }

    /// Whether no sample is queued.
    pub fn is_empty(&self) -> (empty: bool)
        ensures
            empty == (self@.len() == 0),
    {
        self.len() == 0
    }

    fn push_one(&mut self, sample: u32)
        requires
            old(self)@.len() < old(self).capacity(),
        ensures
            final(self)@ == old(self)@.push(sample),
            final(self).capacity() == old(self).capacity(),
            final(self).read_cursor() == old(self).read_cursor(),
    {
        proof {
            use_type_invariant(&*self);
        }
        let size: usize = self.slots.len();
        let at: usize = self.write;
        self.slots[at] = sample;
        self.write = if at + 1 == size {
            0
        } else {
            at + 1
        };
    }

    fn pop_one(&mut self) -> (sample: u32)
        requires
            old(self)@.len() > 0,
        ensures
            sample == old(self)@[0],
            final(self)@ == old(self)@.skip(1),
            final(self).capacity() == old(self).capacity(),
            final(self).write_cursor() == old(self).write_cursor(),
            final(self).store() == old(self).store(),
    {
        proof {
            use_type_invariant(&*self);
        }
        let size: usize = self.slots.len();
        let at: usize = self.read;
        let sample = self.slots[at];
        self.read = if at + 1 == size {
            0
        } else {
            at + 1
        };
        sample
    }

    /// Producer side: queues as much of the beginning of `samples` as there is
    /// room for and returns how many samples that was. Samples already queued are
    /// never overwritten, and the read cursor is not touched.
    pub fn push(&mut self, samples: &[u32]) -> (written: usize)
        ensures
            final(self)@ == after_push(old(self)@, old(self).capacity(), samples@),
            written == accepted(old(self)@, old(self).capacity(), samples@).len(),
            written == least(samples@.len(), (old(self).capacity() - old(self)@.len()) as nat),
            final(self).capacity() == old(self).capacity(),
            final(self).read_cursor() == old(self).read_cursor(),
    {
        let room: usize = self.free();
        let count: usize = if samples.len() <= room {
            samples.len()
        } else {
            room
        };
        let mut i: usize = 0;
        while i < count
            invariant
                i <= count <= samples@.len(),
                count == least(samples@.len(), (old(self).capacity() - old(self)@.len()) as nat),
                self@ == old(self)@ + samples@.take(i as int),
                self.capacity() == old(self).capacity(),
                self.read_cursor() == old(self).read_cursor(),
                old(self)@.len() <= old(self).capacity(),
            decreases count - i,
        {
            self.push_one(samples[i]);
            i = i + 1;
        }
        count
    }

    /// Consumer side: moves the oldest queued samples to the beginning of `out`,
    /// as many as there are and `out` has room for, and returns how many samples
    /// that was. The rest of `out` stays as it was, and neither the write cursor nor
    /// the store is touched.
    pub fn pop_into(&mut self, out: &mut [u32]) -> (read: usize)
        ensures
            read == least(old(out)@.len(), old(self)@.len()),
            final(out)@ == taken(old(self)@, old(out)@.len()) + old(out)@.skip(read as int),
            final(self)@ == after_pop(old(self)@, old(out)@.len()),
            final(self).capacity() == old(self).capacity(),
            final(self).write_cursor() == old(self).write_cursor(),
            final(self).store() == old(self).store(),
    {
        let queued: usize = self.len();
        let count: usize = if out.len() <= queued {
            out.len()
        } else {
            queued
        };
        let mut i: usize = 0;
        while i < count
            invariant
                i <= count,
                count == least(old(out)@.len(), old(self)@.len()),
                out@.len() == old(out)@.len(),
                out@ == old(self)@.take(i as int) + old(out)@.skip(i as int),
                self@ == old(self)@.skip(i as int),
                self.capacity() == old(self).capacity(),
                self.write_cursor() == old(self).write_cursor(),
                self.store() == old(self).store(),
            decreases count - i,
        {
            let sample = self.pop_one();
            out[i] = sample;
            i = i + 1;
        }
        count
    }
}

/// One call on a ring: a producer offering samples, or a consumer asking for a
/// number of them.
pub ghost enum RingOp {
    Push(Seq<u32>),
    Pop(nat),
}

/// The queue of a ring of `capacity` that was made empty and then saw `ops`.
pub open spec fn queue_after(capacity: nat, ops: Seq<RingOp>) -> Seq<u32>
    decreases ops.len(),
{
    if ops.len() == 0 {
        Seq::empty()
    } else {
        let before = queue_after(capacity, ops.drop_last());
        match ops.last() {
            RingOp::Push(offered) => after_push(before, capacity, offered),
            RingOp::Pop(wanted) => after_pop(before, wanted),
        }
    }
}

/// Every sample that the pushes among `ops` queued, in the order of the pushes.
pub open spec fn produced(capacity: nat, ops: Seq<RingOp>) -> Seq<u32>
    decreases ops.len(),
{
    if ops.len() == 0 {
        Seq::empty()
    } else {
        let before = queue_after(capacity, ops.drop_last());
        match ops.last() {
            RingOp::Push(offered) => produced(capacity, ops.drop_last()) + accepted(
                before,
                capacity,
                offered,
            ),
            RingOp::Pop(_) => produced(capacity, ops.drop_last()),
        }
    }
}

/// Every sample that the pops among `ops` handed out, in the order of the pops.
pub open spec fn consumed(capacity: nat, ops: Seq<RingOp>) -> Seq<u32>
    decreases ops.len(),
{
    if ops.len() == 0 {
        Seq::empty()
    } else {
        let before = queue_after(capacity, ops.drop_last());
        match ops.last() {
            RingOp::Push(_) => consumed(capacity, ops.drop_last()),
            RingOp::Pop(wanted) => consumed(capacity, ops.drop_last()) + taken(before, wanted),
        }
    }
}

/// First in, first out: whatever pushes and pops a ring has seen, in whatever
/// order, what the consumer was handed followed by what is still queued is exactly
/// what the producer queued, in the order in which it was queued. No sample is
/// lost, repeated or moved, and the queue never exceeds the capacity.
pub proof fn lemma_fifo(capacity: nat, ops: Seq<RingOp>)
    ensures
        queue_after(capacity, ops).len() <= capacity,
        consumed(capacity, ops) + queue_after(capacity, ops) == produced(capacity, ops),
    decreases ops.len(),
{
    if ops.len() > 0 {
        lemma_fifo(capacity, ops.drop_last());
    }
}

/// A producer that waits for room loses nothing: offered to a queue with room
/// for all of them, samples are queued whole; offered to one with less room,
/// they are queued as a beginning, and the rest, offered again later, continues
/// where that beginning ended.
pub proof fn lemma_push_in_parts(queue: Seq<u32>, capacity: nat, offered: Seq<u32>)
    requires
        queue.len() <= capacity,
    ensures
        queue.len() + offered.len() <= capacity ==> accepted(queue, capacity, offered) == offered,
        accepted(queue, capacity, offered) + offered.skip(
            accepted(queue, capacity, offered).len() as int,
        ) == offered,
        after_push(queue, capacity, offered).len() <= capacity,
{
}

/// A producer that waits for room, and the consumer it feeds. The producer has
/// `stream` to send. In every round it offers what it has not sent yet, and the
/// consumer then asks for as many samples as `polls` says for that round.
pub ghost struct Rounds {
    /// What the consumer was handed, in the order it was handed out.
    pub heard: Seq<u32>,
    /// What is queued.
    pub queue: Seq<u32>,
    /// What the producer has not sent yet.
    pub rest: Seq<u32>,
}

/// The state of producer, ring and consumer after the rounds of `polls`.
pub open spec fn rounds(capacity: nat, stream: Seq<u32>, polls: Seq<nat>) -> Rounds
    decreases polls.len(),
{
    if polls.len() == 0 {
        Rounds { heard: Seq::empty(), queue: Seq::empty(), rest: stream }
    } else {
        let before = rounds(capacity, stream, polls.drop_last());
        let queue = after_push(before.queue, capacity, before.rest);
        Rounds {
            heard: before.heard + taken(queue, polls.last()),
            queue: after_pop(queue, polls.last()),
            rest: before.rest.skip(accepted(before.queue, capacity, before.rest).len() as int),
        }
    }
}

/// A producer that waits for room loses nothing and moves nothing: at all times,
/// what the consumer has heard, then what is queued, then what is still to be
/// sent, is the stream.
pub proof fn lemma_waiting_producer_loses_nothing(capacity: nat, stream: Seq<u32>, polls: Seq<nat>)
    ensures
        rounds(capacity, stream, polls).heard + rounds(capacity, stream, polls).queue + rounds(
            capacity,
            stream,
            polls,
        ).rest == stream,
        rounds(capacity, stream, polls).queue.len() <= capacity,
    decreases polls.len(),
{
    if polls.len() > 0 {
        lemma_waiting_producer_loses_nothing(capacity, stream, polls.drop_last());
    }
}

/// The consumer hears the whole stream, and hears it in order: with a ring that
/// holds at least one sample and a consumer that asks for at least one sample in
/// every round, every round hands out a sample until none is left, so that after
/// as many rounds as the stream is long the consumer has heard exactly the stream.
pub proof fn lemma_waiting_producer_is_heard(capacity: nat, stream: Seq<u32>, polls: Seq<nat>)
    requires
        capacity > 0,
        forall|i: int| 0 <= i < polls.len() ==> #[trigger] polls[i] > 0,
    ensures
        rounds(capacity, stream, polls).heard.len() >= least(polls.len(), stream.len()),
        polls.len() >= stream.len() ==> rounds(capacity, stream, polls).heard == stream,
    decreases polls.len(),
{
    lemma_waiting_producer_loses_nothing(capacity, stream, polls);
    if polls.len() > 0 {
        let earlier = polls.drop_last();
        lemma_waiting_producer_is_heard(capacity, stream, earlier);
        lemma_waiting_producer_loses_nothing(capacity, stream, earlier);
    }
}

} // verus!

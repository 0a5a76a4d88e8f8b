//! The playback sink: what the device callback runs.
//!
//! The audio subsystem calls the sink at a fixed cadence and must be answered in
//! bounded time. `pull` therefore only moves words: it drains what the ring holds
//! into the output and writes silence where decoded audio is missing. Running out
//! of audio is counted and never fails the callback.

use crate::ring::{after_pop, after_push, least, taken, RingBuffer};
use crate::sample::StreamDescriptor;
use crate::session::DeviceError;
use vstd::prelude::*;
use vstd::slice::slice_subrange;

verus! {

/// The consumer end of a session: a ring and the silence of the device format.
#[derive(Debug)]
pub struct PlaybackSink {
    ring: RingBuffer,
    silence: u32,
    underruns: u64,
}

/// What a device callback that asks for `wanted` samples is handed: the oldest
/// queued samples, and silence in every place for which none is queued.
pub open spec fn polled(queue: Seq<u32>, wanted: nat, silence: u32) -> Seq<u32> {
    taken(queue, wanted) + Seq::new((wanted - taken(queue, wanted).len()) as nat, |i: int| silence)
}

/// The underrun count after one more underrun; it stops at `u64::MAX`.
pub open spec fn one_more(count: nat) -> nat {
    if count < u64::MAX {
        count + 1
    } else {
        count
    }
}

impl PlaybackSink {
    /// The queued samples, oldest first.
    pub closed spec fn queue(&self) -> Seq<u32> {
        self.ring@
    }

    /// How many samples the ring can hold.
    pub closed spec fn capacity(&self) -> nat {
        self.ring.capacity()
    }

    /// The sample word written where no decoded audio is available.
    pub closed spec fn silence(&self) -> u32 {
        self.silence
    }

    /// How many calls of `pull` found less audio than they asked for.
    pub closed spec fn underruns(&self) -> nat {
        self.underruns as nat
    }

    /// Whether a sink can be opened for `descriptor` with a ring of `capacity`
    /// samples.
    pub open spec fn openable(descriptor: StreamDescriptor, capacity: usize) -> bool {
        &&& descriptor.valid()
        &&& descriptor.sample_format.playable()
        &&& 0 < capacity < usize::MAX
    }

    /// Opens a sink for `descriptor` with an empty ring of `capacity` samples.
    ///
    /// Fails with `DeviceError::Config` where the descriptor is not valid, its
    /// format has no conversion path, or the capacity is zero or `usize::MAX`.
    pub fn open(descriptor: &StreamDescriptor, capacity: usize) -> (opened: Result<
        PlaybackSink,
        DeviceError,
    >)
        ensures
            match opened {
                Ok(sink) => {
                    &&& PlaybackSink::openable(*descriptor, capacity)
                    &&& sink.queue() == Seq::<u32>::empty()
                    &&& sink.capacity() == capacity
                    &&& sink.silence() == descriptor.sample_format.silence()
                    &&& sink.underruns() == 0
                },
                Err(error) => error == DeviceError::Config && !PlaybackSink::openable(
                    *descriptor,
                    capacity,
                ),
            },
    {
        if descriptor.sample_rate == 0 || descriptor.channel_count == 0
            || !descriptor.sample_format.is_playable() || capacity == 0 {
            return Err(DeviceError::Config);
        }
        match RingBuffer::new(capacity) {
            Some(ring) => Ok(
                PlaybackSink {
                    ring,
                    silence: descriptor.sample_format.silence_word(),
                    underruns: 0,
                },
            ),
            None => Err(DeviceError::Config),
        }
    }

    /// How many samples are queued.
    pub fn queued(&self) -> (len: usize)
        ensures
            len == self.queue().len(),
            len <= self.capacity(),
    {
        self.ring.len()
    }

    /// How many samples can be pushed before the ring is full.
    pub fn free(&self) -> (free: usize)
        ensures
            free == self.capacity() - self.queue().len(),
    {
        self.ring.free()
    }

    /// Whether everything that was pushed has been played.
    pub fn is_drained(&self) -> (drained: bool)
        ensures
            drained == (self.queue().len() == 0),
    {
        self.ring.is_empty()
    }

    /// How many calls of `pull` found less audio than they asked for.
    pub fn underrun_count(&self) -> (count: u64)
        ensures
            count == self.underruns(),
    {
        self.underruns
    }

    /// Producer side: queues as much of the beginning of `samples` as the ring has
    /// room for and returns how many samples that was. A producer that gets back
    /// less than it offered waits and offers the rest again.
    pub fn push(&mut self, samples: &[u32]) -> (written: usize)
        ensures
            final(self).queue() == after_push(old(self).queue(), old(self).capacity(), samples@),
            written == least(
                samples@.len(),
                (old(self).capacity() - old(self).queue().len()) as nat,
            ),
            final(self).capacity() == old(self).capacity(),
            final(self).silence() == old(self).silence(),
            final(self).underruns() == old(self).underruns(),
    {
        self.ring.push(samples)
    }

    /// Consumer side, the body of the device callback: fills all of `out`. The
    /// oldest queued samples come first, as many as there are; every place behind
    /// them gets the silence word. Returns how many samples came from the queue;
    /// where that is less than `out` holds, one underrun is counted.
    pub fn pull(&mut self, out: &mut [u32]) -> (read: usize)
        ensures
            read == least(old(out)@.len(), old(self).queue().len()),
            final(out)@ == polled(old(self).queue(), old(out)@.len(), old(self).silence()),
            final(self).queue() == after_pop(old(self).queue(), old(out)@.len()),
            final(self).underruns() == if read < old(out)@.len() {
                one_more(old(self).underruns())
            } else {
                old(self).underruns()
            },
            final(self).capacity() == old(self).capacity(),
            final(self).silence() == old(self).silence(),
    {
        let len: usize = out.len();
        let read = self.ring.pop_into(out);
        let ghost head = taken(old(self).queue(), len as nat);
        let silence = self.silence;
        let mut i: usize = read;
        while i < len
            invariant
                read <= i <= len,
                out@.len() == len,
                head.len() == read,
                forall|j: int| 0 <= j < read ==> out@[j] == head[j],
                forall|j: int| read <= j < i ==> out@[j] == silence,
            decreases len - i,
        {
            out[i] = silence;
            i = i + 1;
        }
        if read < len && self.underruns < u64::MAX {
            self.underruns = self.underruns + 1;
        }
        read
    }
}

/// Samples on their way into a sink. A producer that finds too little room keeps
/// the offer, waits, and sends again; the offer remembers where to go on.
#[derive(Debug)]
pub struct Offer {
    samples: Vec<u32>,
    sent: usize,
}

impl Offer {
    #[verifier::type_invariant]
    spec fn inv(&self) -> bool {
        self.sent <= self.samples@.len()
    }

    /// The samples that are not queued yet.
    pub closed spec fn rest(&self) -> Seq<u32> {
        self.samples@.skip(self.sent as int)
    }

    /// An offer of all of `samples`.
    pub fn new(samples: Vec<u32>) -> (offer: Offer)
        ensures
            offer.rest() == samples@,
    {
        let offer = Offer { samples, sent: 0 };
        offer
    }

    /// How many samples are not queued yet.
    pub fn remaining(&self) -> (count: usize)
        ensures
            count == self.rest().len(),
    {
        proof {
            use_type_invariant(self);
        }
        self.samples.len() - self.sent
    }

    /// Whether every sample is queued.
    pub fn is_done(&self) -> (done: bool)
        ensures
            done == (self.rest().len() == 0),
    {
        self.remaining() == 0
    }

    /// Queues as much of the rest as `sink` has room for and says whether that
    /// was all of it. What was queued is the beginning of the rest, and what stays
    /// is what follows it: sending until done queues every sample once, in order.
    pub fn send(&mut self, sink: &mut PlaybackSink) -> (done: bool)
        ensures
            final(sink).queue() == after_push(
                old(sink).queue(),
                old(sink).capacity(),
                old(self).rest(),
            ),
            final(self).rest() == old(self).rest().skip(
                least(
                    old(self).rest().len(),
                    (old(sink).capacity() - old(sink).queue().len()) as nat,
                ) as int,
            ),
            done == (final(self).rest().len() == 0),
            final(sink).capacity() == old(sink).capacity(),
            final(sink).silence() == old(sink).silence(),
            final(sink).underruns() == old(sink).underruns(),
    {
        proof {
            use_type_invariant(&*self);
        }
        let len: usize = self.samples.len();
        let rest = slice_subrange(self.samples.as_slice(), self.sent, len);
        let written = sink.push(rest);
        self.sent = self.sent + written;
        self.sent == len
    }
}

/// The frame that place `i` of an interleaved buffer over `channels` channels
/// belongs to.
pub open spec fn frame_of(i: int, channels: usize) -> int {
    i / (channels as int)
}

/// Fills all of `output`, frame by frame: every sample of frame `f` becomes
/// `values[f]`, where a frame is `channels` samples and the last one may be
/// shorter. Where `values` runs out, the frames behind it become `silence`, so
/// that no place of the output keeps what it held before.
pub fn write_data(output: &mut [u32], channels: usize, values: &[u32], silence: u32)
    requires
        channels > 0,
    ensures
        final(output)@.len() == old(output)@.len(),
        forall|i: int|
            0 <= i < old(output)@.len() ==> #[trigger] final(output)@[i] == (if frame_of(
                i,
                channels,
            ) < values@.len() {
                values@[frame_of(i, channels)]
            } else {
                silence
            }),
{
    let len: usize = output.len();
    let mut i: usize = 0;
    while i < len
        invariant
            i <= len,
            channels > 0,
            output@.len() == len == old(output)@.len(),
            forall|j: int|
                0 <= j < i ==> #[trigger] output@[j] == (if frame_of(j, channels) < values@.len() {
                    values@[frame_of(j, channels)]
                } else {
                    silence
                }),
        decreases len - i,
    {
        let frame: usize = i / channels;
        if frame < values.len() {
            output[i] = values[frame];
        } else {
            output[i] = silence;
        }
        i = i + 1;
    }
}

/// Running dry leaves no trace in what is played later. A callback that asks a
/// queue for more than it holds empties it; samples pushed after that come out of
/// the next callback from their first on, with no silence before or between
/// them, as long as that callback asks for no more than were pushed.
pub proof fn lemma_underrun_leaves_no_trace(
    queue: Seq<u32>,
    capacity: nat,
    silence: u32,
    wanted: nat,
    offered: Seq<u32>,
    wanted_next: nat,
)
    requires
        queue.len() <= capacity,
        queue.len() < wanted,
        offered.len() <= capacity,
        wanted_next <= offered.len(),
    ensures
        polled(queue, wanted, silence).len() == wanted,
        polled(queue, wanted, silence).take(queue.len() as int) == queue,
        forall|i: int| queue.len() <= i < wanted ==> polled(queue, wanted, silence)[i] == silence,
        after_pop(queue, wanted) == Seq::<u32>::empty(),
        after_push(after_pop(queue, wanted), capacity, offered) == offered,
        polled(after_push(after_pop(queue, wanted), capacity, offered), wanted_next, silence)
            == offered.take(wanted_next as int),
{
}

/// A callback always gets as many samples as it asks for, underrun or not.
pub proof fn lemma_polled_len(queue: Seq<u32>, wanted: nat, silence: u32)
    ensures
        polled(queue, wanted, silence).len() == wanted,
        queue.len() >= wanted ==> polled(queue, wanted, silence) == queue.take(wanted as int),
{
}

} // verus!

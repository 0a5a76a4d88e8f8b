//! Sample formats and the descriptor of a decoded stream.

use vstd::prelude::*;

verus! {

/// Length of audio, in milliseconds, that the ring between decoder and device holds
/// at scale one.
pub const RING_LATENCY_MS: u64 = 200;

/// Numeric representation of one sample as the output device takes it.
#[derive(Clone, Copy, Debug, PartialEq, Eq, Structural)]
pub enum SampleFormat {
    /// IEEE-754 single precision, nominal range -1.0 to 1.0.
    Float32,
    /// Two's complement 16-bit integer.
    Signed16,
    /// Unsigned 16-bit integer centred on 32768.
    Unsigned16,
}

impl SampleFormat {
    /// The sample word that stands for silence: the bits of the format's zero or
    /// mid value.
    pub open spec fn silence(self) -> u32 {
        match self {
            SampleFormat::Float32 => 0,
            SampleFormat::Signed16 => 0,
            SampleFormat::Unsigned16 => 0x8000,
        }
    }

    /// Width of one sample in bits.
    pub open spec fn bits(self) -> u16 {
        match self {
            SampleFormat::Float32 => 32,
            SampleFormat::Signed16 => 16,
            SampleFormat::Unsigned16 => 16,
        }
    }

    /// Whether decoded audio can be delivered in this format. Only `Float32` has a
    /// conversion path; the integer formats are recognised and refused.
    pub open spec fn playable(self) -> bool {
        self == SampleFormat::Float32
    }

    /// The sample word written where no decoded audio is available.
    pub fn silence_word(self) -> (word: u32)
        ensures
            word == self.silence(),
    {
        match self {
            SampleFormat::Float32 => 0,
            SampleFormat::Signed16 => 0,
            SampleFormat::Unsigned16 => 0x8000,
        }
    }

    /// Width of one sample in bits.
    pub fn bits_per_sample(self) -> (bits: u16)
        ensures
            bits == self.bits(),
    {
        match self {
            SampleFormat::Float32 => 32,
            SampleFormat::Signed16 => 16,
            SampleFormat::Unsigned16 => 16,
        }
    }

    /// Whether decoded audio can be delivered in this format.
    pub fn is_playable(self) -> (yes: bool)
        ensures
            yes == self.playable(),
    {
        match self {
            SampleFormat::Float32 => true,
            SampleFormat::Signed16 => false,
            SampleFormat::Unsigned16 => false,
        }
    }
}

/// What the first decoded frame tells about a stream. It is fixed for the rest of
/// the session and decides the device configuration and the size of the ring.
#[derive(Clone, Copy, Debug, PartialEq, Eq, Structural)]
pub struct StreamDescriptor {
    /// Frames per second; positive.
    pub sample_rate: u32,
    /// Channels per frame; positive.
    pub channel_count: u16,
    /// Format of the samples handed to the device.
    pub sample_format: SampleFormat,
}

/// Number of frames in `RING_LATENCY_MS` of audio at `sample_rate`, rounded up.
pub open spec fn latency_frames(sample_rate: u32) -> nat {
    ((sample_rate * RING_LATENCY_MS + 999) / 1000) as nat
}

impl StreamDescriptor {
    /// Both the rate and the channel count are positive.
    pub open spec fn valid(&self) -> bool {
        self.sample_rate > 0 && self.channel_count > 0
    }

    /// Whether the stream can be written to an uncompressed container of 32-bit
    /// floating point samples: it is valid, its samples are `Float32`, and the
    /// bytes of one frame and of one second fit the header fields that hold them.
    pub open spec fn renderable(&self) -> bool {
        &&& self.valid()
        &&& self.sample_format == SampleFormat::Float32
        &&& 4 * self.channel_count <= u16::MAX
        &&& 4 * self.channel_count * self.sample_rate <= u32::MAX
    }

    /// Number of samples in `scale` times `RING_LATENCY_MS` of this stream.
    pub open spec fn ring_samples(&self, scale: u32) -> nat {
        latency_frames(self.sample_rate) * self.channel_count as nat * scale as nat
    }

    /// A descriptor for the given rate, channel count and format; `None` when the
    /// rate or the channel count is zero.
    pub fn new(sample_rate: u32, channel_count: u16, sample_format: SampleFormat) -> (made: Option<
        StreamDescriptor,
    >)
        ensures
            made is Some <==> sample_rate > 0 && channel_count > 0,
            made matches Some(d) ==> d.sample_rate == sample_rate && d.channel_count
                == channel_count && d.sample_format == sample_format,
    {
        if sample_rate == 0 || channel_count == 0 {
            None
        } else {
            Some(StreamDescriptor { sample_rate, channel_count, sample_format })
        }
    }

    /// Whether the stream can be written to an uncompressed container of 32-bit
    /// floating point samples.
    pub fn is_renderable(&self) -> (yes: bool)
        ensures
            yes == self.renderable(),
    {
        if self.sample_rate == 0 || self.channel_count == 0 {
            return false;
        }
        match self.sample_format {
            SampleFormat::Float32 => {},
            _ => {
                return false;
            },
        }
        if self.channel_count > u16::MAX / 4 {
            return false;
        }
        let frame_bytes: u32 = 4 * (self.channel_count as u32);
        if self.sample_rate > u32::MAX / frame_bytes {
            assert(4 * self.channel_count * self.sample_rate > u32::MAX) by (nonlinear_arith)
                requires
                    frame_bytes == 4 * self.channel_count,
                    frame_bytes > 0,
                    self.sample_rate > u32::MAX / frame_bytes,
            ;
            return false;
        }
        assert(4 * self.channel_count * self.sample_rate <= u32::MAX) by (nonlinear_arith)
            requires
                frame_bytes == 4 * self.channel_count,
                frame_bytes > 0,
                self.sample_rate <= u32::MAX / frame_bytes,
        ;
        true
    }

    /// Capacity, in samples, of a ring that holds `scale` times `RING_LATENCY_MS` of
    /// this stream; `None` when that count does not fit a `usize`.
    pub fn ring_capacity(&self, scale: u32) -> (capacity: Option<usize>)
        ensures
            capacity == if self.ring_samples(scale) <= usize::MAX {
                Some(self.ring_samples(scale) as usize)
            } else {
                None
            },
    {
        let frames: u64 = (self.sample_rate as u64 * RING_LATENCY_MS + 999) / 1000;
        let channels: u64 = self.channel_count as u64;
        assert(frames * channels <= 0x1_0000_0000 * 0x1_0000) by (nonlinear_arith)
            requires
                frames <= 0x1_0000_0000,
                channels <= 0x1_0000,
        ;
        let per_latency: u64 = frames * channels;
        assert(per_latency * scale <= 0x1_0000_0000_0000 * 0x1_0000_0000) by (nonlinear_arith)
            requires
                per_latency <= 0x1_0000_0000_0000,
                scale <= 0x1_0000_0000,
        ;
        let samples: u128 = (per_latency as u128) * (scale as u128);
        if samples <= usize::MAX as u128 {
            Some(samples as usize)
        } else {
            None
        }
    }
}

} // verus!

//! Layout conversion of decoded frames.
//!
//! A decoder hands out the samples of one packet either plane by plane (all samples
//! of the first channel, then all of the second, and so on) or frame by frame.
//! The device takes them frame by frame. Conversion changes the order of the sample
//! words and never their value.

use vstd::arithmetic::div_mod::{lemma_fundamental_div_mod, lemma_fundamental_div_mod_converse};
use vstd::prelude::*;

verus! {

/// Order in which a decoded frame stores its samples.
#[derive(Clone, Copy, Debug, PartialEq, Eq, Structural)]
pub enum ChannelLayout {
    /// One plane per channel, planes in channel order.
    Planar,
    /// One group of channel samples per time step.
    Interleaved,
}

/// The decoded audio of one packet, in the sample format of the device.
#[derive(Debug, PartialEq, Eq)]
pub struct DecodedFrame {
    /// Frames per second that the decoder reports for this audio.
    pub sample_rate: u32,
    /// Channels that the decoder reports for this audio.
    pub channel_count: u16,
    /// Order of `samples`.
    pub layout: ChannelLayout,
    /// Sample words, `channel_count` for each time step.
    pub samples: Vec<u32>,
}

/// Whether `len` sample words can be laid out over `channels` channels: an empty
/// buffer always can, another one needs a positive channel count that divides `len`.
pub open spec fn divisible(channels: nat, len: nat) -> bool {
    len == 0 || (channels > 0 && len % channels == 0)
}

/// The interleaved order of a planar buffer: the sample of time step `t` and channel
/// `c` moves from place `c * steps + t` to place `t * channels + c`.
pub open spec fn planar_to_interleaved(channels: nat, samples: Seq<u32>) -> Seq<u32> {
    let steps = samples.len() / channels;
    Seq::new(samples.len(), |i: int| samples[(i % channels as int) * steps + i / channels as int])
}

/// The interleaved order of a buffer stored in `layout`.
pub open spec fn interleaved(layout: ChannelLayout, channels: nat, samples: Seq<u32>) -> Seq<u32> {
    match layout {
        ChannelLayout::Interleaved => samples,
        ChannelLayout::Planar => if samples.len() == 0 {
            samples
        } else {
            planar_to_interleaved(channels, samples)
        },
    }
}

/// Place arithmetic of a buffer of `steps` time steps over `channels` channels.
pub proof fn lemma_places(channels: nat, steps: nat, t: nat, c: nat)
    requires
        c < channels,
        t < steps,
    ensures
        c * steps + t < channels * steps,
        t * channels + c < channels * steps,
        ((t * channels + c) as int) / (channels as int) == t,
        ((t * channels + c) as int) % (channels as int) == c,
{
    assert(c * steps + t < channels * steps) by (nonlinear_arith)
        requires
            c < channels,
            t < steps,
    ;
    assert(t * channels + c < channels * steps) by (nonlinear_arith)
        requires
            c < channels,
            t < steps,
    ;
    lemma_fundamental_div_mod_converse(
        (t * channels + c) as int,
        channels as int,
        t as int,
        c as int,
    );
}

/// Interleaving keeps every sample and puts the channels of one time step side by
/// side, in channel order: the sample of time step `t` and channel `c` of a planar
/// buffer stands at place `t * channels + c` of the result.
pub proof fn lemma_interleaved_sample(channels: nat, samples: Seq<u32>, t: nat, c: nat)
    requires
        channels > 0,
        samples.len() % channels == 0,
        c < channels,
        t < samples.len() / channels,
    ensures
        planar_to_interleaved(channels, samples).len() == samples.len(),
        t * channels + c < samples.len(),
        c * (samples.len() / channels) + t < samples.len(),
        planar_to_interleaved(channels, samples)[(t * channels + c) as int] == samples[(c * (
            samples.len() / channels) + t) as int],
{
    let steps = samples.len() / channels;
    lemma_fundamental_div_mod(samples.len() as int, channels as int);
    lemma_places(channels, steps, t, c);
}

impl DecodedFrame {
    /// The frame names a positive rate and a positive channel count, and holds a
    /// whole number of time steps.
    pub open spec fn well_formed(&self) -> bool {
        &&& self.sample_rate > 0
        &&& self.channel_count > 0
        &&& self.samples@.len() % self.channel_count as nat == 0
    }

    /// The samples of the frame in device order.
    pub open spec fn device_order(&self) -> Seq<u32> {
        interleaved(self.layout, self.channel_count as nat, self.samples@)
    }

    /// Whether the frame is well formed.
    pub fn is_well_formed(&self) -> (ok: bool)
        ensures
            ok == self.well_formed(),
    {
        self.sample_rate > 0 && self.channel_count > 0 && self.samples.len() % (
        self.channel_count as usize) == 0
    }
}

/// Puts `samples`, stored in `layout` over `channels` channels, into device order.
/// An empty buffer gives an empty result whatever the channel count. `None` when
/// the buffer is not empty and the channel count is zero or does not divide its
/// length.
pub fn interleave(layout: ChannelLayout, channels: usize, samples: &[u32]) -> (out: Option<
    Vec<u32>,
>)
    ensures
        out is Some <==> divisible(channels as nat, samples@.len()),
        out matches Some(v) ==> v@ == interleaved(layout, channels as nat, samples@),
{
    let len: usize = samples.len();
    let mut out: Vec<u32> = Vec::new();
    if len == 0 {
        return Some(out);
    }
    if channels == 0 || len % channels != 0 {
        return None;
    }
    match layout {
        ChannelLayout::Interleaved => {
            let mut i: usize = 0;
            while i < len
                invariant
                    len == samples@.len(),
                    i <= len,
                    out@ == samples@.take(i as int),
                decreases len - i,
            {
                out.push(samples[i]);
                i = i + 1;
            }
            Some(out)
        },
        ChannelLayout::Planar => {
            let steps: usize = len / channels;
            proof {
                lemma_fundamental_div_mod(len as int, channels as int);
            }
            let ghost want = planar_to_interleaved(channels as nat, samples@);
            let mut t: usize = 0;
            while t < steps
                invariant
                    len == samples@.len(),
                    channels > 0,
                    steps == len / channels,
                    len == channels * steps,
                    t <= steps,
                    want == planar_to_interleaved(channels as nat, samples@),
                    out@.len() == t * channels,
                    forall|k: int| 0 <= k < out@.len() ==> out@[k] == want[k],
                decreases steps - t,
            {
                let mut c: usize = 0;
                while c < channels
                    invariant
                        len == samples@.len(),
                        channels > 0,
                        steps == len / channels,
                        len == channels * steps,
                        t < steps,
                        c <= channels,
                        want == planar_to_interleaved(channels as nat, samples@),
                        out@.len() == t * channels + c,
                        forall|k: int| 0 <= k < out@.len() ==> out@[k] == want[k],
                    decreases channels - c,
                {
                    proof {
                        lemma_places(channels as nat, steps as nat, t as nat, c as nat);
                    }
                    out.push(samples[c * steps + t]);
                    c = c + 1;
                }
                assert((t + 1) * channels == t * channels + channels) by (nonlinear_arith);
                t = t + 1;
            }
            assert(out@.len() == len) by (nonlinear_arith)
                requires
                    out@.len() == t * channels,
                    t == steps,
                    len == channels * steps,
            ;
            Some(out)
        },
    }
}

} // verus!

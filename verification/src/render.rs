//! Offline rendering: the decoded stream kept whole, with the header of the
//! uncompressed container that it is written to.
//!
//! The container holds IEEE-754 single precision samples, interleaved. This module
//! fixes the header fields and collects the sample words; writing the bytes is
//! left to the caller. Every valid stream is collected whole. A stream whose
//! frame or second takes more bytes than the header fields can say is collected
//! too, and has no header.

use crate::sample::{SampleFormat, StreamDescriptor};
use crate::convert::DecodedFrame;
use crate::session::{
    DeviceError, Output, PlaybackSession, SessionAction, SessionEvent, SessionState, SessionView,
};
use crate::session::descriptor_of;
use crate::trace::{
    clean_stream, decoded, delivered, lemma_clean_stream_is_played_whole,
    lemma_first_well_formed, lemma_sample_count_grows, lemma_step_kinds, playable_frames, run,
    sample_count,
};
use vstd::prelude::*;

verus! {

/// Format tag of IEEE-754 floating point samples.
pub const FORMAT_IEEE_FLOAT: u16 = 3;

/// Bits of one sample in a rendered container.
pub const RENDER_BITS: u16 = 32;

/// Bytes that a container spends on everything but the samples, counted from
/// behind its length field: the form type and the two chunk headers with the
/// format chunk.
pub const CONTAINER_OVERHEAD: u32 = 36;

/// The format chunk of an uncompressed container.
#[derive(Clone, Copy, Debug, PartialEq, Eq, Structural)]
pub struct ContainerHeader {
    pub audio_format: u16,
    pub channel_count: u16,
    pub sampling_rate: u32,
    pub bytes_per_second: u32,
    pub bytes_per_sample: u16,
    pub bits_per_sample: u16,
}

/// The header that the four given fields determine: a frame takes one eighth of
/// the sample's bits for each channel, and a second takes one frame for each tick
/// of the sampling rate.
pub open spec fn header_for(
    audio_format: u16,
    channel_count: u16,
    sampling_rate: u32,
    bits_per_sample: u16,
) -> ContainerHeader {
    ContainerHeader {
        audio_format,
        channel_count,
        sampling_rate,
        bytes_per_second: ((bits_per_sample / 8) * channel_count * sampling_rate) as u32,
        bytes_per_sample: ((bits_per_sample / 8) * channel_count) as u16,
        bits_per_sample,
    }
}

/// `wav::Header::new`, with the fields of its result copied out.
///
/// The constructor keeps its four arguments and derives the bytes of one frame
/// and of one second from them, in the width of their fields. The arguments for
/// which either product exceeds its field are left out: there the constructor
/// overflows.
#[verifier::external_body]
#[allow(deprecated)]
fn header_new(audio_format: u16, channel_count: u16, sampling_rate: u32, bits_per_sample: u16) -> (header:
    ContainerHeader)
    requires
        (bits_per_sample / 8) * channel_count <= u16::MAX,
        (bits_per_sample / 8) * channel_count * sampling_rate <= u32::MAX,
    ensures
        header == header_for(audio_format, channel_count, sampling_rate, bits_per_sample),
{
    let made = wav::Header::new(audio_format, channel_count, sampling_rate, bits_per_sample);
    ContainerHeader {
        audio_format: made.audio_format,
        channel_count: made.channel_count,
        sampling_rate: made.sampling_rate,
        bytes_per_second: made.bytes_per_second,
        bytes_per_sample: made.bytes_per_sample,
        bits_per_sample: made.bits_per_sample,
    }
}

/// The header of the container for the stream of `descriptor`; none where the
/// bytes of one frame or of one second do not fit their header fields.
pub open spec fn header_of(descriptor: StreamDescriptor) -> Option<ContainerHeader> {
    if descriptor.renderable() {
        Some(
            header_for(
                FORMAT_IEEE_FLOAT,
                descriptor.channel_count,
                descriptor.sample_rate,
                RENDER_BITS,
            ),
        )
    } else {
        None
    }
}

/// A sink that keeps every sample, for a render in place of playback.
#[derive(Debug)]
pub struct RenderSink {
    header: Option<ContainerHeader>,
    samples: Vec<u32>,
}

impl RenderSink {
    /// The header of the container, where the stream has one.
    pub closed spec fn header(&self) -> Option<ContainerHeader> {
        self.header
    }

    /// The samples collected so far, in device order.
    pub closed spec fn samples(&self) -> Seq<u32> {
        self.samples@
    }

    /// Whether a render can be opened for the stream of `descriptor`: it is valid
    /// and its samples are `Float32`.
    pub open spec fn accepts(descriptor: StreamDescriptor) -> bool {
        descriptor.valid() && descriptor.sample_format == SampleFormat::Float32
    }

    /// Opens an empty render of the stream of `descriptor`.
    ///
    /// The header names IEEE floating point samples of 32 bits and takes its
    /// channel count and sampling rate from the descriptor. Fails with
    /// `DeviceError::Config` where the descriptor is not valid or its samples are
    /// not `Float32`.
    pub fn open(descriptor: &StreamDescriptor) -> (opened: Result<RenderSink, DeviceError>)
        ensures
            match opened {
                Ok(sink) => {
                    &&& RenderSink::accepts(*descriptor)
                    &&& sink.samples() == Seq::<u32>::empty()
                    &&& sink.header() == header_of(*descriptor)
                    &&& sink.header() matches Some(header) ==> {
                        &&& header.audio_format == FORMAT_IEEE_FLOAT
                        &&& header.bits_per_sample == RENDER_BITS
                        &&& header.channel_count == descriptor.channel_count
                        &&& header.sampling_rate == descriptor.sample_rate
                        &&& header.bytes_per_sample == 4 * descriptor.channel_count
                        &&& header.bytes_per_second == 4 * descriptor.channel_count
                            * descriptor.sample_rate
                    }
                },
                Err(error) => error == DeviceError::Config && !RenderSink::accepts(*descriptor),
            },
    {
        if descriptor.sample_rate == 0 || descriptor.channel_count == 0 {
            return Err(DeviceError::Config);
        }
        match descriptor.sample_format {
            SampleFormat::Float32 => {},
            _ => {
                return Err(DeviceError::Config);
            },
        }
        let header = if descriptor.is_renderable() {
            Some(
                header_new(
                    FORMAT_IEEE_FLOAT,
                    descriptor.channel_count,
                    descriptor.sample_rate,
                    RENDER_BITS,
                ),
            )
        } else {
            None
        };
        Ok(RenderSink { header, samples: Vec::new() })
    }

    /// The header of the container, where the stream has one.
    pub fn container_header(&self) -> (header: Option<ContainerHeader>)
        ensures
            header == self.header(),
    {
        self.header
    }

    /// How many samples were collected.
    pub fn sample_count(&self) -> (count: usize)
        ensures
            count == self.samples().len(),
    {
        self.samples.len()
    }

    /// The samples collected so far, in device order.
    pub fn as_slice(&self) -> (samples: &[u32])
        ensures
            samples@ == self.samples(),
    {
        self.samples.as_slice()
    }

    /// Takes all of `samples`, behind those collected before, and returns how
    /// many that was: this sink never asks its producer to wait.
    pub fn push(&mut self, samples: &[u32]) -> (written: usize)
        ensures
            final(self).samples() == old(self).samples() + samples@,
            final(self).header() == old(self).header(),
            written == samples@.len(),
    {
        let len: usize = samples.len();
        let mut i: usize = 0;
        while i < len
            invariant
                i <= len == samples@.len(),
                self.samples() == old(self).samples() + samples@.take(i as int),
                self.header() == old(self).header(),
            decreases len - i,
        {
            self.samples.push(samples[i]);
            i = i + 1;
        }
        len
    }

    /// Bytes that the samples take in the container, four each; `None` where the
    /// container would be longer than its length field can say.
    pub fn data_len(&self) -> (bytes: Option<u32>)
        ensures
            bytes == if 4 * self.samples().len() + CONTAINER_OVERHEAD <= u32::MAX {
                Some((4 * self.samples().len()) as u32)
            } else {
                None
            },
    {
        let count: usize = self.samples.len();
        if count <= ((u32::MAX - CONTAINER_OVERHEAD) / 4) as usize {
            Some(4 * (count as u32))
        } else {
            None
        }
    }
}

/// What rendering a stream comes to.
#[derive(Debug)]
pub struct Rendered {
    /// Where the session stands after the last event.
    pub state: SessionState,
    /// The render, once a frame has opened it.
    pub sink: Option<RenderSink>,
}

/// The render of a session that sends its audio to a container and has taken
/// `events`: none before a frame has fixed the descriptor, and after that the
/// header of the descriptor with every delivered sample.
pub open spec fn rendering(events: Seq<SessionEvent>) -> Option<(Option<ContainerHeader>, Seq<u32>)> {
    match run(SessionView::initial(Output::Container), events).descriptor {
        Some(descriptor) => Some(
            (header_of(descriptor), delivered(SessionView::initial(Output::Container), events)),
        ),
        None => None,
    }
}

/// Renders a stream from what its demultiplexer and decoder reported: takes
/// `events` one after the other through a session that sends its audio to a
/// container, opens the render when the session asks for the sink, and collects
/// every sample that the session delivers.
pub fn render(events: &[SessionEvent]) -> (rendered: Rendered)
    ensures
        rendered.state == run(SessionView::initial(Output::Container), events@).state,
        match rendered.sink {
            Some(sink) => rendering(events@) == Some((sink.header(), sink.samples())),
            None => rendering(events@) is None && delivered(
                SessionView::initial(Output::Container),
                events@,
            ) == Seq::<u32>::empty(),
        },
{
    let mut session = PlaybackSession::new(Output::Container);
    let mut sink: Option<RenderSink> = None;
    let ghost start = SessionView::initial(Output::Container);
    let mut i: usize = 0;
    while i < events.len()
        invariant
            i <= events@.len(),
            start == SessionView::initial(Output::Container),
            session@ == run(start, events@.take(i as int)),
            session@.consistent(),
            session@.output == Output::Container,
            match sink {
                Some(sink) => session@.descriptor matches Some(d) && sink.header() == header_of(d)
                    && sink.samples() == delivered(start, events@.take(i as int)),
                None => session@.descriptor is None && delivered(start, events@.take(i as int))
                    == Seq::<u32>::empty(),
            },
        decreases events@.len() - i,
    {
        let ghost before = session@;
        let action = session.advance(&events[i]);
        proof {
            assert(events@.take(i + 1).drop_last() =~= events@.take(i as int));
            lemma_step_kinds(before, events@[i as int]);
        }
        match action {
            SessionAction::OpenSink { descriptor, capacity, samples } => {
                // The session asks for a sink only for a stream that a render accepts.
                match RenderSink::open(&descriptor) {
                    Ok(mut opened) => {
                        opened.push(samples.as_slice());
                        sink = Some(opened);
                    },
                    Err(_) => {},
                }
            },
            SessionAction::Push { samples } => {
                // The session pushes only after it has asked for the sink.
                match sink {
                    Some(ref mut open) => {
                        open.push(samples.as_slice());
                    },
                    None => {},
                }
            },
            _ => {},
        }
        i = i + 1;
    }
    proof {
        assert(events@.take(events@.len() as int) =~= events@);
    }
    Rendered { state: session.state(), sink }
}

/// Frames can be sent to a container exactly if each of them is well formed or
/// empty.
pub proof fn lemma_container_takes_every_stream(frames: Seq<DecodedFrame>)
    ensures
        playable_frames(frames, Output::Container) <==> forall|i: int|
            0 <= i < frames.len() ==> (#[trigger] frames[i]).well_formed() || frames[i].samples@.len()
                == 0,
    decreases frames.len(),
{
    if frames.len() > 0 {
        let earlier = frames.drop_last();
        lemma_container_takes_every_stream(earlier);
        assert forall|i: int| 0 <= i < earlier.len() implies earlier[i] == frames[i] by {}
    }
}

/// A stream that is rendered comes out as it went in. Where a container with one
/// track decodes cleanly into `frames`, each of them well formed, the session
/// closes, and the render holds every decoded sample, each once and in order: as
/// many samples as the frames hold together, and so at least one where a frame
/// holds one. Where the bytes of a frame and of a second fit the header, the
/// render has a header, which names floating point samples of 32 bits with the
/// channel count and the sampling rate of the first frame.
pub proof fn lemma_render_keeps_the_stream(frames: Seq<DecodedFrame>, verify_ok: Option<bool>)
    requires
        forall|i: int| 0 <= i < frames.len() ==> (#[trigger] frames[i]).well_formed(),
        verify_ok != Some(false),
    ensures
        run(SessionView::initial(Output::Container), clean_stream(frames, verify_ok)).state
            == SessionState::Closed,
        delivered(SessionView::initial(Output::Container), clean_stream(frames, verify_ok))
            == decoded(frames),
        decoded(frames).len() == sample_count(frames),
        frames.len() > 0 ==> rendering(clean_stream(frames, verify_ok)) == Some(
            (
                header_of(descriptor_of(frames[0], SampleFormat::Float32)),
                decoded(frames),
            ),
        ),
        frames.len() > 0 && frames[0].samples@.len() > 0 ==> decoded(frames).len() > 0,
        frames.len() > 0 ==> (header_of(descriptor_of(frames[0], SampleFormat::Float32))
            matches Some(header) ==> {
            &&& header.audio_format == FORMAT_IEEE_FLOAT
            &&& header.bits_per_sample == RENDER_BITS
            &&& header.channel_count == frames[0].channel_count
            &&& header.sampling_rate == frames[0].sample_rate
        }),
{
    lemma_container_takes_every_stream(frames);
    lemma_clean_stream_is_played_whole(Output::Container, frames, verify_ok);
    if frames.len() > 0 {
        lemma_first_well_formed(frames);
        lemma_sample_count_grows(frames);
    }
}

} // verus!

//! The playback session as a state machine.
//!
//! A session moves through `Probing`, `Decoding` and `Draining` to `Closed`, or
//! fails. It does no demultiplexing, decoding or device work itself: its driver does
//! that work, reports each outcome as a [`SessionEvent`], and carries out the
//! [`SessionAction`] that [`PlaybackSession::advance`] returns. [`step`] is the whole
//! transition relation; what holds of whole runs is stated in [`crate::trace`].

use crate::convert::{interleave, DecodedFrame};
use crate::sample::{SampleFormat, StreamDescriptor};
use crate::trace::{delivered, run};
use vstd::prelude::*;

verus! {

/// Why a session failed. Every failure ends the session; none is retried.
#[derive(Clone, Copy, Debug, PartialEq, Eq, Structural)]
pub enum SessionError {
    /// The container was not recognised, or could not be read while probing.
    ProbeError,
    /// The container does not hold exactly one audio track.
    UnsupportedTrackCount,
    /// A packet was malformed, or packet iteration failed other than by reaching
    /// the end of the stream.
    DecodeError,
    /// The codec checked the integrity of the decoded stream and found it broken.
    VerificationFailed,
    /// The output device is not available.
    DeviceOpenError,
    /// The output device cannot take the configuration that the stream asks for.
    DeviceConfigError,
    /// The output device did not start.
    StreamPlayError,
}

/// Where a session stands.
#[derive(Clone, Copy, Debug, PartialEq, Eq, Structural)]
pub enum SessionState {
    /// The container is being probed and its track selected.
    Probing,
    /// Packets are decoded and their samples delivered.
    Decoding,
    /// The stream has ended; the decoder is finalized and the sink flushed.
    Draining,
    /// The session ended normally.
    Closed,
    /// The session ended with an error.
    Failed(SessionError),
}

/// Kind of an input error met while reading packets.
#[derive(Clone, Copy, Debug, PartialEq, Eq, Structural)]
pub enum IoErrorKind {
    /// The input ended where more data was expected.
    UnexpectedEof,
    /// Any other input error.
    Other,
}

/// Why the demultiplexer returned no packet.
#[derive(Clone, Copy, Debug, PartialEq, Eq, Structural)]
pub enum PacketError {
    /// Reading the input failed.
    Io(IoErrorKind),
    /// The container data is malformed.
    Decode,
    /// The input could not be repositioned.
    Seek,
    /// The container uses a feature that is not supported.
    Unsupported,
    /// A limit on the input was reached.
    Limit,
    /// The track list changed and decoders must be made anew.
    ResetRequired,
}

/// What went wrong at the output device.
#[derive(Clone, Copy, Debug, PartialEq, Eq, Structural)]
pub enum DeviceError {
    /// No device could be opened.
    Open,
    /// The device refused the configuration.
    Config,
    /// The device refused to start.
    Play,
}

/// Where the decoded audio goes.
#[derive(Clone, Copy, Debug, PartialEq, Eq, Structural)]
pub enum Output {
    /// To an output device that takes `format`, through a ring that holds `scale`
    /// ring latencies.
    Device { format: SampleFormat, scale: u32 },
    /// To an uncompressed container of 32-bit floating point samples, kept whole
    /// in place of being played.
    Container,
}

/// What the driver reports to the session.
#[derive(Debug, PartialEq, Eq)]
pub enum SessionEvent {
    /// Probing succeeded and found this many audio tracks.
    Probed { track_count: usize },
    /// Probing failed.
    ProbeFailed,
    /// No decoder could be made for the selected track.
    DecoderFailed,
    /// A packet was decoded into this frame.
    Frame(DecodedFrame),
    /// The demultiplexer returned an error in place of the next packet.
    PacketFailed(PacketError),
    /// A packet could not be decoded.
    DecodeFailed,
    /// The output device reported an error while it was opened or started.
    DeviceFailed(DeviceError),
    /// The decoder was finalized; `verify_ok` is its verdict, where it gave one.
    Finalized { verify_ok: Option<bool> },
    /// Playback was stopped from outside.
    Stop,
}

/// What the session asks its driver to do next.
#[derive(Debug, PartialEq, Eq)]
pub enum SessionAction {
    /// Nothing: the event changed nothing, or the session is over.
    Idle,
    /// Make the decoder for the only track, with integrity verification switched
    /// as `verify` says, and start reading packets.
    OpenDecoder { verify: bool },
    /// Open the sink for `descriptor`, then deliver `samples`. A device gets a
    /// ring of `capacity` samples; for a container `capacity` is zero.
    OpenSink { descriptor: StreamDescriptor, capacity: usize, samples: Vec<u32> },
    /// Deliver `samples` to the sink, all of them and in this order.
    Push { samples: Vec<u32> },
    /// Finalize the decoder and report its verdict.
    Finalize,
    /// Flush the sink and release everything; the session ended normally.
    Close,
    /// Release everything; the session failed with this error.
    Abort(SessionError),
}

/// Mathematical form of a [`SessionAction`].
pub ghost enum ActionView {
    Idle,
    OpenDecoder { verify: bool },
    OpenSink { descriptor: StreamDescriptor, capacity: usize, samples: Seq<u32> },
    Push { samples: Seq<u32> },
    Finalize,
    Close,
    Abort(SessionError),
}

impl View for SessionAction {
    type V = ActionView;

    open spec fn view(&self) -> ActionView {
        match *self {
            SessionAction::Idle => ActionView::Idle,
            SessionAction::OpenDecoder { verify } => ActionView::OpenDecoder { verify },
            SessionAction::OpenSink { descriptor, capacity, samples } => ActionView::OpenSink {
                descriptor,
                capacity,
                samples: samples@,
            },
            SessionAction::Push { samples } => ActionView::Push { samples: samples@ },
            SessionAction::Finalize => ActionView::Finalize,
            SessionAction::Close => ActionView::Close,
            SessionAction::Abort(error) => ActionView::Abort(error),
        }
    }
}

impl ActionView {
    /// The samples that the action delivers.
    pub open spec fn samples(self) -> Seq<u32> {
        match self {
            ActionView::OpenSink { samples, .. } => samples,
            ActionView::Push { samples } => samples,
            _ => Seq::empty(),
        }
    }
}

/// Mathematical form of a [`PlaybackSession`].
pub ghost struct SessionView {
    /// Where the session stands.
    pub state: SessionState,
    /// The descriptor of the stream, once a frame has fixed it.
    pub descriptor: Option<StreamDescriptor>,
    /// Where the decoded audio goes.
    pub output: Output,
}

/// A session that plays one stream into one sink.
#[derive(Debug)]
pub struct PlaybackSession {
    state: SessionState,
    descriptor: Option<StreamDescriptor>,
    output: Output,
}

/// Reaching the end of the input while asking for the next packet is how a stream
/// ends normally; every other packet error is a failure.
pub open spec fn normal_eof(error: PacketError) -> bool {
    error == PacketError::Io(IoErrorKind::UnexpectedEof)
}

/// The session error that stands for a device error.
pub open spec fn device_failure(error: DeviceError) -> SessionError {
    match error {
        DeviceError::Open => SessionError::DeviceOpenError,
        DeviceError::Config => SessionError::DeviceConfigError,
        DeviceError::Play => SessionError::StreamPlayError,
    }
}

impl Output {
    /// The format in which the output takes its samples.
    pub open spec fn format(self) -> SampleFormat {
        match self {
            Output::Device { format, .. } => format,
            Output::Container => SampleFormat::Float32,
        }
    }

    /// Whether the output can take the stream of `descriptor`. A device needs a
    /// format with a conversion path and a ring that is neither empty nor too
    /// large to keep: the store of a ring has one slot more than the ring holds,
    /// so the ring must stay below `usize::MAX`. A container takes every valid
    /// stream.
    pub open spec fn takes(self, descriptor: StreamDescriptor) -> bool {
        match self {
            Output::Device { format, scale } => format.playable() && 0 < descriptor.ring_samples(
                scale,
            ) < usize::MAX,
            Output::Container => descriptor.valid(),
        }
    }

    /// The capacity of the ring that the output needs for the stream of
    /// `descriptor`; zero for a container, which needs none.
    pub open spec fn ring(self, descriptor: StreamDescriptor) -> usize {
        match self {
            Output::Device { scale, .. } => descriptor.ring_samples(scale) as usize,
            Output::Container => 0,
        }
    }

    /// The format in which the output takes its samples.
    pub fn sample_format(self) -> (format: SampleFormat)
        ensures
            format == self.format(),
    {
        match self {
            Output::Device { format, .. } => format,
            Output::Container => SampleFormat::Float32,
        }
    }

    /// The capacity of the ring for the stream of `descriptor`, where the output
    /// can take that stream.
    pub fn ring_for(self, descriptor: &StreamDescriptor) -> (capacity: Option<usize>)
        ensures
            capacity == if self.takes(*descriptor) {
                Some(self.ring(*descriptor))
            } else {
                None
            },
    {
        match self {
            Output::Device { format, scale } => {
                if !format.is_playable() {
                    return None;
                }
                match descriptor.ring_capacity(scale) {
                    Some(capacity) => if 0 < capacity && capacity < usize::MAX {
                        Some(capacity)
                    } else {
                        None
                    },
                    None => None,
                }
            },
            Output::Container => if descriptor.sample_rate > 0 && descriptor.channel_count > 0 {
                Some(0)
            } else {
                None
            },
        }
    }
}

/// The descriptor that a frame fixes for an output that takes `format`.
pub open spec fn descriptor_of(frame: DecodedFrame, format: SampleFormat) -> StreamDescriptor {
    StreamDescriptor {
        sample_rate: frame.sample_rate,
        channel_count: frame.channel_count,
        sample_format: format,
    }
}

/// Whether a sink can be opened for the stream that `frame` begins: the output
/// can take the stream.
pub open spec fn sink_openable(frame: DecodedFrame, output: Output) -> bool {
    output.takes(descriptor_of(frame, output.format()))
}

impl SessionView {
    /// The session as it is made.
    pub open spec fn initial(output: Output) -> SessionView {
        SessionView { state: SessionState::Probing, descriptor: None, output }
    }

    /// The session is over.
    pub open spec fn terminal(self) -> bool {
        self.state is Closed || self.state is Failed
    }

    /// The same session in another state.
    pub open spec fn at(self, state: SessionState) -> SessionView {
        SessionView { state, ..self }
    }

    /// What holds of every session that `step` can reach from `initial`: no
    /// descriptor is known before decoding begins, and a known descriptor is valid,
    /// names the format of the output, and is one that the output can take.
    pub open spec fn consistent(self) -> bool {
        &&& self.state is Probing ==> self.descriptor is None
        &&& self.descriptor matches Some(d) ==> d.valid() && d.sample_format
            == self.output.format() && self.output.takes(d)
    }
}

/// The session fails with `error`.
pub open spec fn fail(s: SessionView, error: SessionError) -> (SessionView, ActionView) {
    (s.at(SessionState::Failed(error)), ActionView::Abort(error))
}

/// The session closes normally.
pub open spec fn close(s: SessionView) -> (SessionView, ActionView) {
    (s.at(SessionState::Closed), ActionView::Close)
}

/// What a decoded frame does to a session that is decoding.
///
/// The first well-formed frame fixes the descriptor and opens the sink, or fails
/// the session where no sink can be opened for it. Every frame delivers its
/// samples in device order. A frame without samples is never an error: it
/// delivers nothing, and unless it is the first well-formed one it changes
/// nothing. A malformed frame that holds samples fails the session.
pub open spec fn step_frame(s: SessionView, frame: DecodedFrame) -> (SessionView, ActionView) {
    if !frame.well_formed() {
        if frame.samples@.len() == 0 {
            (s, ActionView::Idle)
        } else {
            fail(s, SessionError::DecodeError)
        }
    } else if s.descriptor is Some {
        if frame.samples@.len() == 0 {
            (s, ActionView::Idle)
        } else {
            (s, ActionView::Push { samples: frame.device_order() })
        }
    } else if !sink_openable(frame, s.output) {
        fail(s, SessionError::DeviceConfigError)
    } else {
        let descriptor = descriptor_of(frame, s.output.format());
        (
            SessionView { descriptor: Some(descriptor), ..s },
            ActionView::OpenSink {
                descriptor,
                capacity: s.output.ring(descriptor),
                samples: frame.device_order(),
            },
        )
    }
}

/// The transition relation: the session after `event`, and the action asked of
/// the driver.
///
/// A session that is over stays as it is, and so does one that meets an event
/// that does not belong to its state; both ask for nothing.
pub open spec fn step(s: SessionView, event: SessionEvent) -> (SessionView, ActionView) {
    match s.state {
        SessionState::Probing => match event {
            SessionEvent::Probed { track_count } => if track_count == 1 {
                (s.at(SessionState::Decoding), ActionView::OpenDecoder { verify: true })
            } else {
                fail(s, SessionError::UnsupportedTrackCount)
            },
            SessionEvent::ProbeFailed => fail(s, SessionError::ProbeError),
            SessionEvent::Stop => close(s),
            _ => (s, ActionView::Idle),
        },
        SessionState::Decoding => match event {
            SessionEvent::Frame(frame) => step_frame(s, frame),
            SessionEvent::PacketFailed(error) => if normal_eof(error) {
                (s.at(SessionState::Draining), ActionView::Finalize)
            } else {
                fail(s, SessionError::DecodeError)
            },
            SessionEvent::DecodeFailed => fail(s, SessionError::DecodeError),
            SessionEvent::DecoderFailed => fail(s, SessionError::DecodeError),
            SessionEvent::DeviceFailed(error) => fail(s, device_failure(error)),
            SessionEvent::Stop => close(s),
            _ => (s, ActionView::Idle),
        },
        SessionState::Draining => match event {
            SessionEvent::Finalized { verify_ok } => if verify_ok == Some(false) {
                fail(s, SessionError::VerificationFailed)
            } else {
                close(s)
            },
            SessionEvent::DeviceFailed(error) => fail(s, device_failure(error)),
            SessionEvent::Stop => close(s),
            _ => (s, ActionView::Idle),
        },
        SessionState::Closed => (s, ActionView::Idle),
        SessionState::Failed(_) => (s, ActionView::Idle),
    }
}

/// Whether `error` is the normal end of the stream rather than a failure.
pub fn is_normal_eof(error: &PacketError) -> (eof: bool)
    ensures
        eof == normal_eof(*error),
{
    match error {
        PacketError::Io(kind) => match kind {
            IoErrorKind::UnexpectedEof => true,
            _ => false,
        },
        _ => false,
    }
}

impl DeviceError {
    /// The session error that stands for this device error.
    pub fn as_session_error(self) -> (error: SessionError)
        ensures
            error == device_failure(self),
    {
        match self {
            DeviceError::Open => SessionError::DeviceOpenError,
            DeviceError::Config => SessionError::DeviceConfigError,
            DeviceError::Play => SessionError::StreamPlayError,
        }
    }
}

impl View for PlaybackSession {
    type V = SessionView;

    closed spec fn view(&self) -> SessionView {
        SessionView { state: self.state, descriptor: self.descriptor, output: self.output }
    }
}

impl PlaybackSession {
    #[verifier::type_invariant]
    spec fn inv(&self) -> bool {
        self@.consistent()
    }

    /// A session in `Probing` that sends its audio to `output`.
    pub fn new(output: Output) -> (session: PlaybackSession)
        ensures
            session@ == SessionView::initial(output),
    {
        PlaybackSession { state: SessionState::Probing, descriptor: None, output }
    }

    /// Where the decoded audio goes.
    pub fn output(&self) -> (output: Output)
        ensures
            output == self@.output,
    {
        self.output
    }

    /// Where the session stands.
    pub fn state(&self) -> (state: SessionState)
        ensures
            state == self@.state,
    {
        self.state
    }

    /// The descriptor of the stream, once a frame has fixed it.
    pub fn descriptor(&self) -> (descriptor: Option<StreamDescriptor>)
        ensures
            descriptor == self@.descriptor,
            self@.consistent(),
    {
        proof {
            use_type_invariant(self);
        }
        self.descriptor
    }

    /// How the session ended: `None` while it is running, `Some(Ok(()))` once it
    /// is closed, `Some(Err(..))` once it has failed.
    pub fn result(&self) -> (result: Option<Result<(), SessionError>>)
        ensures
            result == match self@.state {
                SessionState::Closed => Some(Ok::<(), SessionError>(())),
                SessionState::Failed(error) => Some(Err::<(), SessionError>(error)),
                _ => None,
            },
    {
        match self.state {
            SessionState::Closed => Some(Ok(())),
            SessionState::Failed(error) => Some(Err(error)),
            _ => None,
        }
    }

    fn fail(&mut self, error: SessionError) -> (action: SessionAction)
        ensures
            (final(self)@, action@) == fail(old(self)@, error),
    {
        proof {
            use_type_invariant(&*self);
        }
        self.state = SessionState::Failed(error);
        SessionAction::Abort(error)
    }

    fn close(&mut self) -> (action: SessionAction)
        ensures
            (final(self)@, action@) == close(old(self)@),
    {
        proof {
            use_type_invariant(&*self);
        }
        self.state = SessionState::Closed;
        SessionAction::Close
    }

    fn accept_frame(&mut self, frame: &DecodedFrame) -> (action: SessionAction)
        requires
            old(self)@.state is Decoding,
        ensures
            (final(self)@, action@) == step_frame(old(self)@, *frame),
    {
        proof {
            use_type_invariant(&*self);
        }
        let empty = frame.samples.len() == 0;
        if !frame.is_well_formed() {
            if empty {
                return SessionAction::Idle;
            }
            return self.fail(SessionError::DecodeError);
        }
        if self.descriptor.is_some() && empty {
            return SessionAction::Idle;
        }
        let samples = match interleave(
            frame.layout,
            frame.channel_count as usize,
            frame.samples.as_slice(),
        ) {
            Some(samples) => samples,
            None => {
                return self.fail(SessionError::DecodeError);
            },
        };
        if self.descriptor.is_some() {
            return SessionAction::Push { samples };
        }
        let descriptor = StreamDescriptor {
            sample_rate: frame.sample_rate,
            channel_count: frame.channel_count,
            sample_format: self.output.sample_format(),
        };
        match self.output.ring_for(&descriptor) {
            Some(capacity) => {
                self.descriptor = Some(descriptor);
                SessionAction::OpenSink { descriptor, capacity, samples }
            },
            None => self.fail(SessionError::DeviceConfigError),
        }
    }

    /// Takes the next event, moves the session as [`step`] says and returns the
    /// action that the driver owes.
    pub fn advance(&mut self, event: &SessionEvent) -> (action: SessionAction)
        ensures
            final(self)@ == step(old(self)@, *event).0,
            action@ == step(old(self)@, *event).1,
            final(self)@.consistent(),
    {
        proof {
            use_type_invariant(&*self);
        }
        let action = match self.state {
            SessionState::Probing => match event {
                SessionEvent::Probed { track_count } => {
                    if *track_count == 1 {
                        self.state = SessionState::Decoding;
                        SessionAction::OpenDecoder { verify: true }
                    } else {
                        self.fail(SessionError::UnsupportedTrackCount)
                    }
                },
                SessionEvent::ProbeFailed => self.fail(SessionError::ProbeError),
                SessionEvent::Stop => self.close(),
                _ => SessionAction::Idle,
            },
            SessionState::Decoding => match event {
                SessionEvent::Frame(frame) => self.accept_frame(frame),
                SessionEvent::PacketFailed(error) => {
                    if is_normal_eof(error) {
                        self.state = SessionState::Draining;
                        SessionAction::Finalize
                    } else {
                        self.fail(SessionError::DecodeError)
                    }
                },
                SessionEvent::DecodeFailed => self.fail(SessionError::DecodeError),
                SessionEvent::DecoderFailed => self.fail(SessionError::DecodeError),
                SessionEvent::DeviceFailed(error) => self.fail(error.as_session_error()),
                SessionEvent::Stop => self.close(),
                _ => SessionAction::Idle,
            },
            SessionState::Draining => match event {
                SessionEvent::Finalized { verify_ok } => {
                    match *verify_ok {
                        Some(false) => self.fail(SessionError::VerificationFailed),
                        _ => self.close(),
                    }
                },
                SessionEvent::DeviceFailed(error) => self.fail(error.as_session_error()),
                SessionEvent::Stop => self.close(),
                _ => SessionAction::Idle,
            },
            SessionState::Closed => SessionAction::Idle,
            SessionState::Failed(_) => SessionAction::Idle,
        };
        proof {
            use_type_invariant(&*self);
        }
        action
    }

    /// Takes `events` one after the other, as `advance` does, and returns every
    /// sample that the actions deliver, in order.
    pub fn replay(&mut self, events: &[SessionEvent]) -> (samples: Vec<u32>)
        ensures
            final(self)@ == run(old(self)@, events@),
            samples@ == delivered(old(self)@, events@),
    {
        let mut samples: Vec<u32> = Vec::new();
        let mut i: usize = 0;
        while i < events.len()
            invariant
                i <= events@.len(),
                self@ == run(old(self)@, events@.take(i as int)),
                samples@ == delivered(old(self)@, events@.take(i as int)),
            decreases events@.len() - i,
        {
            let action = self.advance(&events[i]);
            assert(events@.take(i + 1).drop_last() =~= events@.take(i as int));
            match action {
                SessionAction::OpenSink { descriptor, capacity, samples: mut part } => {
                    samples.append(&mut part);
                },
                SessionAction::Push { samples: mut part } => {
                    samples.append(&mut part);
                },
                _ => {},
            }
            i = i + 1;
        }
        assert(events@.take(events@.len() as int) =~= events@);
        samples
    }
}

} // verus!

//! Runs of a session: what a sequence of events does, and what holds of it.

use crate::convert::DecodedFrame;
use crate::render::RenderSink;
use crate::sample::StreamDescriptor;
use crate::session::{
    descriptor_of, sink_openable, step, ActionView, IoErrorKind, Output, PacketError,
    SessionError, SessionEvent, SessionState, SessionView,
};
use crate::sink::PlaybackSink;
use vstd::prelude::*;

verus! {

/// The session after it took `events`, one after the other.
pub open spec fn run(s: SessionView, events: Seq<SessionEvent>) -> SessionView
    decreases events.len(),
{
    if events.len() == 0 {
        s
    } else {
        step(run(s, events.drop_last()), events.last()).0
    }
}

/// Every sample that the session delivered while it took `events`, in order.
pub open spec fn delivered(s: SessionView, events: Seq<SessionEvent>) -> Seq<u32>
    decreases events.len(),
{
    if events.len() == 0 {
        Seq::empty()
    } else {
        delivered(s, events.drop_last()) + step(
            run(s, events.drop_last()),
            events.last(),
        ).1.samples()
    }
}

/// The audio of `frames` in device order, one frame after the other.
pub open spec fn decoded(frames: Seq<DecodedFrame>) -> Seq<u32>
    decreases frames.len(),
{
    if frames.len() == 0 {
        Seq::empty()
    } else {
        decoded(frames.drop_last()) + frames.last().device_order()
    }
}

/// How many samples `frames` hold together.
pub open spec fn sample_count(frames: Seq<DecodedFrame>) -> nat
    decreases frames.len(),
{
    if frames.len() == 0 {
        0
    } else {
        sample_count(frames.drop_last()) + frames.last().samples@.len()
    }
}

/// The first of `frames` that is well formed.
pub open spec fn first_well_formed(frames: Seq<DecodedFrame>) -> Option<DecodedFrame>
    decreases frames.len(),
{
    if frames.len() == 0 {
        None
    } else {
        match first_well_formed(frames.drop_last()) {
            Some(frame) => Some(frame),
            None => if frames.last().well_formed() {
                Some(frames.last())
            } else {
                None
            },
        }
    }
}

/// The descriptor that `frames` fix for `output`: that of the first well-formed
/// frame.
pub open spec fn stream_descriptor(frames: Seq<DecodedFrame>, output: Output) -> Option<
    StreamDescriptor,
> {
    match first_well_formed(frames) {
        Some(frame) => Some(descriptor_of(frame, output.format())),
        None => None,
    }
}

/// The events of decoding `frames`, one packet each.
pub open spec fn frame_events(frames: Seq<DecodedFrame>) -> Seq<SessionEvent> {
    Seq::new(frames.len(), |i: int| SessionEvent::Frame(frames[i]))
}

/// The events of a stream that is probed to one track, decodes into `frames`,
/// ends normally and is finalized with `verify_ok`.
pub open spec fn clean_stream(frames: Seq<DecodedFrame>, verify_ok: Option<bool>) -> Seq<
    SessionEvent,
> {
    seq![SessionEvent::Probed { track_count: 1 }] + frame_events(frames) + seq![
        SessionEvent::PacketFailed(PacketError::Io(IoErrorKind::UnexpectedEof)),
        SessionEvent::Finalized { verify_ok },
    ]
}

/// Whether `frames` can be sent to `output`: every frame that holds samples is
/// well formed, and a sink can be opened for the first well-formed frame.
pub open spec fn playable_frames(frames: Seq<DecodedFrame>, output: Output) -> bool
    decreases frames.len(),
{
    if frames.len() == 0 {
        true
    } else {
        let earlier = frames.drop_last();
        let last = frames.last();
        &&& playable_frames(earlier, output)
        &&& last.samples@.len() == 0 || last.well_formed()
        &&& last.well_formed() && first_well_formed(earlier) is None ==> sink_openable(
            last,
            output,
        )
    }
}

/// Taking one event is one step.
pub proof fn lemma_run_one(s: SessionView, event: SessionEvent)
    ensures
        run(s, seq![event]) == step(s, event).0,
        delivered(s, seq![event]) == step(s, event).1.samples(),
{
    let one = seq![event];
    assert(run(s, one.drop_last()) == s);
    assert(delivered(s, one.drop_last()) =~= Seq::<u32>::empty());
}

/// Taking events in two runs is taking them in one.
pub proof fn lemma_run_split(s: SessionView, first: Seq<SessionEvent>, second: Seq<SessionEvent>)
    ensures
        run(s, first + second) == run(run(s, first), second),
        delivered(s, first + second) == delivered(s, first) + delivered(run(s, first), second),
    decreases second.len(),
{
    if second.len() > 0 {
        lemma_run_split(s, first, second.drop_last());
        assert((first + second).drop_last() =~= first + second.drop_last());
    }
}

/// A frame in device order holds as many samples as the frame.
pub proof fn lemma_device_order_len(frame: DecodedFrame)
    ensures
        frame.device_order().len() == frame.samples@.len(),
{
}

/// The audio of frames holds as many samples as the frames do together.
pub proof fn lemma_decoded_len(frames: Seq<DecodedFrame>)
    ensures
        decoded(frames).len() == sample_count(frames),
    decreases frames.len(),
{
    if frames.len() > 0 {
        lemma_decoded_len(frames.drop_last());
        lemma_device_order_len(frames.last());
    }
}

/// A session that is decoding delivers the samples of a frame in device order
/// and goes on decoding, provided the frame is well formed or empty and, where it
/// is the first well-formed one, a sink can be opened for it.
pub proof fn lemma_frame_delivered(s: SessionView, frame: DecodedFrame)
    requires
        s.state is Decoding,
        frame.samples@.len() == 0 || frame.well_formed(),
        frame.well_formed() && s.descriptor is None ==> sink_openable(frame, s.output),
    ensures
        step(s, SessionEvent::Frame(frame)).0.state is Decoding,
        step(s, SessionEvent::Frame(frame)).0.output == s.output,
        step(s, SessionEvent::Frame(frame)).0.descriptor == if s.descriptor is Some {
            s.descriptor
        } else if frame.well_formed() {
            Some(descriptor_of(frame, s.output.format()))
        } else {
            None
        },
        step(s, SessionEvent::Frame(frame)).1.samples() == frame.device_order(),
{
}

/// A session that has just begun to decode delivers the audio of playable frames
/// whole and in order, and goes on decoding.
pub proof fn lemma_frames_delivered(s: SessionView, frames: Seq<DecodedFrame>)
    requires
        s.state is Decoding,
        s.descriptor is None,
        playable_frames(frames, s.output),
    ensures
        run(s, frame_events(frames)).state is Decoding,
        run(s, frame_events(frames)).output == s.output,
        run(s, frame_events(frames)).descriptor == stream_descriptor(frames, s.output),
        sample_count(frames) > 0 ==> first_well_formed(frames) is Some,
        delivered(s, frame_events(frames)) == decoded(frames),
    decreases frames.len(),
{
    let events = frame_events(frames);
    if frames.len() > 0 {
        let earlier = frames.drop_last();
        let last = frames.last();
        assert(events.drop_last() =~= frame_events(earlier));
        lemma_frames_delivered(s, earlier);
        lemma_frame_delivered(run(s, frame_events(earlier)), last);
    }
}

/// A stream with one track that decodes cleanly is played whole. The session
/// closes, and what it delivered to the sink is the audio of the decoded frames in
/// device order, one frame after the other: as many samples as the frames hold
/// together, and so at least one where any frame holds one. The descriptor is
/// that of the first well-formed frame, and the output can take it.
pub proof fn lemma_clean_stream_is_played_whole(
    output: Output,
    frames: Seq<DecodedFrame>,
    verify_ok: Option<bool>,
)
    requires
        playable_frames(frames, output),
        verify_ok != Some(false),
    ensures
        run(SessionView::initial(output), clean_stream(frames, verify_ok)).state
            == SessionState::Closed,
        delivered(SessionView::initial(output), clean_stream(frames, verify_ok)) == decoded(frames),
        decoded(frames).len() == sample_count(frames),
        run(SessionView::initial(output), clean_stream(frames, verify_ok)).descriptor
            == stream_descriptor(frames, output),
        stream_descriptor(frames, output) matches Some(d) ==> d.valid() && output.takes(d),
{
    let start = SessionView::initial(output);
    let probe = SessionEvent::Probed { track_count: 1 };
    let eof = SessionEvent::PacketFailed(PacketError::Io(IoErrorKind::UnexpectedEof));
    let finalized = SessionEvent::Finalized { verify_ok };
    let body = frame_events(frames);
    lemma_run_one(start, probe);
    let probed = run(start, seq![probe]);
    lemma_frames_delivered(probed, frames);
    let played = run(probed, body);
    lemma_run_one(played, eof);
    let drained = run(played, seq![eof]);
    lemma_run_one(drained, finalized);
    lemma_run_split(start, seq![probe], body);
    lemma_run_split(start, seq![probe] + body, seq![eof]);
    lemma_run_split(start, seq![probe] + body + seq![eof], seq![finalized]);
    assert(clean_stream(frames, verify_ok) =~= seq![probe] + body + seq![eof] + seq![finalized]);
    lemma_decoded_len(frames);
    lemma_run_consistent(start, clean_stream(frames, verify_ok));
}

/// What is consistent stays so, whatever is reported.
pub proof fn lemma_run_consistent(s: SessionView, events: Seq<SessionEvent>)
    requires
        s.consistent(),
    ensures
        run(s, events).consistent(),
        run(s, events).output == s.output,
    decreases events.len(),
{
    if events.len() > 0 {
        lemma_run_consistent(s, events.drop_last());
        lemma_step_kinds(run(s, events.drop_last()), events.last());
    }
}

/// Playable frames that hold samples have a descriptor.
pub proof fn lemma_audible(frames: Seq<DecodedFrame>, output: Output)
    requires
        playable_frames(frames, output),
    ensures
        sample_count(frames) > 0 ==> stream_descriptor(frames, output) is Some,
    decreases frames.len(),
{
    if frames.len() > 0 {
        lemma_audible(frames.drop_last(), output);
    }
}

/// Where the first frame is well formed, it is the first well-formed frame.
pub proof fn lemma_first_well_formed(frames: Seq<DecodedFrame>)
    requires
        frames.len() > 0,
        frames[0].well_formed(),
    ensures
        first_well_formed(frames) == Some(frames[0]),
    decreases frames.len(),
{
    if frames.len() > 1 {
        lemma_first_well_formed(frames.drop_last());
    } else {
        assert(first_well_formed(frames.drop_last()) is None);
    }
}

/// Frames hold together at least as many samples as the first of them.
pub proof fn lemma_sample_count_grows(frames: Seq<DecodedFrame>)
    ensures
        frames.len() > 0 ==> sample_count(frames) >= frames[0].samples@.len(),
    decreases frames.len(),
{
    if frames.len() > 1 {
        lemma_sample_count_grows(frames.drop_last());
    }
}

/// A container is played only if it holds exactly one audio track: probed to any
/// other number of tracks, none or several, the session fails with
/// `UnsupportedTrackCount` and with no other error.
pub proof fn lemma_track_count(s: SessionView, track_count: usize)
    requires
        s.state is Probing,
    ensures
        step(s, SessionEvent::Probed { track_count }).0.state == SessionState::Failed(
            SessionError::UnsupportedTrackCount,
        ) <==> track_count != 1,
        track_count != 1 ==> step(s, SessionEvent::Probed { track_count }).1 == ActionView::Abort(
            SessionError::UnsupportedTrackCount,
        ),
        track_count == 1 ==> step(s, SessionEvent::Probed { track_count }).0.state
            == SessionState::Decoding,
{
}

/// A session that is over stays over: whatever is reported to it afterwards, it
/// keeps its state and delivers nothing.
pub proof fn lemma_over_is_over(s: SessionView, events: Seq<SessionEvent>)
    requires
        s.terminal(),
    ensures
        run(s, events) == s,
        delivered(s, events) == Seq::<u32>::empty(),
    decreases events.len(),
{
    if events.len() > 0 {
        lemma_over_is_over(s, events.drop_last());
    }
}

/// Stopping ends a running session at once, and nothing is delivered after it.
pub proof fn lemma_stop_ends_delivery(s: SessionView, events: Seq<SessionEvent>)
    requires
        !s.terminal(),
    ensures
        step(s, SessionEvent::Stop).0.state == SessionState::Closed,
        delivered(step(s, SessionEvent::Stop).0, events) == Seq::<u32>::empty(),
{
    lemma_over_is_over(step(s, SessionEvent::Stop).0, events);
}

/// Each state fails only in its own ways: probing with `ProbeError` or
/// `UnsupportedTrackCount`; decoding with `DecodeError` or a device error;
/// draining with `VerificationFailed` or a device error. What is consistent stays
/// so, and a sink is only ever asked for where the output can take the stream.
pub proof fn lemma_step_kinds(s: SessionView, event: SessionEvent)
    requires
        s.consistent(),
    ensures
        step(s, event).0.consistent(),
        step(s, event).0.output == s.output,
        step(s, event).1 matches ActionView::OpenSink { descriptor, capacity, .. } ==> s.output.takes(
            descriptor,
        ) && capacity == s.output.ring(descriptor) && step(s, event).0.descriptor == Some(
            descriptor,
        ),
        s.descriptor is Some ==> step(s, event).0.descriptor == s.descriptor,
        s.terminal() ==> step(s, event).0 == s,
        !s.terminal() ==> (step(s, event).0.state matches SessionState::Failed(error) ==> step(
            s,
            event,
        ).1 == ActionView::Abort(error) && match s.state {
            SessionState::Probing => error == SessionError::ProbeError || error
                == SessionError::UnsupportedTrackCount,
            SessionState::Decoding => error == SessionError::DecodeError || error
                == SessionError::DeviceOpenError || error == SessionError::DeviceConfigError
                || error == SessionError::StreamPlayError,
            _ => error == SessionError::VerificationFailed || error
                == SessionError::DeviceOpenError || error == SessionError::DeviceConfigError
                || error == SessionError::StreamPlayError,
        }),
{
}

/// The session asks for no sink that cannot be opened. For a device, the
/// descriptor and the capacity that it hands over are those for which a playback
/// sink opens; for a container, the descriptor is one that a render accepts.
pub proof fn lemma_asked_sink_opens(s: SessionView, event: SessionEvent)
    ensures
        step(s, event).1 matches ActionView::OpenSink { descriptor, capacity, .. } ==> match s.output {
            Output::Device { .. } => PlaybackSink::openable(descriptor, capacity),
            Output::Container => RenderSink::accepts(descriptor) && capacity == 0,
        },
{
}

} // verus!

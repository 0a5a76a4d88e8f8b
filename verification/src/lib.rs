//! Decode-and-playback pipeline core.
//!
//! The crate holds the decisions of a streaming audio session: which track is
//! played, how decoded frames become interleaved device samples, how samples
//! travel through a fixed-capacity ring to a real-time callback, and when a
//! session ends or fails. Demultiplexing, decoding and the audio device are
//! driven by the caller, who reports what happened as events and carries out
//! the actions that the session hands back.
//!
//! Samples are carried as 32-bit words holding the raw bits of the device
//! format, so that the pipeline never computes on the numeric value of a
//! sample.

pub mod convert;
pub mod render;
pub mod ring;
pub mod sample;
pub mod session;
pub mod sink;
pub mod text;
pub mod trace;
pub mod window;

pub use convert::{ChannelLayout, DecodedFrame};
pub use render::RenderSink;
pub use ring::RingBuffer;
pub use sample::{SampleFormat, StreamDescriptor};
pub use session::{Output, PlaybackSession, SessionAction, SessionError, SessionEvent, SessionState};
pub use sink::PlaybackSink;
pub use window::{Duration, MaybeDuration, PhaseShiftParameters, RecordingWindow};

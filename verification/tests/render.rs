use audio_pipeline::convert::{ChannelLayout, DecodedFrame};
use audio_pipeline::render::{
    render, ContainerHeader, RenderSink, CONTAINER_OVERHEAD, FORMAT_IEEE_FLOAT, RENDER_BITS,
};
use audio_pipeline::sample::{SampleFormat, StreamDescriptor};
use audio_pipeline::session::{
    DeviceError, IoErrorKind, Output, PacketError, PlaybackSession, SessionAction, SessionError,
    SessionEvent, SessionState,
};
use std::io::{Cursor, ErrorKind};

fn float(sample_rate: u32, channel_count: u16) -> StreamDescriptor {
    StreamDescriptor { sample_rate, channel_count, sample_format: SampleFormat::Float32 }
}

#[allow(deprecated)]
fn outside_header(header: ContainerHeader) -> wav::Header {
    wav::Header {
        audio_format: header.audio_format,
        channel_count: header.channel_count,
        sampling_rate: header.sampling_rate,
        bytes_per_second: header.bytes_per_second,
        bytes_per_sample: header.bytes_per_sample,
        bits_per_sample: header.bits_per_sample,
    }
}

#[allow(deprecated)]
fn container(header: wav::Header, samples: Vec<f32>) -> Vec<u8> {
    let mut out = Cursor::new(Vec::new());
    wav::write(header, &wav::BitDepth::ThirtyTwoFloat(samples), &mut out).unwrap();
    out.into_inner()
}

fn packet_error(error: &symphonia::core::errors::Error) -> PacketError {
    type SymphoniaError = symphonia::core::errors::Error;
    match error {
        SymphoniaError::IoError(e) => PacketError::Io(match e.kind() {
            ErrorKind::UnexpectedEof => IoErrorKind::UnexpectedEof,
            _ => IoErrorKind::Other,
        }),
        SymphoniaError::DecodeError(_) => PacketError::Decode,
        SymphoniaError::SeekError(_) => PacketError::Seek,
        SymphoniaError::Unsupported(_) => PacketError::Unsupported,
        SymphoniaError::LimitError(_) => PacketError::Limit,
        SymphoniaError::ResetRequired => PacketError::ResetRequired,
    }
}

/// Decodes `bytes` and renders the audio, with the session deciding every step.
fn examine(bytes: Vec<u8>) -> (SessionState, Option<RenderSink>) {
    let mut session = PlaybackSession::new(Output::Container);
    let mut sink: Option<RenderSink> = None;
    let stream = symphonia::core::io::MediaSourceStream::new(
        Box::new(Cursor::new(bytes)),
        symphonia::core::io::MediaSourceStreamOptions::default(),
    );
    let metadata = symphonia::core::meta::MetadataOptions {
        limit_metadata_bytes: symphonia::core::meta::Limit::None,
        limit_visual_bytes: symphonia::core::meta::Limit::None,
    };
    let probed = symphonia::default::get_probe().format(
        &symphonia::core::probe::Hint::new(),
        stream,
        &symphonia::core::formats::FormatOptions::default(),
        &metadata,
    );
    let mut format = match probed {
        Ok(probed) => probed.format,
        Err(_) => {
            session.advance(&SessionEvent::ProbeFailed);
            return (session.state(), sink);
        }
    };
    let track_count = format.tracks().len();
    let mut decoder = match session.advance(&SessionEvent::Probed { track_count }) {
        SessionAction::OpenDecoder { verify } => {
            let made = symphonia::default::get_codecs()
                .make(
                    &format.tracks()[0].codec_params,
                    &symphonia::core::codecs::DecoderOptions { verify },
                );
            match made {
                Ok(decoder) => decoder,
                Err(_) => {
                    session.advance(&SessionEvent::DecoderFailed);
                    return (session.state(), sink);
                }
            }
        }
        _ => return (session.state(), sink),
    };
    let mut pending: Option<SessionEvent> = None;
    while session.result().is_none() {
        let event = match pending.take() {
            Some(event) => event,
            None => match format.next_packet() {
                Err(error) => SessionEvent::PacketFailed(packet_error(&error)),
                Ok(packet) => match decoder.decode(&packet) {
                    Err(_) => SessionEvent::DecodeFailed,
                    Ok(decoded) => {
                        let spec = *decoded.spec();
                        let mut buffer: symphonia::core::audio::SampleBuffer<f32> =
                            symphonia::core::audio::SampleBuffer::new(
                                decoded.capacity() as u64,
                                spec,
                            );
                        buffer.copy_planar_ref(decoded);
                        SessionEvent::Frame(DecodedFrame {
                            sample_rate: spec.rate,
                            channel_count: spec.channels.count() as u16,
                            layout: ChannelLayout::Planar,
                            samples: buffer.samples().iter().map(|s| s.to_bits()).collect(),
                        })
                    }
                },
            },
        };
        match session.advance(&event) {
            SessionAction::OpenSink { descriptor, samples, .. } => match RenderSink::open(&descriptor) {
                Ok(mut opened) => {
                    opened.push(&samples);
                    sink = Some(opened);
                }
                Err(error) => pending = Some(SessionEvent::DeviceFailed(error)),
            },
            SessionAction::Push { samples } => {
                sink.as_mut().unwrap().push(&samples);
            }
            SessionAction::Finalize => {
                pending = Some(SessionEvent::Finalized { verify_ok: decoder.finalize().verify_ok });
            }
            _ => {}
        }
    }
    (session.state(), sink)
}

fn sine(sample_rate: u32, channels: usize, steps: usize) -> Vec<f32> {
    let mut samples = Vec::with_capacity(channels * steps);
    for t in 0..steps {
        let phase = t as f32 * 440.0 * 2.0 * std::f32::consts::PI / sample_rate as f32;
        for c in 0..channels {
            samples.push(phase.sin() / (c + 1) as f32);
        }
    }
    samples
}

#[test]
fn header_names_float_samples_of_the_stream() {
    let sink = RenderSink::open(&float(44_100, 2)).unwrap();
    assert_eq!(
        sink.container_header().unwrap(),
        ContainerHeader {
            audio_format: 3,
            channel_count: 2,
            sampling_rate: 44_100,
            bytes_per_second: 352_800,
            bytes_per_sample: 8,
            bits_per_sample: 32,
        }
    );
    assert_eq!(FORMAT_IEEE_FLOAT, 3);
    assert_eq!(RENDER_BITS, 32);
    assert_eq!(sink.sample_count(), 0);
}

#[test]
#[allow(deprecated)]
fn header_is_the_one_the_container_writer_makes() {
    for (rate, channels) in [(8_000u32, 1u16), (48_000, 2), (96_000, 6), (1, 16_383)] {
        let sink = RenderSink::open(&float(rate, channels)).unwrap();
        let expected = wav::Header::new(wav::WAV_FORMAT_IEEE_FLOAT, channels, rate, 32);
        assert_eq!(outside_header(sink.container_header().unwrap()), expected);
    }
}

#[test]
fn render_refuses_streams_that_are_not_valid_float_streams() {
    let refused = |descriptor: StreamDescriptor| {
        assert_eq!(RenderSink::open(&descriptor).err(), Some(DeviceError::Config));
    };
    refused(float(0, 2));
    refused(float(44_100, 0));
    refused(StreamDescriptor {
        sample_rate: 44_100,
        channel_count: 2,
        sample_format: SampleFormat::Signed16,
    });
    refused(StreamDescriptor {
        sample_rate: 44_100,
        channel_count: 2,
        sample_format: SampleFormat::Unsigned16,
    });
}

#[test]
fn stream_that_the_header_cannot_describe_is_collected_without_header() {
    for descriptor in [float(44_100, 16_384), float(u32::MAX, 2), float(1_073_741_824, 1)] {
        assert!(!descriptor.is_renderable());
        let mut sink = RenderSink::open(&descriptor).unwrap();
        assert_eq!(sink.container_header(), None);
        assert_eq!(sink.push(&[1, 2, 3]), 3);
        assert_eq!(sink.as_slice(), &[1, 2, 3]);
    }
    for descriptor in [float(1_073_741_823, 1), float(1, 16_383)] {
        assert!(descriptor.is_renderable());
        assert!(RenderSink::open(&descriptor).unwrap().container_header().is_some());
    }
}

#[test]
fn recorded_stream_is_rendered_whole() {
    let frame = |samples: &[u32]| {
        SessionEvent::Frame(DecodedFrame {
            sample_rate: 8_000,
            channel_count: 2,
            layout: ChannelLayout::Planar,
            samples: samples.to_vec(),
        })
    };
    let events = [
        SessionEvent::Probed { track_count: 1 },
        frame(&[1, 2, 3, 4]),
        frame(&[]),
        frame(&[5, 6]),
        SessionEvent::PacketFailed(PacketError::Io(IoErrorKind::UnexpectedEof)),
        SessionEvent::Finalized { verify_ok: None },
    ];
    let rendered = render(&events);
    assert_eq!(rendered.state, SessionState::Closed);
    let sink = rendered.sink.unwrap();
    assert_eq!(sink.as_slice(), &[1, 3, 2, 4, 5, 6]);
    assert_eq!(sink.sample_count(), 4 + 0 + 2);
    let header = sink.container_header().unwrap();
    assert_eq!(header.channel_count, 2);
    assert_eq!(header.sampling_rate, 8_000);
    assert_eq!(header.audio_format, 3);
    assert_eq!(header.bits_per_sample, 32);
}

#[test]
fn recorded_stream_without_frames_has_no_render() {
    let events = [
        SessionEvent::Probed { track_count: 1 },
        SessionEvent::PacketFailed(PacketError::Io(IoErrorKind::UnexpectedEof)),
        SessionEvent::Finalized { verify_ok: Some(true) },
    ];
    let rendered = render(&events);
    assert_eq!(rendered.state, SessionState::Closed);
    assert!(rendered.sink.is_none());
    let nothing = render(&[]);
    assert_eq!(nothing.state, SessionState::Probing);
    assert!(nothing.sink.is_none());
}

#[test]
fn recorded_stream_that_fails_keeps_what_came_before() {
    let frame = |samples: &[u32]| {
        SessionEvent::Frame(DecodedFrame {
            sample_rate: 8_000,
            channel_count: 1,
            layout: ChannelLayout::Interleaved,
            samples: samples.to_vec(),
        })
    };
    let events = [
        SessionEvent::Probed { track_count: 1 },
        frame(&[1, 2]),
        SessionEvent::DecodeFailed,
        frame(&[3]),
    ];
    let rendered = render(&events);
    assert_eq!(rendered.state, SessionState::Failed(SessionError::DecodeError));
    assert_eq!(rendered.sink.unwrap().as_slice(), &[1, 2]);
    let two_tracks = render(&[SessionEvent::Probed { track_count: 2 }, frame(&[1])]);
    assert_eq!(two_tracks.state, SessionState::Failed(SessionError::UnsupportedTrackCount));
    assert!(two_tracks.sink.is_none());
}

#[test]
fn recorded_stream_of_many_channels_is_rendered_without_header() {
    let channels = 20_000u16;
    let samples: Vec<u32> = (0..channels as u32).collect();
    let events = [
        SessionEvent::Probed { track_count: 1 },
        SessionEvent::Frame(DecodedFrame {
            sample_rate: 8_000,
            channel_count: channels,
            layout: ChannelLayout::Planar,
            samples: samples.clone(),
        }),
        SessionEvent::PacketFailed(PacketError::Io(IoErrorKind::UnexpectedEof)),
        SessionEvent::Finalized { verify_ok: None },
    ];
    let rendered = render(&events);
    assert_eq!(rendered.state, SessionState::Closed);
    let sink = rendered.sink.unwrap();
    assert_eq!(sink.container_header(), None);
    assert_eq!(sink.as_slice(), &samples[..]);
}

#[test]
fn render_keeps_every_sample_in_order() {
    let mut sink = RenderSink::open(&float(8_000, 1)).unwrap();
    assert_eq!(sink.push(&[1, 2, 3]), 3);
    assert_eq!(sink.push(&[]), 0);
    assert_eq!(sink.push(&[4, 5]), 2);
    assert_eq!(sink.as_slice(), &[1, 2, 3, 4, 5]);
    assert_eq!(sink.sample_count(), 5);
    assert_eq!(sink.data_len(), Some(20));
    assert_eq!(sink.container_header().unwrap().sampling_rate, 8_000);
}

#[test]
fn rendered_container_is_as_long_as_the_library_says() {
    let mut sink = RenderSink::open(&float(8_000, 2)).unwrap();
    sink.push(&[1.0f32.to_bits(), 0.5f32.to_bits(), 0.25f32.to_bits(), 0.125f32.to_bits()]);
    let floats: Vec<f32> = sink.as_slice().iter().map(|w| f32::from_bits(*w)).collect();
    let bytes = container(outside_header(sink.container_header().unwrap()), floats);
    let data_len = sink.data_len().unwrap();
    assert_eq!(data_len, 16);
    assert_eq!(bytes.len() as u32, 8 + CONTAINER_OVERHEAD + data_len);
    assert_eq!(&bytes[4..8], &(CONTAINER_OVERHEAD + data_len).to_le_bytes());
    assert_eq!(&bytes[20..22], &3u16.to_le_bytes());
    assert_eq!(&bytes[22..24], &2u16.to_le_bytes());
    assert_eq!(&bytes[24..28], &8_000u32.to_le_bytes());
    assert_eq!(&bytes[34..36], &32u16.to_le_bytes());
    assert_eq!(&bytes[40..44], &data_len.to_le_bytes());
    assert_eq!(&bytes[44..48], &1.0f32.to_le_bytes());
}

#[test]
#[allow(deprecated)]
fn sine_wave_survives_decoding_and_rendering() {
    for (rate, channels, steps) in [(8_000u32, 1usize, 400usize), (44_100, 2, 5_000), (48_000, 3, 1_024)] {
        let source_samples = sine(rate, channels, steps);
        let source_header = wav::Header::new(wav::WAV_FORMAT_IEEE_FLOAT, channels as u16, rate, 32);
        let source = container(source_header, source_samples.clone());

        let (state, sink) = examine(source.clone());
        assert_eq!(state, SessionState::Closed);
        let sink = sink.unwrap();
        assert_eq!(sink.sample_count(), source_samples.len());
        assert_eq!(sink.container_header().unwrap().channel_count as usize, channels);
        assert_eq!(sink.container_header().unwrap().sampling_rate, rate);

        let floats: Vec<f32> = sink.as_slice().iter().map(|w| f32::from_bits(*w)).collect();
        assert_eq!(floats, source_samples);
        let rendered = container(outside_header(sink.container_header().unwrap()), floats);
        assert_eq!(rendered, source);

        let (header, data) = wav::read(&mut Cursor::new(rendered)).unwrap();
        assert_eq!(header.channel_count as usize, channels);
        assert_eq!(header.sampling_rate, rate);
        assert_eq!(header.audio_format, wav::WAV_FORMAT_IEEE_FLOAT);
        assert_eq!(header.bits_per_sample, 32);
        assert_eq!(data.as_thirty_two_float().unwrap().len(), source_samples.len());
    }
}

#[test]
fn bytes_that_are_no_container_fail_the_probe() {
    let (state, sink) = examine(vec![0u8; 64]);
    assert_eq!(state, SessionState::Failed(SessionError::ProbeError));
    assert!(sink.is_none());
    let (state, _) = examine(Vec::new());
    assert_eq!(state, SessionState::Failed(SessionError::ProbeError));
}

#[test]
#[allow(deprecated)]
fn container_without_samples_closes_without_a_sink() {
    let header = wav::Header::new(wav::WAV_FORMAT_IEEE_FLOAT, 2, 8_000, 32);
    let (state, sink) = examine(container(header, Vec::new()));
    assert_eq!(state, SessionState::Closed);
    assert!(sink.is_none());
}

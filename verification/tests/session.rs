use audio_pipeline::convert::{ChannelLayout, DecodedFrame};
use audio_pipeline::sample::{SampleFormat, StreamDescriptor};
use audio_pipeline::sink::PlaybackSink;
use audio_pipeline::session::{
    is_normal_eof, DeviceError, IoErrorKind, Output, PacketError, PlaybackSession, SessionAction,
    SessionError, SessionEvent, SessionState,
};

const EOF: SessionEvent = SessionEvent::PacketFailed(PacketError::Io(IoErrorKind::UnexpectedEof));

fn planar(sample_rate: u32, channel_count: u16, samples: &[u32]) -> SessionEvent {
    SessionEvent::Frame(DecodedFrame {
        sample_rate,
        channel_count,
        layout: ChannelLayout::Planar,
        samples: samples.to_vec(),
    })
}

fn device(scale: u32) -> Output {
    Output::Device { format: SampleFormat::Float32, scale }
}

fn decoding() -> PlaybackSession {
    let mut session = PlaybackSession::new(device(1));
    assert_eq!(
        session.advance(&SessionEvent::Probed { track_count: 1 }),
        SessionAction::OpenDecoder { verify: true }
    );
    session
}

fn draining() -> PlaybackSession {
    let mut session = decoding();
    assert_eq!(session.advance(&EOF), SessionAction::Finalize);
    session
}

fn stereo() -> StreamDescriptor {
    StreamDescriptor { sample_rate: 48_000, channel_count: 2, sample_format: SampleFormat::Float32 }
}

#[test]
fn session_starts_probing() {
    let session = PlaybackSession::new(device(1));
    assert_eq!(session.output(), device(1));
    assert_eq!(session.state(), SessionState::Probing);
    assert_eq!(session.descriptor(), None);
    assert_eq!(session.result(), None);
}

#[test]
fn one_track_is_decoded_with_verification() {
    let session = decoding();
    assert_eq!(session.state(), SessionState::Decoding);
    assert_eq!(session.result(), None);
}

#[test]
fn no_track_is_an_unsupported_track_count() {
    let mut session = PlaybackSession::new(device(1));
    assert_eq!(
        session.advance(&SessionEvent::Probed { track_count: 0 }),
        SessionAction::Abort(SessionError::UnsupportedTrackCount)
    );
    assert_eq!(session.state(), SessionState::Failed(SessionError::UnsupportedTrackCount));
    assert_eq!(session.result(), Some(Err(SessionError::UnsupportedTrackCount)));
}

#[test]
fn two_tracks_are_an_unsupported_track_count() {
    for track_count in [2usize, 3, 17, usize::MAX] {
        let mut session = PlaybackSession::new(device(1));
        assert_eq!(
            session.advance(&SessionEvent::Probed { track_count }),
            SessionAction::Abort(SessionError::UnsupportedTrackCount)
        );
        assert_eq!(session.state(), SessionState::Failed(SessionError::UnsupportedTrackCount));
    }
}

#[test]
fn failed_probe_is_a_probe_error() {
    let mut session = PlaybackSession::new(device(1));
    assert_eq!(
        session.advance(&SessionEvent::ProbeFailed),
        SessionAction::Abort(SessionError::ProbeError)
    );
    assert_eq!(session.result(), Some(Err(SessionError::ProbeError)));
}

#[test]
fn first_frame_opens_the_sink() {
    let mut session = decoding();
    let action = session.advance(&planar(48_000, 2, &[1, 2, 3, 4, 5, 6]));
    assert_eq!(
        action,
        SessionAction::OpenSink {
            descriptor: stereo(),
            capacity: 19_200,
            samples: vec![1, 4, 2, 5, 3, 6],
        }
    );
    assert_eq!(session.descriptor(), Some(stereo()));
    assert_eq!(session.state(), SessionState::Decoding);
}

#[test]
fn later_frames_are_pushed() {
    let mut session = decoding();
    session.advance(&planar(48_000, 2, &[1, 2]));
    assert_eq!(
        session.advance(&planar(48_000, 2, &[7, 8, 9, 10])),
        SessionAction::Push { samples: vec![7, 9, 8, 10] }
    );
    let interleaved = SessionEvent::Frame(DecodedFrame {
        sample_rate: 48_000,
        channel_count: 2,
        layout: ChannelLayout::Interleaved,
        samples: vec![7, 8, 9, 10],
    });
    assert_eq!(session.advance(&interleaved), SessionAction::Push { samples: vec![7, 8, 9, 10] });
}

#[test]
fn descriptor_is_fixed_by_the_first_frame() {
    let mut session = decoding();
    session.advance(&planar(48_000, 2, &[1, 2]));
    session.advance(&planar(8_000, 1, &[3]));
    assert_eq!(session.descriptor(), Some(stereo()));
}

#[test]
fn empty_first_frame_still_fixes_the_descriptor() {
    let mut session = decoding();
    assert_eq!(
        session.advance(&planar(48_000, 2, &[])),
        SessionAction::OpenSink { descriptor: stereo(), capacity: 19_200, samples: vec![] }
    );
    assert_eq!(session.descriptor(), Some(stereo()));
    assert_eq!(
        session.advance(&planar(48_000, 2, &[1, 2])),
        SessionAction::Push { samples: vec![1, 2] }
    );
}

#[test]
fn empty_frame_is_never_an_error() {
    let mut session = decoding();
    assert_eq!(session.advance(&planar(0, 0, &[])), SessionAction::Idle);
    assert_eq!(session.advance(&planar(48_000, 0, &[])), SessionAction::Idle);
    assert_eq!(session.advance(&planar(0, 2, &[])), SessionAction::Idle);
    assert_eq!(session.state(), SessionState::Decoding);
    assert_eq!(session.descriptor(), None);
    assert!(matches!(
        session.advance(&planar(48_000, 2, &[1, 2])),
        SessionAction::OpenSink { .. }
    ));
    assert_eq!(session.advance(&planar(48_000, 2, &[])), SessionAction::Idle);
    assert_eq!(session.advance(&planar(0, 0, &[])), SessionAction::Idle);
    assert_eq!(session.state(), SessionState::Decoding);
    assert_eq!(session.descriptor(), Some(stereo()));
}

#[test]
fn malformed_frame_is_a_decode_error() {
    for event in [planar(48_000, 2, &[1, 2, 3]), planar(48_000, 0, &[1]), planar(0, 1, &[1])] {
        let mut session = decoding();
        assert_eq!(session.advance(&event), SessionAction::Abort(SessionError::DecodeError));
        assert_eq!(session.state(), SessionState::Failed(SessionError::DecodeError));
    }
}

#[test]
fn integer_device_formats_are_refused_when_the_sink_opens() {
    for format in [SampleFormat::Signed16, SampleFormat::Unsigned16] {
        let mut session = PlaybackSession::new(Output::Device { format, scale: 1 });
        session.advance(&SessionEvent::Probed { track_count: 1 });
        assert_eq!(session.state(), SessionState::Decoding);
        assert_eq!(
            session.advance(&planar(48_000, 2, &[1, 2])),
            SessionAction::Abort(SessionError::DeviceConfigError)
        );
        assert_eq!(session.result(), Some(Err(SessionError::DeviceConfigError)));
    }
}

#[test]
fn ring_without_room_is_a_config_error() {
    let mut session = PlaybackSession::new(device(0));
    session.advance(&SessionEvent::Probed { track_count: 1 });
    assert_eq!(
        session.advance(&planar(48_000, 2, &[1, 2])),
        SessionAction::Abort(SessionError::DeviceConfigError)
    );
}

#[test]
fn ring_too_large_to_keep_is_a_config_error() {
    // 6700417 frames of 641 channels, scaled by 4294967295, are 2^64 - 1 samples.
    let descriptor = StreamDescriptor {
        sample_rate: 33_502_085,
        channel_count: 641,
        sample_format: SampleFormat::Float32,
    };
    assert_eq!(descriptor.ring_capacity(u32::MAX).map(|c| c as u128), Some(u64::MAX as u128));
    assert_eq!(device(u32::MAX).ring_for(&descriptor), None);
    assert!(PlaybackSink::open(&descriptor, u64::MAX as usize).is_err());
    let mut session = PlaybackSession::new(device(u32::MAX));
    session.advance(&SessionEvent::Probed { track_count: 1 });
    let samples = vec![0u32; 641];
    assert_eq!(
        session.advance(&planar(33_502_085, 641, &samples)),
        SessionAction::Abort(SessionError::DeviceConfigError)
    );
    let below = device(u32::MAX - 1).ring_for(&descriptor).unwrap();
    assert_eq!(below as u128, u64::MAX as u128 - 4_294_967_297);
}

#[test]
fn every_sink_that_a_device_session_asks_for_opens() {
    for (rate, channels, scale) in [(8_000u32, 1u16, 1u32), (48_000, 2, 1), (44_100, 6, 3)] {
        let mut session = PlaybackSession::new(device(scale));
        session.advance(&SessionEvent::Probed { track_count: 1 });
        let samples = vec![0u32; channels as usize];
        match session.advance(&planar(rate, channels, &samples)) {
            SessionAction::OpenSink { descriptor, capacity, .. } => {
                let sink = PlaybackSink::open(&descriptor, capacity).unwrap();
                assert_eq!(sink.free(), capacity);
            }
            other => panic!("{:?}", other),
        }
    }
}

#[test]
fn ring_scale_reaches_the_sink() {
    let mut session = PlaybackSession::new(device(1_000));
    session.advance(&SessionEvent::Probed { track_count: 1 });
    match session.advance(&planar(44_100, 1, &[1])) {
        SessionAction::OpenSink { capacity, .. } => assert_eq!(capacity, 8_820_000),
        other => panic!("{:?}", other),
    }
}

#[test]
fn end_of_input_is_the_normal_end() {
    assert!(is_normal_eof(&PacketError::Io(IoErrorKind::UnexpectedEof)));
    let session = draining();
    assert_eq!(session.state(), SessionState::Draining);
    assert_eq!(session.result(), None);
}

#[test]
fn other_packet_errors_are_decode_errors() {
    let errors = [
        PacketError::Io(IoErrorKind::Other),
        PacketError::Decode,
        PacketError::Seek,
        PacketError::Unsupported,
        PacketError::Limit,
        PacketError::ResetRequired,
    ];
    for error in errors {
        assert!(!is_normal_eof(&error));
        let mut session = decoding();
        assert_eq!(
            session.advance(&SessionEvent::PacketFailed(error)),
            SessionAction::Abort(SessionError::DecodeError)
        );
        assert_eq!(session.result(), Some(Err(SessionError::DecodeError)));
    }
}

#[test]
fn packet_that_cannot_be_decoded_is_a_decode_error() {
    let mut session = decoding();
    session.advance(&planar(48_000, 2, &[1, 2]));
    assert_eq!(
        session.advance(&SessionEvent::DecodeFailed),
        SessionAction::Abort(SessionError::DecodeError)
    );
    assert_eq!(session.advance(&planar(48_000, 2, &[3, 4])), SessionAction::Idle);
}

#[test]
fn missing_decoder_is_a_decode_error() {
    let mut session = decoding();
    assert_eq!(
        session.advance(&SessionEvent::DecoderFailed),
        SessionAction::Abort(SessionError::DecodeError)
    );
}

#[test]
fn device_errors_keep_their_kind() {
    let kinds = [
        (DeviceError::Open, SessionError::DeviceOpenError),
        (DeviceError::Config, SessionError::DeviceConfigError),
        (DeviceError::Play, SessionError::StreamPlayError),
    ];
    for (device, expected) in kinds {
        assert_eq!(device.as_session_error(), expected);
        let mut session = decoding();
        session.advance(&planar(48_000, 2, &[1, 2]));
        assert_eq!(
            session.advance(&SessionEvent::DeviceFailed(device)),
            SessionAction::Abort(expected)
        );
        assert_eq!(session.result(), Some(Err(expected)));
        let mut late = draining();
        assert_eq!(late.advance(&SessionEvent::DeviceFailed(device)), SessionAction::Abort(expected));
    }
}

#[test]
fn verified_stream_closes() {
    for verify_ok in [None, Some(true)] {
        let mut session = draining();
        assert_eq!(session.advance(&SessionEvent::Finalized { verify_ok }), SessionAction::Close);
        assert_eq!(session.state(), SessionState::Closed);
        assert_eq!(session.result(), Some(Ok(())));
    }
}

#[test]
fn failed_verification_fails_the_session_at_the_end() {
    let mut session = decoding();
    assert!(matches!(
        session.advance(&planar(48_000, 2, &[1, 2])),
        SessionAction::OpenSink { .. }
    ));
    assert_eq!(session.advance(&EOF), SessionAction::Finalize);
    assert_eq!(
        session.advance(&SessionEvent::Finalized { verify_ok: Some(false) }),
        SessionAction::Abort(SessionError::VerificationFailed)
    );
    assert_eq!(session.result(), Some(Err(SessionError::VerificationFailed)));
}

#[test]
fn verdict_is_not_taken_while_decoding() {
    let mut session = decoding();
    assert_eq!(
        session.advance(&SessionEvent::Finalized { verify_ok: Some(false) }),
        SessionAction::Idle
    );
    assert_eq!(session.state(), SessionState::Decoding);
}

#[test]
fn events_of_another_state_change_nothing() {
    let mut session = PlaybackSession::new(device(1));
    assert_eq!(session.advance(&planar(48_000, 2, &[1, 2])), SessionAction::Idle);
    assert_eq!(session.advance(&EOF), SessionAction::Idle);
    assert_eq!(session.advance(&SessionEvent::DecodeFailed), SessionAction::Idle);
    assert_eq!(session.state(), SessionState::Probing);
    let mut session = draining();
    assert_eq!(session.advance(&planar(48_000, 2, &[1, 2])), SessionAction::Idle);
    assert_eq!(session.advance(&SessionEvent::Probed { track_count: 2 }), SessionAction::Idle);
    assert_eq!(session.state(), SessionState::Draining);
}

#[test]
fn stop_closes_a_running_session() {
    for mut session in [PlaybackSession::new(device(1)), decoding(), draining()] {
        assert_eq!(session.advance(&SessionEvent::Stop), SessionAction::Close);
        assert_eq!(session.state(), SessionState::Closed);
        assert_eq!(session.advance(&planar(48_000, 2, &[1, 2])), SessionAction::Idle);
        assert_eq!(session.advance(&SessionEvent::Stop), SessionAction::Idle);
    }
}

#[test]
fn session_that_is_over_stays_over() {
    let mut failed = PlaybackSession::new(device(1));
    failed.advance(&SessionEvent::ProbeFailed);
    let mut closed = draining();
    closed.advance(&SessionEvent::Finalized { verify_ok: None });
    for (mut session, state) in [
        (failed, SessionState::Failed(SessionError::ProbeError)),
        (closed, SessionState::Closed),
    ] {
        let events = [
            SessionEvent::Probed { track_count: 1 },
            planar(48_000, 2, &[1, 2]),
            EOF,
            SessionEvent::Finalized { verify_ok: Some(false) },
            SessionEvent::DeviceFailed(DeviceError::Open),
            SessionEvent::Stop,
        ];
        for event in &events {
            assert_eq!(session.advance(event), SessionAction::Idle);
            assert_eq!(session.state(), state);
        }
    }
}

#[test]
fn clean_stream_is_played_whole() {
    let events = [
        SessionEvent::Probed { track_count: 1 },
        planar(8_000, 2, &[]),
        planar(8_000, 2, &[1, 2, 3, 4]),
        planar(8_000, 2, &[5, 6]),
        planar(8_000, 2, &[]),
        planar(8_000, 2, &[7, 8, 9, 10, 11, 12]),
        EOF,
        SessionEvent::Finalized { verify_ok: Some(true) },
    ];
    let mut session = PlaybackSession::new(device(1));
    let samples = session.replay(&events);
    assert_eq!(samples, vec![1, 3, 2, 4, 5, 6, 7, 10, 8, 11, 9, 12]);
    assert_eq!(samples.len(), 4 + 2 + 6);
    assert_eq!(session.state(), SessionState::Closed);
    assert_eq!(
        session.descriptor(),
        Some(StreamDescriptor {
            sample_rate: 8_000,
            channel_count: 2,
            sample_format: SampleFormat::Float32,
        })
    );
}

#[test]
fn replay_stops_delivering_at_a_failure() {
    let events = [
        SessionEvent::Probed { track_count: 1 },
        planar(8_000, 1, &[1, 2]),
        SessionEvent::DecodeFailed,
        planar(8_000, 1, &[3, 4]),
        EOF,
    ];
    let mut session = PlaybackSession::new(device(1));
    assert_eq!(session.replay(&events), vec![1, 2]);
    assert_eq!(session.state(), SessionState::Failed(SessionError::DecodeError));
}

#[test]
fn replay_of_nothing_changes_nothing() {
    let mut session = PlaybackSession::new(device(1));
    assert_eq!(session.replay(&[]), Vec::<u32>::new());
    assert_eq!(session.state(), SessionState::Probing);
}

#[test]
fn replay_of_two_tracks_delivers_nothing() {
    let events = [SessionEvent::Probed { track_count: 2 }, planar(8_000, 1, &[1, 2]), EOF];
    let mut session = PlaybackSession::new(device(1));
    assert_eq!(session.replay(&events), Vec::<u32>::new());
    assert_eq!(session.result(), Some(Err(SessionError::UnsupportedTrackCount)));
}

#[test]
fn container_session_asks_for_no_ring() {
    let mut session = PlaybackSession::new(Output::Container);
    session.advance(&SessionEvent::Probed { track_count: 1 });
    assert_eq!(
        session.advance(&planar(48_000, 2, &[1, 2, 3, 4])),
        SessionAction::OpenSink { descriptor: stereo(), capacity: 0, samples: vec![1, 3, 2, 4] }
    );
    assert_eq!(
        session.advance(&planar(48_000, 2, &[5, 6])),
        SessionAction::Push { samples: vec![5, 6] }
    );
}

#[test]
fn container_session_takes_every_valid_stream() {
    let channels = 16_384u16;
    let samples = vec![0u32; channels as usize];
    let mut session = PlaybackSession::new(Output::Container);
    session.advance(&SessionEvent::Probed { track_count: 1 });
    assert!(matches!(
        session.advance(&planar(48_000, channels, &samples)),
        SessionAction::OpenSink { capacity: 0, .. }
    ));
    let mut fast = PlaybackSession::new(Output::Container);
    fast.advance(&SessionEvent::Probed { track_count: 1 });
    assert_eq!(
        fast.advance(&planar(u32::MAX, 2, &[1, 2])),
        SessionAction::OpenSink {
            descriptor: StreamDescriptor {
                sample_rate: u32::MAX,
                channel_count: 2,
                sample_format: SampleFormat::Float32,
            },
            capacity: 0,
            samples: vec![1, 2],
        }
    );
}

#[test]
fn outputs_know_their_format_and_ring() {
    assert_eq!(Output::Container.sample_format(), SampleFormat::Float32);
    assert_eq!(
        Output::Device { format: SampleFormat::Unsigned16, scale: 1 }.sample_format(),
        SampleFormat::Unsigned16
    );
    assert_eq!(device(1).ring_for(&stereo()), Some(19_200));
    assert_eq!(device(2).ring_for(&stereo()), Some(38_400));
    assert_eq!(device(0).ring_for(&stereo()), None);
    assert_eq!(Output::Container.ring_for(&stereo()), Some(0));
    let integer = Output::Device { format: SampleFormat::Signed16, scale: 1 };
    assert_eq!(integer.ring_for(&stereo()), None);
    let wide = StreamDescriptor {
        sample_rate: 48_000,
        channel_count: 16_384,
        sample_format: SampleFormat::Float32,
    };
    assert_eq!(Output::Container.ring_for(&wide), Some(0));
    assert_eq!(device(1).ring_for(&wide), Some(9_600 * 16_384));
    let no_rate = StreamDescriptor {
        sample_rate: 0,
        channel_count: 2,
        sample_format: SampleFormat::Float32,
    };
    assert_eq!(Output::Container.ring_for(&no_rate), None);
    assert_eq!(device(1).ring_for(&no_rate), None);
}

use audio_ingest::error::{DecodeError, PacketFault};
use audio_ingest::resample_plan::{expected_output_len, needs_resampling, FlushStep, ResamplePlan, CHUNK_SIZE};
use audio_ingest::session::{BlockAction, DecodeEvent, DecodeSession, MonoLayout, PacketAction, PacketEvent};
use audio_ingest::track::{select_track, TrackInfo, TrackSelection};
use audio_ingest::TARGET_SAMPLE_RATE;

fn track(id: u32, has_codec: bool, sample_rate: Option<u32>, channels: Option<usize>) -> TrackInfo {
    TrackInfo { id, has_codec, sample_rate, channels }
}

fn stereo_session() -> DecodeSession {
    DecodeSession::new(TrackSelection { index: 0, track_id: 1, sample_rate: 44_100, channels: 2 })
}

#[test]
fn selects_first_audio_track() {
    let tracks = vec![
        track(0, false, None, None),
        track(3, true, Some(48_000), Some(2)),
        track(4, true, Some(44_100), Some(1)),
    ];
    assert_eq!(
        select_track(&tracks),
        Ok(TrackSelection { index: 1, track_id: 3, sample_rate: 48_000, channels: 2 })
    );
}

#[test]
fn missing_channel_count_means_mono() {
    let tracks = vec![track(7, true, Some(22_050), None)];
    assert_eq!(
        select_track(&tracks),
        Ok(TrackSelection { index: 0, track_id: 7, sample_rate: 22_050, channels: 1 })
    );
}

#[test]
fn no_audio_track_is_an_error() {
    assert_eq!(select_track(&vec![]), Err(DecodeError::NoAudioTrack));
    let tracks = vec![track(0, false, Some(44_100), Some(2))];
    assert_eq!(select_track(&tracks), Err(DecodeError::NoAudioTrack));
}

#[test]
fn missing_sample_rate_is_an_error() {
    let tracks = vec![track(0, true, None, Some(2)), track(1, true, Some(8_000), None)];
    assert_eq!(select_track(&tracks), Err(DecodeError::MissingSampleRate));
}

#[test]
fn packet_routing() {
    let s = stereo_session();
    assert_eq!(s.on_packet(PacketEvent::Packet { track_id: 1 }), PacketAction::Decode);
    assert_eq!(s.on_packet(PacketEvent::Packet { track_id: 2 }), PacketAction::Skip);
    assert_eq!(s.on_packet(PacketEvent::EndOfStream), PacketAction::Finish);
    assert_eq!(
        s.on_packet(PacketEvent::ReadFailed),
        PacketAction::Abort(DecodeError::PacketRead)
    );
}

#[test]
fn empty_track_fails_with_empty_result() {
    let mut s = stereo_session();
    assert_eq!(s.on_decoded(DecodeEvent::Decoded { frames: 0, samples: 0 }), BlockAction::Skip);
    assert_eq!(
        s.on_decoded(DecodeEvent::Failed(PacketFault::Recoverable)),
        BlockAction::Skip
    );
    assert_eq!(s.finish(), Err(DecodeError::EmptyDecodeResult));
}

#[test]
fn corrupt_packet_is_skipped() {
    let mut s = stereo_session();
    for i in 0..10 {
        if i == 4 {
            assert_eq!(
                s.on_decoded(DecodeEvent::Failed(PacketFault::Recoverable)),
                BlockAction::Skip
            );
        } else {
            assert_eq!(
                s.on_decoded(DecodeEvent::Decoded { frames: 1152, samples: 2304 }),
                BlockAction::Append
            );
        }
    }
    assert_eq!(s.sample_count, 9 * 2304);
    assert_eq!(s.finish(), Ok(MonoLayout { channels: 2, frames: 9 * 1152, mix: true }));
}

#[test]
fn fatal_decode_error_aborts() {
    let mut s = stereo_session();
    assert_eq!(
        s.on_decoded(DecodeEvent::Failed(PacketFault::Fatal)),
        BlockAction::Abort(DecodeError::FatalDecode)
    );
}

#[test]
fn mono_passes_through() {
    let mut s = DecodeSession::new(TrackSelection { index: 0, track_id: 0, sample_rate: 16_000, channels: 1 });
    s.on_decoded(DecodeEvent::Decoded { frames: 100, samples: 100 });
    assert_eq!(s.finish(), Ok(MonoLayout { channels: 1, frames: 100, mix: false }));
}

#[test]
fn same_rate_is_identity() {
    assert!(!needs_resampling(16_000, 16_000));
    assert!(needs_resampling(44_100, 16_000));
    assert_eq!(expected_output_len(12_345, 16_000, 16_000), 12_345);
}

#[test]
fn output_length_is_exact_ceiling() {
    assert_eq!(expected_output_len(1, 44_100, 16_000), 1);
    assert_eq!(expected_output_len(0, 44_100, 16_000), 0);
    assert_eq!(expected_output_len(441, 44_100, 16_000), 160);
    assert_eq!(expected_output_len(442, 44_100, 16_000), 161);
    assert_eq!(expected_output_len(1000, 8_000, 16_000), 2000);
    assert_eq!(expected_output_len(usize::MAX, 1, u32::MAX), usize::MAX as u128 * u32::MAX as u128);
}

#[test]
fn round_trip_length_within_rounding() {
    for len in [0usize, 1, 7, 1023, 1024, 88_200] {
        let there = expected_output_len(len, 44_100, 16_000) as usize;
        let back = expected_output_len(there, 16_000, 44_100);
        assert!(back >= len as u128);
        assert!(back <= len as u128 + 3);
    }
}

#[test]
fn stereo_sine_scenario() {
    let mut s = stereo_session();
    for _ in 0..(88_200 / 1_050) {
        s.on_decoded(DecodeEvent::Decoded { frames: 1_050, samples: 2_100 });
    }
    let layout = s.finish().unwrap();
    assert_eq!(layout.frames, 88_200);
    let plan = ResamplePlan::new(layout.frames, 44_100, TARGET_SAMPLE_RATE);
    assert_eq!(plan.output_len, 32_000);
    assert_eq!(plan.block_count(), 87);
    assert_eq!(plan.block_bounds(86), (86 * CHUNK_SIZE, 88_200));
    assert_eq!(plan.kept_len(87 * 372), 32_000);
    assert_eq!(plan.flush_step(100, 0), FlushStep::Feed);
    assert_eq!(plan.flush_step(32_000, 0), FlushStep::Done);
    assert_eq!(plan.flush_step(32_000, 1_000), FlushStep::Done);
    // Limit: 2 * (ceil(44100 / 1024) + ceil(44100 / 16000)) + 2 = 2 * (44 + 3) + 2.
    assert_eq!(plan.flush_step(31_999, 95), FlushStep::Feed);
    assert_eq!(plan.flush_step(31_999, 96), FlushStep::Fail(DecodeError::Resample));
}

#[test]
fn blocks_cover_the_input() {
    let plan = ResamplePlan::new(2048, 48_000, 16_000);
    assert_eq!(plan.block_count(), 2);
    assert_eq!(plan.block_bounds(0), (0, 1024));
    assert_eq!(plan.block_bounds(1), (1024, 2048));
    let plan = ResamplePlan::new(0, 48_000, 16_000);
    assert_eq!(plan.block_count(), 0);
    let plan = ResamplePlan::new(1, 48_000, 16_000);
    assert_eq!(plan.block_count(), 1);
    assert_eq!(plan.block_bounds(0), (0, 1));
}

#[test]
fn error_messages() {
    assert_eq!(DecodeError::EmptyDecodeResult.message(), "No audio samples decoded from file");
    assert_eq!(DecodeError::Probe.message(), "Failed to probe audio format");
}

#[test]
fn mixdown_of_constant_channels() {
    let mut s = DecodeSession::new(TrackSelection { index: 0, track_id: 0, sample_rate: 48_000, channels: 3 });
    assert_eq!(s.on_decoded(DecodeEvent::Decoded { frames: 4, samples: 12 }), BlockAction::Append);
    assert_eq!(s.on_decoded(DecodeEvent::Decoded { frames: 1, samples: 2 }), BlockAction::Skip);
    assert_eq!(s.sample_count, 12);
    let layout = s.finish().unwrap();
    assert_eq!(layout, MonoLayout { channels: 3, frames: 4, mix: true });
    let interleaved: Vec<f32> = (0..12).map(|k| [0.5f32, -0.25, 0.5][k % 3]).collect();
    for i in 0..layout.frames {
        let (start, end) = layout.frame_bounds(i);
        assert_eq!((start, end), (3 * i, 3 * i + 3));
        let mean = interleaved[start..end].iter().sum::<f32>() / layout.channels as f32;
        assert!((mean - 0.25).abs() < 1e-6);
    }
}

#[test]
fn zero_rate_is_a_resample_error() {
    assert_eq!(ResamplePlan::try_new(10, 0, 16_000), Err(DecodeError::Resample));
    assert_eq!(ResamplePlan::try_new(10, 44_100, 0), Err(DecodeError::Resample));
    let plan = ResamplePlan::try_new(10, 44_100, 16_000).unwrap();
    assert_eq!(plan.output_len, 4);
}

use punks::pipeline::begin_prepare;
use punks::pipeline::finish_prepare;
use punks::resample::chunk_plan;
use punks::resample::merge_channels;
use punks::resample::resample_chunk_size;
use punks::resample::split_channels;
use punks::DecodedAudio;
use punks::PlaybackEngine;
use punks::PlaybackError;
use punks::PlaybackStatus;
use punks::PollEvent;
use punks::PreparedAudio;
use punks::PrepareStep;
use punks::SharedPlaybackState;

use rubato::FftFixedIn;
use rubato::Resampler;

fn engine() -> (PlaybackEngine, SharedPlaybackState) {
    (
        PlaybackEngine::new(48000, 2).unwrap(),
        SharedPlaybackState::new(),
    )
}

fn prepared(file: &str, samples: Vec<u32>, channels: usize) -> PreparedAudio {
    finish_prepare(samples, file.to_string(), channels)
}

#[test]
fn engine_new_rejects_unusable_device_format() {
    assert!(matches!(
        PlaybackEngine::new(0, 2),
        Err(PlaybackError::DeviceFailure(_))
    ));
    assert!(matches!(
        PlaybackEngine::new(48000, 0),
        Err(PlaybackError::DeviceFailure(_))
    ));
    assert!(PlaybackEngine::new(48000, 2).is_ok());
}

#[test]
fn poll_without_pending_is_a_no_op() {
    let (mut e, mut s) = engine();
    assert!(e.poll(&mut s, PollEvent::Empty).is_none());
    assert!(e
        .poll(
            &mut s,
            PollEvent::Finished {
                token: 0,
                outcome: Ok(prepared("x.wav", vec![1, 2], 2)),
            },
        )
        .is_none());
    assert!(e.poll(&mut s, PollEvent::Disconnected { token: 0 }).is_none());
    assert_eq!(e.status(&s), PlaybackStatus::Idle);
    assert!(!s.playing);
    assert!(s.samples.is_empty());
}

#[test]
fn second_play_supersedes_first() {
    let (mut e, mut s) = engine();
    let t1 = e.play(&mut s, "first.wav".to_string());
    let t2 = e.play(&mut s, "second.wav".to_string());
    assert_ne!(t1, t2);

    // the first worker's result arrives late: it is dropped without an error
    let stale = e.poll(
        &mut s,
        PollEvent::Finished {
            token: t1,
            outcome: Ok(prepared("first.wav", vec![1, 2, 3, 4], 2)),
        },
    );
    assert!(stale.is_none());
    assert!(e.is_loading());
    assert!(!s.playing);
    assert!(matches!(e.status(&s), PlaybackStatus::Loading { .. }));

    // only the second file's audio is ever committed
    let fresh = e.poll(
        &mut s,
        PollEvent::Finished {
            token: t2,
            outcome: Ok(prepared("second.wav", vec![5, 6, 7, 8], 2)),
        },
    );
    assert!(fresh.is_none());
    assert!(s.playing);
    assert_eq!(s.samples, vec![5, 6, 7, 8]);
    match e.status(&s) {
        PlaybackStatus::Playing { file, .. } => assert_eq!(file, "second.wav"),
        other => panic!("expected Playing, got {other:?}"),
    }
}

#[test]
fn play_silences_current_audio_immediately() {
    let (mut e, mut s) = engine();
    let t = e.play(&mut s, "a.wav".to_string());
    e.poll(
        &mut s,
        PollEvent::Finished {
            token: t,
            outcome: Ok(prepared("a.wav", vec![1, 2, 3, 4], 2)),
        },
    );
    assert!(s.playing);
    e.play(&mut s, "b.wav".to_string());
    assert!(!s.playing);
    // the old buffer is still in place, but the callback now renders silence
    let out = s.render(4);
    assert_eq!(out, vec![0, 0, 0, 0]);
}

#[test]
fn poll_error_payload_surfaces_and_clears_pending() {
    let (mut e, mut s) = engine();
    let t = e.play(&mut s, "bad.wav".to_string());
    let err = e.poll(
        &mut s,
        PollEvent::Finished {
            token: t,
            outcome: Err(PlaybackError::DecodeFailure("probe failed".to_string())),
        },
    );
    assert!(matches!(err, Some(PlaybackError::DecodeFailure(_))));
    assert!(!e.is_loading());
    assert!(!s.playing);
    assert_eq!(e.status(&s), PlaybackStatus::Idle);
    // only one error per call: the next poll has nothing to report
    assert!(e.poll(&mut s, PollEvent::Empty).is_none());
}

#[test]
fn poll_disconnected_reports_worker_terminated() {
    let (mut e, mut s) = engine();
    let t = e.play(&mut s, "gone.wav".to_string());
    let err = e.poll(&mut s, PollEvent::Disconnected { token: t });
    assert_eq!(err, Some(PlaybackError::WorkerTerminated));
    assert!(!e.is_loading());
    assert_eq!(e.status(&s), PlaybackStatus::Idle);
}

#[test]
fn poll_empty_changes_nothing() {
    let (mut e, mut s) = engine();
    e.play(&mut s, "a.wav".to_string());
    assert!(e.poll(&mut s, PollEvent::Empty).is_none());
    assert!(e.is_loading());
    assert!(matches!(e.status(&s), PlaybackStatus::Loading { .. }));
}

#[test]
fn commit_resets_cursor_and_raises_flag() {
    let (mut e, mut s) = engine();
    s.cursor = 17;
    let t = e.play(&mut s, "a.wav".to_string());
    e.poll(
        &mut s,
        PollEvent::Finished {
            token: t,
            outcome: Ok(prepared("a.wav", vec![9, 8, 7, 6], 2)),
        },
    );
    assert_eq!(s.cursor, 0);
    assert!(s.playing);
    assert_eq!(s.total_frames, 2);
}

#[test]
fn render_copies_samples_and_pads_with_silence() {
    let (mut e, mut s) = engine();
    let t = e.play(&mut s, "a.wav".to_string());
    e.poll(
        &mut s,
        PollEvent::Finished {
            token: t,
            outcome: Ok(prepared("a.wav", vec![10, 20, 30], 1)),
        },
    );
    let out = s.render(2);
    assert_eq!(out, vec![10, 20]);
    assert_eq!(s.cursor, 2);
    assert!(s.playing);
    let out = s.render(2);
    assert_eq!(out, vec![30, 0]);
    assert_eq!(s.cursor, 3);
    assert!(!s.playing);
}

#[test]
fn render_is_silence_while_not_playing() {
    let (_, mut s) = engine();
    s.samples = vec![1, 2, 3];
    let out = s.render(3);
    assert_eq!(out, vec![0, 0, 0]);
    assert_eq!(s.cursor, 0);
}

#[test]
fn exhausted_buffer_reports_idle() {
    let (mut e, mut s) = engine();
    let t = e.play(&mut s, "a.wav".to_string());
    e.poll(
        &mut s,
        PollEvent::Finished {
            token: t,
            outcome: Ok(prepared("a.wav", vec![1, 2, 3, 4], 2)),
        },
    );
    // the whole buffer fits one request: the cursor reaches the end
    let out = s.render(4);
    assert_eq!(out, vec![1, 2, 3, 4]);
    assert_eq!(s.cursor, 4);
    // the next callback finds nothing left, pads silence and drops the flag
    let out = s.render(4);
    assert_eq!(out, vec![0, 0, 0, 0]);
    assert!(!s.playing);
    assert_eq!(e.status(&s), PlaybackStatus::Idle);
}

#[test]
fn stop_is_idempotent() {
    let (mut e, mut s) = engine();
    let t = e.play(&mut s, "a.wav".to_string());
    e.poll(
        &mut s,
        PollEvent::Finished {
            token: t,
            outcome: Ok(prepared("a.wav", vec![1, 2], 2)),
        },
    );
    e.stop(&mut s);
    assert_eq!(e.status(&s), PlaybackStatus::Idle);
    assert!(!s.playing);
    assert!(!e.is_loading());
    e.stop(&mut s);
    assert_eq!(e.status(&s), PlaybackStatus::Idle);
}

#[test]
fn status_reports_position_and_duration_in_ms() {
    let (mut e, mut s) = engine();
    let t = e.play(&mut s, "a.wav".to_string());
    // 48000 frames of stereo at 48 kHz: exactly one second
    let samples = vec![0u32; 96000];
    e.poll(
        &mut s,
        PollEvent::Finished {
            token: t,
            outcome: Ok(prepared("a.wav", samples, 2)),
        },
    );
    match e.status(&s) {
        PlaybackStatus::Playing {
            file,
            position_ms,
            duration_ms,
        } => {
            assert_eq!(file, "a.wav");
            assert_eq!(position_ms, 0);
            assert_eq!(duration_ms, 1000);
        }
        other => panic!("expected Playing, got {other:?}"),
    }
    // half the buffer consumed: position is half a second
    s.render(48000);
    match e.status(&s) {
        PlaybackStatus::Playing { position_ms, .. } => assert_eq!(position_ms, 500),
        other => panic!("expected Playing, got {other:?}"),
    }
}

fn run_resample(
    samples: &Vec<u32>,
    channels: usize,
    source_rate: u32,
    target_rate: u32,
) -> Vec<u32> {
    let per_channel = split_channels(samples, channels);
    let num_frames = per_channel[0].len();
    let chunk = resample_chunk_size(num_frames);
    let plan = chunk_plan(num_frames, chunk);
    let mut resampler = FftFixedIn::<f32>::new(
        source_rate as usize,
        target_rate as usize,
        chunk,
        2,
        channels,
    )
    .unwrap();
    let channel_data: Vec<Vec<f32>> = per_channel
        .iter()
        .map(|ch| ch.iter().map(|s| f32::from_bits(*s)).collect())
        .collect();
    let mut output_channels: Vec<Vec<f32>> = vec![Vec::new(); channels];
    for (start, len) in plan.iter().copied() {
        let input: Vec<&[f32]> = channel_data
            .iter()
            .map(|ch| &ch[start..start + len])
            .collect();
        let out = if len == chunk {
            resampler.process(&input, None).unwrap()
        } else {
            resampler.process_partial(Some(&input), None).unwrap()
        };
        for (ch, data) in out.iter().enumerate() {
            output_channels[ch].extend_from_slice(data);
        }
    }
    let out_bits: Vec<Vec<u32>> = output_channels
        .iter()
        .map(|ch| ch.iter().map(|s| s.to_bits()).collect())
        .collect();
    merge_channels(&out_bits)
}

#[test]
fn play_poll_render_scenario_mono_44100_to_stereo_48000() {
    // construct the engine for a stereo 48 kHz device and play "kick.wav",
    // a mono 44.1 kHz source, as a worker would prepare it
    let (mut e, mut s) = engine();
    let token = e.play(&mut s, "kick.wav".to_string());
    assert!(e.is_loading());

    // the worker decodes, adapts and resamples
    let mono: Vec<f32> = (0..4410).map(|i| ((i % 100) as f32) / 100.0 - 0.5).collect();
    let decoded = DecodedAudio {
        interleaved: mono.iter().map(|x| x.to_bits()).collect(),
        channels: 1,
        sample_rate: 44100,
    };
    let outcome = match begin_prepare(&decoded, "kick.wav".to_string(), 2, 48000).unwrap() {
        PrepareStep::NeedsResample(job) => {
            let converted = run_resample(&job.samples, job.channels, job.source_rate, job.target_rate);
            Ok(finish_prepare(converted, job.file, job.channels))
        }
        PrepareStep::Ready(p) => Ok(p),
    };

    // poll returns success and commits the buffer
    let err = e.poll(&mut s, PollEvent::Finished { token, outcome });
    assert!(err.is_none());
    assert!(!e.is_loading());

    // status reports Playing with duration > 0 and position near 0
    let duration = match e.status(&s) {
        PlaybackStatus::Playing {
            file,
            position_ms,
            duration_ms,
        } => {
            assert_eq!(file, "kick.wav");
            assert_eq!(position_ms, 0);
            assert!(duration_ms > 0);
            duration_ms
        }
        other => panic!("expected Playing, got {other:?}"),
    };

    // repeated callback invocations monotonically increase the position
    // until it reaches the duration, then the engine reports Idle
    let mut last_position = 0u64;
    let mut reached_idle = false;
    for _ in 0..10000 {
        s.render(256);
        match e.status(&s) {
            PlaybackStatus::Playing { position_ms, .. } => {
                assert!(position_ms >= last_position);
                assert!(position_ms <= duration);
                last_position = position_ms;
            }
            PlaybackStatus::Idle => {
                reached_idle = true;
                break;
            }
            other => panic!("unexpected status {other:?}"),
        }
    }
    assert!(reached_idle);
    assert!(last_position <= duration);
    assert!(last_position >= duration.saturating_sub(20));
}

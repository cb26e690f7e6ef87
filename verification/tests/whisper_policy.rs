use hush::whisper_policy::{
    after_inference, check_capture_format, chunks_duration_ms, clamp_inference_threads,
    segment_time_ms, AudioFormatError, VadGate, DEFAULT_STATE_RECREATE_INTERVAL,
    DEFAULT_VAD_HANGOVER_MS, VAD_FRAME_LEN_SAMPLES,
};

#[test]
fn thread_count_is_clamped_to_band() {
    assert_eq!(clamp_inference_threads(0), 1);
    assert_eq!(clamp_inference_threads(-3), 1);
    assert_eq!(clamp_inference_threads(8), 8);
    assert_eq!(clamp_inference_threads(64), 16);
}

#[test]
fn segment_times_convert_centiseconds() {
    assert_eq!(segment_time_ms(150), 1_500);
    assert_eq!(segment_time_ms(-7), 0);
    assert_eq!(segment_time_ms(i64::MAX), u64::MAX);
    assert_eq!(segment_time_ms(1_844_674_407_370_955_161), 18_446_744_073_709_551_610);
    assert_eq!(segment_time_ms(1_844_674_407_370_955_162), u64::MAX);
}

#[test]
fn state_is_recreated_every_interval() {
    let mut count = 0;
    let mut recreations = 0;
    for _ in 0..(DEFAULT_STATE_RECREATE_INTERVAL * 3) {
        let (next, recreate) = after_inference(count, DEFAULT_STATE_RECREATE_INTERVAL);
        count = next;
        if recreate {
            recreations += 1;
        }
    }
    assert_eq!(recreations, 3);
    assert_eq!(count, 0);
    assert_eq!(after_inference(1_000, 0), (1_001, false), "interval 0 never recreates");
}

#[test]
fn prepare_audio_rejects_zero_sample_rate() {
    let e = check_capture_format(0, 2).unwrap_err();
    assert_eq!(e, AudioFormatError::ZeroSampleRate);
    assert!(e.message().contains("sample rate"));
}

#[test]
fn prepare_audio_rejects_zero_channels() {
    let e = check_capture_format(48_000, 0).unwrap_err();
    assert_eq!(e, AudioFormatError::ZeroChannels);
    assert!(e.message().contains("channels"));
    assert_eq!(check_capture_format(48_000, 2), Ok(()));
}

#[test]
fn vad_all_speech_does_not_gate_inference() {
    let mut g = VadGate::new(false, DEFAULT_VAD_HANGOVER_MS);
    for t in 0..5u64 {
        g.on_feed(16_000, true, t * 1_000);
        assert!(!g.should_gate(t * 1_000));
    }
}

#[test]
fn vad_all_silence_after_hangover_skips_inference() {
    let mut g = VadGate::new(false, DEFAULT_VAD_HANGOVER_MS);
    assert!(g.should_gate(0), "nothing heard yet");
    g.on_feed(16_000, false, 1_000);
    assert!(g.should_gate(1_000));
}

#[test]
fn vad_speech_then_silence_inside_hangover_still_infers() {
    let mut g = VadGate::new(false, 1_500);
    g.on_feed(16_000, true, 10_000);
    g.on_feed(16_000, false, 11_000);
    assert!(!g.should_gate(11_500));
    assert!(!g.should_gate(11_500));
    assert!(g.should_gate(11_501));
}

#[test]
fn vad_feed_chunks_in_frame_len_groups_and_handles_residual() {
    let mut g = VadGate::new(false, 1_500);
    assert_eq!(g.frames_ready(1_000), 1);
    g.on_feed(1_000, false, 0);
    assert_eq!(g.residual, 1_000 - VAD_FRAME_LEN_SAMPLES);
    assert_eq!(g.frames_ready(100), (1_000 - 512 + 100) / 512);
    g.on_feed(100, false, 0);
    assert_eq!(g.residual, 76);
}

#[test]
fn disabled_vad_never_gates() {
    let mut g = VadGate::new(true, 1_500);
    assert!(!g.should_gate(0));
    assert_eq!(g.frames_ready(10_000), 0);
    g.on_feed(10_000, false, 5);
    assert_eq!(g.last_speech_ms, Some(5));
    assert!(!g.should_gate(1_000_000));
}

#[test]
fn transcribe_chunks_duration_mono_and_stereo() {
    assert_eq!(chunks_duration_ms(&vec![6_400, 9_600], 1, 16_000), 1_000);
    assert_eq!(chunks_duration_ms(&vec![96_000], 2, 48_000), 1_000);
    assert_eq!(chunks_duration_ms(&vec![], 1, 16_000), 0);
    assert_eq!(chunks_duration_ms(&vec![16_000], 1, 0), 0);
}

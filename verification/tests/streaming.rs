use hush::streaming::{
    ms_to_samples, samples_to_ms, SlidingWindowConfig, SlidingWindowState, StreamSegment, Utterance,
};

/// Scripted inference results, consumed one per inference the policy asks for.
struct Script {
    responses: Vec<Vec<StreamSegment>>,
    calls: usize,
}

impl Script {
    fn new(responses: Vec<Vec<StreamSegment>>) -> Self {
        Self { responses, calls: 0 }
    }
    fn next(&mut self) -> Vec<StreamSegment> {
        self.calls += 1;
        if self.responses.is_empty() {
            Vec::new()
        } else {
            self.responses.remove(0)
        }
    }
}

fn seg(start_ms: u64, end_ms: u64, text: &str) -> StreamSegment {
    StreamSegment { start_ms, end_ms, text: text.into() }
}

fn config_for_test() -> SlidingWindowConfig {
    SlidingWindowConfig {
        window_max_ms: 6_000,
        infer_interval_ms: 1_000,
        commit_tail_ms: 2_000,
        min_first_inference_ms: 500,
    }
}

fn feed_one_second(state: &mut SlidingWindowState) {
    state.feed_mono(16_000);
}

/// One policy tick: run the scripted inference only when the policy says
/// one is due, then hand its segments to the policy.
fn tick(state: &mut SlidingWindowState, script: &mut Script) -> Vec<Utterance> {
    let segs = if state.inference_due() { script.next() } else { Vec::new() };
    state.tick(&segs).0
}

fn finish(state: &mut SlidingWindowState, script: &mut Script) -> Vec<Utterance> {
    let segs = if state.window_len() > 0 { script.next() } else { Vec::new() };
    state.finish(&segs)
}

#[test]
fn samples_to_ms_and_back_round_trip_at_common_rates() {
    assert_eq!(samples_to_ms(16_000, 16_000), 1_000);
    assert_eq!(ms_to_samples(1_000, 16_000), 16_000);
    assert_eq!(samples_to_ms(48_000, 48_000), 1_000);
    assert_eq!(ms_to_samples(1_000, 48_000), 48_000);
    assert_eq!(samples_to_ms(44_100, 44_100), 1_000);
}

#[test]
fn samples_to_ms_at_zero_rate_is_zero() {
    assert_eq!(samples_to_ms(12_345, 0), 0);
}

#[test]
fn meeting_defaults_values() {
    let c = SlidingWindowConfig::meeting_defaults();
    assert_eq!(c.window_max_ms, 30_000);
    assert_eq!(c.infer_interval_ms, 3_000);
    assert_eq!(c.commit_tail_ms, 8_000);
    assert_eq!(c.min_first_inference_ms, 1_500);
}

#[test]
fn tick_does_nothing_before_min_first_inference() {
    let mut state = SlidingWindowState::new(16_000, config_for_test());
    state.feed_mono(1_600);
    let mut script = Script::new(vec![vec![seg(0, 100, "should not appear")]]);
    let out = tick(&mut state, &mut script);
    assert!(out.is_empty(), "tick must not infer below min threshold");
    assert_eq!(script.calls, 0, "inference must not run below min threshold");
}

#[test]
fn tick_emits_partial_when_window_is_short() {
    let mut state = SlidingWindowState::new(16_000, config_for_test());
    feed_one_second(&mut state);
    let mut script = Script::new(vec![vec![seg(0, 1_000, "hello")]]);
    let out = tick(&mut state, &mut script);
    assert_eq!(out.len(), 1, "exactly one partial");
    assert!(!out[0].is_final, "must be a partial");
    assert_eq!(out[0].text, "hello");
    assert_eq!(out[0].started_at_ms, 0);
    assert_eq!(out[0].ended_at_ms, 1_000);
}

#[test]
fn tick_does_not_re_emit_identical_partial() {
    let mut state = SlidingWindowState::new(16_000, config_for_test());
    feed_one_second(&mut state);
    let mut script =
        Script::new(vec![vec![seg(0, 1_000, "hello")], vec![seg(0, 1_000, "hello")]]);
    let first = tick(&mut state, &mut script);
    assert_eq!(first.len(), 1);
    feed_one_second(&mut state);
    let second = tick(&mut state, &mut script);
    assert!(second.is_empty(), "identical partial must not be re-emitted; got: {second:?}");
}

#[test]
fn tick_emits_revised_partial_when_text_changes() {
    let mut state = SlidingWindowState::new(16_000, config_for_test());
    feed_one_second(&mut state);
    let mut script =
        Script::new(vec![vec![seg(0, 1_000, "hello")], vec![seg(0, 2_000, "hello world")]]);
    let _first = tick(&mut state, &mut script);
    feed_one_second(&mut state);
    let revised = tick(&mut state, &mut script);
    assert_eq!(revised.len(), 1);
    assert!(!revised[0].is_final);
    assert_eq!(revised[0].text, "hello world");
}

#[test]
fn tick_commits_old_segments_as_finals_and_slides_window() {
    let mut state = SlidingWindowState::new(16_000, config_for_test());
    for _ in 0..4 {
        feed_one_second(&mut state);
    }
    let mut script = Script::new(vec![vec![
        seg(0, 1_000, "first"),
        seg(1_000, 2_000, "second"),
        seg(2_500, 3_500, "third"),
    ]]);
    let out = tick(&mut state, &mut script);
    let finals: Vec<_> = out.iter().filter(|u| u.is_final).collect();
    let partials: Vec<_> = out.iter().filter(|u| !u.is_final).collect();
    assert_eq!(finals.len(), 2, "two segments aged past the cutoff");
    assert_eq!(finals[0].text, "first");
    assert_eq!(finals[0].started_at_ms, 0);
    assert_eq!(finals[0].ended_at_ms, 1_000);
    assert_eq!(finals[1].text, "second");
    assert_eq!(finals[1].started_at_ms, 1_000);
    assert_eq!(finals[1].ended_at_ms, 2_000);
    assert_eq!(partials.len(), 1, "third segment is the tail partial");
    assert_eq!(partials[0].text, "third");
    assert_eq!(state.window_start_offset_ms(), 2_000);
    assert_eq!(state.committed_until_ms(), 2_000);
}

#[test]
fn partial_firms_up_into_final_on_next_tick() {
    let mut state = SlidingWindowState::new(16_000, config_for_test());
    for _ in 0..4 {
        feed_one_second(&mut state);
    }
    let mut script = Script::new(vec![
        vec![seg(0, 1_000, "first"), seg(1_000, 2_000, "second"), seg(2_500, 3_500, "third")],
        vec![seg(500, 1_500, "third revised"), seg(2_000, 2_500, "fourth")],
    ]);
    let _first = tick(&mut state, &mut script);
    feed_one_second(&mut state);
    feed_one_second(&mut state);
    let second = tick(&mut state, &mut script);
    let finals: Vec<_> = second.iter().filter(|u| u.is_final).collect();
    let partials: Vec<_> = second.iter().filter(|u| !u.is_final).collect();
    assert_eq!(finals.len(), 1, "the 'third' tail firms up into a final; got: {second:?}");
    assert_eq!(finals[0].text, "third revised");
    assert_eq!(finals[0].started_at_ms, 2_500);
    assert_eq!(finals[0].ended_at_ms, 3_500);
    assert_eq!(partials.len(), 1, "fresh tail becomes the new partial");
    assert_eq!(partials[0].text, "fourth");
    assert_eq!(state.committed_until_ms(), 3_500);
}

#[test]
fn committed_segment_with_overlapping_abs_end_is_skipped() {
    let mut state = SlidingWindowState::new(16_000, config_for_test());
    for _ in 0..4 {
        feed_one_second(&mut state);
    }
    let mut script =
        Script::new(vec![vec![seg(0, 1_000, "stable"), seg(3_000, 3_500, "tail")], vec![]]);
    let first = tick(&mut state, &mut script);
    let stable_finals: Vec<_> = first.iter().filter(|u| u.is_final).collect();
    assert_eq!(stable_finals.len(), 1);
    assert_eq!(stable_finals[0].ended_at_ms, 1_000);
    assert_eq!(state.committed_until_ms(), 1_000);
    feed_one_second(&mut state);
    feed_one_second(&mut state);
    let second = tick(&mut state, &mut script);
    assert!(second.is_empty(), "empty inference produces no output");
    assert_eq!(state.committed_until_ms(), 1_000);
}

#[test]
fn re_emitted_committed_range_is_not_finalised_twice() {
    let mut state = SlidingWindowState::new(16_000, config_for_test());
    for _ in 0..4 {
        feed_one_second(&mut state);
    }
    // Tick 1 commits [0, 2000) and slides to offset 2000. Tick 2 hands back a
    // segment whose absolute end (2000 + 0) does not pass the high-water mark.
    let mut script = Script::new(vec![
        vec![seg(0, 2_000, "said once")],
        vec![seg(0, 0, "said once"), seg(0, 500, "new words")],
    ]);
    let first = tick(&mut state, &mut script);
    assert_eq!(first.iter().filter(|u| u.is_final).count(), 1);
    for _ in 0..3 {
        feed_one_second(&mut state);
    }
    let second = tick(&mut state, &mut script);
    let finals: Vec<_> = second.iter().filter(|u| u.is_final).collect();
    assert_eq!(finals.len(), 1, "got: {second:?}");
    assert_eq!(finals[0].text, "new words");
    assert!(finals[0].started_at_ms >= 2_000);
}

#[test]
fn finish_emits_remaining_window_as_finals() {
    let mut state = SlidingWindowState::new(16_000, config_for_test());
    feed_one_second(&mut state);
    let mut script = Script::new(vec![vec![seg(0, 1_000, "tail of session")]]);
    let finals = finish(&mut state, &mut script);
    assert_eq!(finals.len(), 1);
    assert!(finals[0].is_final, "finish always emits as final");
    assert_eq!(finals[0].text, "tail of session");
    assert_eq!(state.window_len(), 0);
}

#[test]
fn finish_on_empty_window_emits_nothing() {
    let mut state = SlidingWindowState::new(16_000, config_for_test());
    let mut script = Script::new(vec![vec![seg(0, 1_000, "ghost")]]);
    assert!(finish(&mut state, &mut script).is_empty());
    assert_eq!(script.calls, 0);
}

#[test]
fn finish_emits_post_slide_window_as_finals_without_duplicating_committed() {
    let mut state = SlidingWindowState::new(16_000, config_for_test());
    for _ in 0..4 {
        feed_one_second(&mut state);
    }
    let mut script = Script::new(vec![
        vec![seg(0, 1_000, "committed"), seg(3_000, 3_500, "tail")],
        vec![seg(1_500, 2_000, "tail revised"), seg(2_000, 2_500, "trailing")],
    ]);
    let _first = tick(&mut state, &mut script);
    let finals = finish(&mut state, &mut script);
    assert_eq!(finals.len(), 2);
    assert!(finals.iter().all(|u| u.is_final));
    assert_eq!(finals[0].text, "tail revised");
    assert_eq!(finals[0].started_at_ms, 2_500);
    assert_eq!(finals[0].ended_at_ms, 3_000);
    assert_eq!(finals[1].text, "trailing");
    assert_eq!(finals[1].started_at_ms, 3_000);
    assert_eq!(finals[1].ended_at_ms, 3_500);
    assert!(!finals.iter().any(|u| u.text == "committed"));
}

#[test]
fn long_silence_drops_window_head_without_double_committing() {
    let mut state = SlidingWindowState::new(16_000, config_for_test());
    let mut script = Script::new((0..10).map(|_| Vec::new()).collect());
    for _ in 0..10 {
        feed_one_second(&mut state);
        let out = tick(&mut state, &mut script);
        assert!(out.is_empty(), "no text means no utterances; got: {out:?}");
    }
    let max_samples = ms_to_samples(6_000, 16_000);
    assert!(state.window_len() <= max_samples);
    assert!(state.window_start_offset_ms() >= 3_500);
    assert_eq!(state.committed_until_ms(), state.window_start_offset_ms());
}

#[test]
fn feed_reports_how_many_head_samples_to_drop() {
    let mut state = SlidingWindowState::new(16_000, config_for_test());
    for _ in 0..6 {
        assert_eq!(state.feed_mono(16_000), 0);
    }
    assert_eq!(state.feed_mono(16_000), 16_000);
    assert_eq!(state.window_len(), 96_000);
    assert_eq!(state.window_start_offset_ms(), 1_000);
}

#[test]
fn stable_cutoff_boundary_inclusive_segment_commits() {
    let mut state = SlidingWindowState::new(16_000, config_for_test());
    for _ in 0..4 {
        feed_one_second(&mut state);
    }
    let mut script =
        Script::new(vec![vec![seg(1_500, 2_000, "boundary segment"), seg(2_500, 3_500, "later tail")]]);
    let out = tick(&mut state, &mut script);
    let finals: Vec<_> = out.iter().filter(|u| u.is_final).collect();
    assert_eq!(finals.len(), 1, "boundary segment must commit; got: {out:?}");
    assert_eq!(finals[0].text, "boundary segment");
    assert_eq!(finals[0].ended_at_ms, 2_000);
    let partials: Vec<_> = out.iter().filter(|u| !u.is_final).collect();
    assert_eq!(partials.len(), 1);
    assert_eq!(partials[0].text, "later tail");
}

#[test]
fn empty_segment_text_is_filtered() {
    let mut state = SlidingWindowState::new(16_000, config_for_test());
    feed_one_second(&mut state);
    let mut script = Script::new(vec![vec![seg(0, 500, "  "), seg(500, 1_000, "real")]]);
    let out = tick(&mut state, &mut script);
    assert_eq!(out.len(), 1);
    assert_eq!(out[0].text, "real");
}

#[test]
fn default_config_is_the_meeting_defaults() {
    let d = SlidingWindowConfig::default();
    assert_eq!(d.window_max_ms, 30_000);
    assert_eq!(d.infer_interval_ms, 3_000);
    assert_eq!(d.commit_tail_ms, 8_000);
    assert_eq!(d.min_first_inference_ms, 1_500);
    assert_eq!(d, SlidingWindowConfig::meeting_defaults());
}

#[test]
fn samples_to_ms_at_zero_rate_is_zero_for_any_count() {
    assert_eq!(samples_to_ms(usize::MAX, 0), 0);
}

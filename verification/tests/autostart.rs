use std::sync::Mutex;

use hush::app_kind::MeetingAppKind;
use hush::autostart::{
    evaluate_autostart_tick, AutostartDecision, ForegroundAppProbe, MeetingAutostartMode,
    TickOutcome,
};
use hush::classifier::AppClassifier;

/// Probe returning canned values, cycling through a queue across calls.
struct StubProbe {
    responses: Mutex<Vec<Option<String>>>,
}

impl StubProbe {
    fn always(name: &str) -> Self {
        Self { responses: Mutex::new(vec![Some(name.to_owned())]) }
    }
    fn never() -> Self {
        Self { responses: Mutex::new(vec![None]) }
    }
}

impl ForegroundAppProbe for StubProbe {
    fn current_app_name(&self) -> Option<String> {
        let mut q = self.responses.lock().unwrap();
        if q.len() > 1 {
            q.remove(0)
        } else {
            q.first().cloned().unwrap_or(None)
        }
    }
}

fn classifier_with(entries: &[(&str, MeetingAppKind)]) -> AppClassifier {
    AppClassifier::with_overrides(
        entries.iter().map(|(name, kind)| ((*name).to_owned(), *kind)).collect(),
    )
}

#[test]
fn from_setting_handles_all_branches() {
    assert_eq!(MeetingAutostartMode::from_setting(None), MeetingAutostartMode::Always);
    assert_eq!(MeetingAutostartMode::from_setting(Some("off")), MeetingAutostartMode::Off);
    assert_eq!(MeetingAutostartMode::from_setting(Some("always")), MeetingAutostartMode::Always);
    assert_eq!(MeetingAutostartMode::from_setting(Some("ask")), MeetingAutostartMode::Always);
    assert_eq!(MeetingAutostartMode::from_setting(Some("garbage")), MeetingAutostartMode::Always);
}

#[test]
fn as_setting_round_trips_through_from_setting() {
    for mode in [MeetingAutostartMode::Off, MeetingAutostartMode::Always] {
        assert_eq!(MeetingAutostartMode::from_setting(Some(mode.as_setting())), mode);
    }
}

#[test]
fn as_setting_literals() {
    assert_eq!(MeetingAutostartMode::Off.as_setting(), "off");
    assert_eq!(MeetingAutostartMode::Always.as_setting(), "always");
    // Only the exact literal disables; case matters.
    assert_eq!(MeetingAutostartMode::from_setting(Some("OFF")), MeetingAutostartMode::Always);
    assert_eq!(MeetingAutostartMode::from_setting(Some("")), MeetingAutostartMode::Always);
}

#[test]
fn off_mode_returns_reset_memory_regardless_of_probe() {
    let probe = StubProbe::always("Zoom");
    let cls = classifier_with(&[]);
    let outcome = evaluate_autostart_tick(
        &probe,
        &cls,
        Some(MeetingAppKind::Other),
        MeetingAutostartMode::Off,
        false,
    );
    assert_eq!(outcome, TickOutcome::ResetMemory);
}

#[test]
fn probe_returning_none_yields_no_change() {
    let probe = StubProbe::never();
    let cls = classifier_with(&[]);
    let outcome = evaluate_autostart_tick(
        &probe,
        &cls,
        Some(MeetingAppKind::Meeting),
        MeetingAutostartMode::Always,
        false,
    );
    assert_eq!(outcome, TickOutcome::NoChange);
}

#[test]
fn transition_into_meeting_yields_start() {
    let probe = StubProbe::always("Zoom");
    let cls = classifier_with(&[("Zoom", MeetingAppKind::Meeting)]);
    let outcome = evaluate_autostart_tick(
        &probe,
        &cls,
        Some(MeetingAppKind::Other),
        MeetingAutostartMode::Always,
        false,
    );
    assert_eq!(
        outcome,
        TickOutcome::Start { app_name: "Zoom".to_owned(), last_kind: MeetingAppKind::Meeting }
    );
}

#[test]
fn first_tick_meeting_yields_start() {
    let probe = StubProbe::always("Microsoft Teams");
    let cls = classifier_with(&[("Microsoft Teams", MeetingAppKind::Meeting)]);
    let outcome = evaluate_autostart_tick(&probe, &cls, None, MeetingAutostartMode::Always, false);
    match outcome {
        TickOutcome::Start { app_name, last_kind } => {
            assert_eq!(app_name, "Microsoft Teams");
            assert_eq!(last_kind, MeetingAppKind::Meeting);
        }
        other => panic!("expected Start, got {other:?}"),
    }
}

#[test]
fn steady_state_meeting_yields_update_memory_not_start() {
    let probe = StubProbe::always("Zoom");
    let cls = classifier_with(&[("Zoom", MeetingAppKind::Meeting)]);
    let outcome = evaluate_autostart_tick(
        &probe,
        &cls,
        Some(MeetingAppKind::Meeting),
        MeetingAutostartMode::Always,
        false,
    );
    assert_eq!(outcome, TickOutcome::UpdateMemory { last_kind: MeetingAppKind::Meeting });
}

#[test]
fn session_active_blocks_start() {
    let probe = StubProbe::always("Zoom");
    let cls = classifier_with(&[("Zoom", MeetingAppKind::Meeting)]);
    let outcome = evaluate_autostart_tick(
        &probe,
        &cls,
        Some(MeetingAppKind::Other),
        MeetingAutostartMode::Always,
        true,
    );
    assert_eq!(outcome, TickOutcome::UpdateMemory { last_kind: MeetingAppKind::Meeting });
}

#[test]
fn unknown_app_classifies_to_other_and_yields_update_memory() {
    let probe = StubProbe::always("SomeRandomApp");
    let cls = classifier_with(&[]);
    let outcome = evaluate_autostart_tick(&probe, &cls, None, MeetingAutostartMode::Always, false);
    assert_eq!(outcome, TickOutcome::UpdateMemory { last_kind: MeetingAppKind::Other });
}

#[test]
fn classifier_override_respected() {
    let probe = StubProbe::always("MyMeetingApp");
    let cls = classifier_with(&[("MyMeetingApp", MeetingAppKind::Meeting)]);
    let outcome = evaluate_autostart_tick(
        &probe,
        &cls,
        Some(MeetingAppKind::Other),
        MeetingAutostartMode::Always,
        false,
    );
    assert!(
        matches!(outcome, TickOutcome::Start { ref app_name, .. } if app_name == "MyMeetingApp")
    );
}

#[test]
fn media_app_does_not_trigger_start() {
    let probe = StubProbe::always("Spotify");
    let cls = classifier_with(&[("Spotify", MeetingAppKind::Media)]);
    let outcome = evaluate_autostart_tick(
        &probe,
        &cls,
        Some(MeetingAppKind::Other),
        MeetingAutostartMode::Always,
        false,
    );
    assert_eq!(outcome, TickOutcome::UpdateMemory { last_kind: MeetingAppKind::Media });
}

#[test]
fn probe_sequence_starts_once_per_meeting_entry() {
    // Notes, Zoom, Zoom, Notes, Zoom: two entries into a meeting app, two starts.
    let probe = StubProbe {
        responses: Mutex::new(vec![
            Some("Notes".to_owned()),
            Some("Zoom".to_owned()),
            Some("Zoom".to_owned()),
            Some("Notes".to_owned()),
            Some("Zoom".to_owned()),
        ]),
    };
    let cls = classifier_with(&[("Zoom", MeetingAppKind::Meeting)]);
    let mut last = None;
    let mut starts = 0;
    for _ in 0..5 {
        match evaluate_autostart_tick(&probe, &cls, last, MeetingAutostartMode::Always, false) {
            TickOutcome::Start { last_kind, .. } => {
                starts += 1;
                last = Some(last_kind);
            }
            TickOutcome::UpdateMemory { last_kind } => last = Some(last_kind),
            TickOutcome::ResetMemory => last = None,
            TickOutcome::NoChange => {}
        }
    }
    assert_eq!(starts, 2);
}

#[test]
fn decide_rule_examples() {
    assert_eq!(
        AutostartDecision::decide(
            None,
            MeetingAppKind::Meeting,
            "Zoom",
            MeetingAutostartMode::Always,
            false
        ),
        AutostartDecision::Start { app_name: "Zoom".to_owned() }
    );
    assert_eq!(
        AutostartDecision::decide(
            Some(MeetingAppKind::Meeting),
            MeetingAppKind::Meeting,
            "Zoom",
            MeetingAutostartMode::Always,
            false
        ),
        AutostartDecision::Ignore
    );
    assert_eq!(
        AutostartDecision::decide(
            None,
            MeetingAppKind::Meeting,
            "Zoom",
            MeetingAutostartMode::Off,
            false
        ),
        AutostartDecision::Ignore
    );
}

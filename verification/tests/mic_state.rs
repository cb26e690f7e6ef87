use hush::app_kind::MeetingAppKind;
use hush::autostart::MeetingAutostartMode;
use hush::mic_state::{evaluate_mic_state, MicStateInputs, MicStateOutcome};

fn inputs(
    mic_active: bool,
    mode: MeetingAutostartMode,
    session_active: bool,
    session_emitted: bool,
    app_kind: MeetingAppKind,
) -> MicStateInputs {
    MicStateInputs {
        mic_is_active: mic_active,
        mode,
        session_active,
        session_emitted,
        frontmost_app_kind: app_kind,
        frontmost_app_name: "us.zoom.xos".into(),
    }
}

#[test]
fn mic_inactive_always_resets_session_emitted() {
    let i = inputs(false, MeetingAutostartMode::Always, false, true, MeetingAppKind::Meeting);
    assert_eq!(evaluate_mic_state(&i), MicStateOutcome::ResetSessionEmitted);
}

#[test]
fn mic_inactive_resets_even_in_off_mode() {
    let i = inputs(false, MeetingAutostartMode::Off, false, true, MeetingAppKind::Meeting);
    assert_eq!(evaluate_mic_state(&i), MicStateOutcome::ResetSessionEmitted);
}

#[test]
fn off_mode_is_idle_when_mic_active() {
    let i = inputs(true, MeetingAutostartMode::Off, false, false, MeetingAppKind::Meeting);
    assert_eq!(evaluate_mic_state(&i), MicStateOutcome::Idle);
}

#[test]
fn session_already_active_is_idle() {
    let i = inputs(true, MeetingAutostartMode::Always, true, false, MeetingAppKind::Meeting);
    assert_eq!(evaluate_mic_state(&i), MicStateOutcome::Idle);
}

#[test]
fn session_already_emitted_is_idle() {
    let i = inputs(true, MeetingAutostartMode::Always, false, true, MeetingAppKind::Meeting);
    assert_eq!(evaluate_mic_state(&i), MicStateOutcome::Idle);
}

#[test]
fn non_meeting_app_is_idle() {
    for kind in [MeetingAppKind::Other, MeetingAppKind::Media] {
        let i = inputs(true, MeetingAutostartMode::Always, false, false, kind);
        assert_eq!(evaluate_mic_state(&i), MicStateOutcome::Idle, "expected Idle for {kind:?}");
    }
}

#[test]
fn meeting_app_with_active_mic_triggers_start() {
    let i = inputs(true, MeetingAutostartMode::Always, false, false, MeetingAppKind::Meeting);
    assert_eq!(
        evaluate_mic_state(&i),
        MicStateOutcome::Start { app_name: "us.zoom.xos".into() }
    );
}

#[test]
fn start_carries_correct_app_name() {
    let mut i = inputs(true, MeetingAutostartMode::Always, false, false, MeetingAppKind::Meeting);
    i.frontmost_app_name = "com.microsoft.teams2".into();
    match evaluate_mic_state(&i) {
        MicStateOutcome::Start { app_name } => assert_eq!(app_name, "com.microsoft.teams2"),
        other => panic!("expected Start, got {other:?}"),
    }
}

#[test]
fn one_start_per_mic_activation_cycle() {
    // Drive the emitted flag the way the monitor does: start once, stay idle
    // while the mic stays on, reset when it goes quiet, start again after.
    let mut emitted = false;
    let mut starts = 0;
    for mic in [true, true, true, false, true, true] {
        let i = inputs(mic, MeetingAutostartMode::Always, false, emitted, MeetingAppKind::Meeting);
        match evaluate_mic_state(&i) {
            MicStateOutcome::Start { .. } => {
                starts += 1;
                emitted = true;
            }
            MicStateOutcome::ResetSessionEmitted => emitted = false,
            MicStateOutcome::Idle => {}
        }
    }
    assert_eq!(starts, 2);
}

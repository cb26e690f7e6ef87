use hush::session::{all_streams_failed, prewarm_failure_reason, SessionSlot, StartError};

#[test]
fn has_active_session_false_when_idle() {
    let slot = SessionSlot::new();
    assert!(!slot.has_active_session());
    assert_eq!(slot.active_session_id(), None);
}

#[test]
fn has_active_session_false_when_opening() {
    let mut slot = SessionSlot::new();
    slot.claim_for_start().unwrap();
    assert!(!slot.has_active_session());
}

#[test]
fn has_active_session_true_when_active() {
    let mut slot = SessionSlot::new();
    slot.claim_for_start().unwrap();
    slot.commit_active(42, 1_000);
    assert!(slot.has_active_session());
    assert_eq!(slot.active_session_id(), Some(42));
}

#[test]
fn concurrent_starts_are_rejected_by_phase() {
    let mut slot = SessionSlot::new();
    assert_eq!(slot.claim_for_start(), Ok(()));
    assert_eq!(slot.claim_for_start(), Err(StartError::StartInFlight));
    slot.commit_active(1, 0);
    assert_eq!(slot.claim_for_start(), Err(StartError::AlreadyActive));
    assert_eq!(slot.take_for_stop(), Some((1, 0)));
    assert_eq!(slot, SessionSlot::Releasing);
    assert_eq!(slot.claim_for_start(), Err(StartError::Finishing));
    slot.finish_release();
    assert_eq!(slot, SessionSlot::Idle);
    assert_eq!(slot.claim_for_start(), Ok(()));
}

#[test]
fn empty_sources_and_missing_model_release_the_claim() {
    let mut slot = SessionSlot::new();
    slot.claim_for_start().unwrap();
    assert_eq!(slot.check_start(0, true), Err(StartError::NoSources));
    assert_eq!(slot, SessionSlot::Idle);
    slot.claim_for_start().unwrap();
    assert_eq!(slot.check_start(2, false), Err(StartError::NoTranscriber));
    assert_eq!(slot, SessionSlot::Idle);
    slot.claim_for_start().unwrap();
    assert_eq!(slot.check_start(2, true), Ok(()));
    assert_eq!(slot, SessionSlot::Opening);
    slot.abort_start();
    assert_eq!(slot, SessionSlot::Idle);
}

#[test]
fn stop_with_no_active_session_takes_nothing() {
    let mut slot = SessionSlot::new();
    assert_eq!(slot.take_for_stop(), None);
    assert_eq!(slot, SessionSlot::Idle);
}

#[test]
fn append_window_places_dictation_in_session_time() {
    let mut slot = SessionSlot::new();
    assert_eq!(slot.append_window(5_000, 1_000), None);
    slot.claim_for_start().unwrap();
    slot.commit_active(7, 10_000);
    assert_eq!(slot.append_window(25_000, 3_000), Some((7, 12_000, 15_000)));
    // A dictation longer than the session so far starts at zero.
    assert_eq!(slot.append_window(11_000, 5_000), Some((7, 0, 1_000)));
    // A clock before the start counts as age zero.
    assert_eq!(slot.append_window(9_000, 500), Some((7, 0, 0)));
}

#[test]
fn stream_failure_and_messages() {
    assert!(all_streams_failed(&vec![false, false]));
    assert!(!all_streams_failed(&vec![false, true]));
    assert_eq!(
        StartError::NoSources.message(),
        "meeting session needs at least one audio source"
    );
    assert!(StartError::AllStreamsFailed.message().contains("transcription streams"));
    assert_eq!(prewarm_failure_reason(true), "audio device disconnected before session start");
    assert_eq!(prewarm_failure_reason(false), "audio capture pre-warm failed at session start");
}

use hush::pump_policy::{
    advance_tick, count_finals, fallback_applies, fits_meeting_clock, shift_to_meeting_clock, FallbackAttempt,
    SourceRecoveryState,
};
use hush::streaming::Utterance;

fn pump_utt(text: &str, start: u64, end: u64, is_final: bool) -> Utterance {
    Utterance { text: text.to_owned(), started_at_ms: start, ended_at_ms: end, is_final, speaker_label: None }
}

#[test]
fn device_loss_outcomes() {
    assert!(fallback_applies(true));
    assert!(!fallback_applies(false));
    let s = SourceRecoveryState::after_device_lost("mic-a", "USB Mic".to_owned(), FallbackAttempt::Opened);
    assert_eq!(
        s,
        SourceRecoveryState::Fallback { original_source: "mic-a", original_device_name: "USB Mic".to_owned() }
    );
    let s = SourceRecoveryState::after_device_lost("mic-a", "USB Mic".to_owned(), FallbackAttempt::Failed);
    assert_eq!(s.reconnect_target(), Some((&"mic-a", "USB Mic")));
    let s = SourceRecoveryState::after_device_lost("system", "Tap".to_owned(), FallbackAttempt::NotApplicable);
    assert_eq!(s, SourceRecoveryState::Dead);
    assert_eq!(s.reconnect_target(), None);
}

#[test]
fn reconnect_only_when_original_device_is_listed() {
    let s = SourceRecoveryState::after_device_lost(1u8, "USB Mic".to_owned(), FallbackAttempt::Opened);
    assert!(!s.should_reconnect(&vec!["Built-in".to_owned()]));
    assert!(s.should_reconnect(&vec!["Built-in".to_owned(), "USB Mic".to_owned()]));
    let back = s.clone().after_reconnect_attempt(true);
    assert_eq!(back, SourceRecoveryState::Active);
    let still = s.clone().after_reconnect_attempt(false);
    assert_eq!(still, s);
}

#[test]
fn dead_and_active_sources_never_reconnect() {
    let listed = vec!["USB Mic".to_owned()];
    let dead: SourceRecoveryState<u8> = SourceRecoveryState::Dead;
    assert!(!dead.should_reconnect(&listed));
    assert_eq!(dead.after_reconnect_attempt(true), SourceRecoveryState::Dead);
    let active: SourceRecoveryState<u8> = SourceRecoveryState::Active;
    assert!(!active.should_reconnect(&listed));
    assert_eq!(active.reconnect_target(), None);
}

#[test]
fn reconnect_check_every_tenth_tick() {
    let mut t = 0u32;
    let mut checks = 0;
    for _ in 0..30 {
        let (next, check) = advance_tick(t);
        t = next;
        if check {
            checks += 1;
        }
    }
    assert_eq!(t, 30);
    assert_eq!(checks, 3);
    assert_eq!(advance_tick(u32::MAX), (0, true));
}

#[test]
fn epoch_offset_moves_both_ends() {
    let mut v = vec![pump_utt("a", 0, 500, true), pump_utt("b", 1_000, 1_200, false)];
    shift_to_meeting_clock(&mut v, 60_000);
    assert_eq!((v[0].started_at_ms, v[0].ended_at_ms), (60_000, 60_500));
    assert_eq!((v[1].started_at_ms, v[1].ended_at_ms), (61_000, 61_200));
    assert_eq!(v[1].text, "b");
    let mut w = vec![pump_utt("c", 5, 6, true)];
    shift_to_meeting_clock(&mut w, 0);
    assert_eq!((w[0].started_at_ms, w[0].ended_at_ms), (5, 6));
}

#[test]
fn counts_finals_and_blank_finals() {
    let v = vec![
        pump_utt("hello", 0, 1, true),
        pump_utt("[BLANK_AUDIO]", 1, 2, true),
        pump_utt("   ", 2, 3, true),
        pump_utt("", 3, 4, false),
        pump_utt("partial", 4, 5, false),
    ];
    assert_eq!(count_finals(&v), (3, 2));
    assert_eq!(count_finals(&vec![]), (0, 0));
}

#[test]
fn meeting_clock_shift_fits_only_when_both_ends_stay_in_range() {
    let utts = vec![pump_utt("a", 10, 20, true)];
    assert!(fits_meeting_clock(&utts, 1_000));
    assert!(!fits_meeting_clock(&utts, u64::MAX - 15));
    assert!(!fits_meeting_clock(&vec![pump_utt("b", u64::MAX - 5, u64::MAX - 5, true)], 10));
    assert!(fits_meeting_clock(&vec![], u64::MAX));
}

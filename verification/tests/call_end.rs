use std::sync::atomic::{AtomicU32, Ordering};
use std::sync::Arc;

use hush::call_end::{
    evaluate_call_end_state, mic_idle_threshold, whisper_silence_evidence,
    whisper_silence_threshold, CallEndInputs, CallEndState, CallEndThresholds, CallEndTransition,
    InactivityTimer, MicHalSignal, SignalEvidence, SignalSet, WhisperSilenceSignal,
};

const NOW: u64 = 1_000_000;

fn thresholds() -> CallEndThresholds {
    CallEndThresholds { confirm_two_signal_secs: 30, confirm_one_signal_secs: 120 }
}

fn inputs_manual(mic_inactive: bool, sys_quiet: bool, whisper: bool, reversal: bool) -> CallEndInputs {
    CallEndInputs {
        mic_inactive,
        system_audio_quiet: sys_quiet,
        whisper_silent: whisper,
        session_is_manual: true,
        any_reversal: reversal,
    }
}

#[test]
fn stays_when_session_not_manual() {
    let state = CallEndState::Monitoring;
    let inputs = CallEndInputs {
        mic_inactive: true,
        system_audio_quiet: true,
        whisper_silent: true,
        session_is_manual: false,
        any_reversal: false,
    };
    let t = thresholds();
    assert_eq!(evaluate_call_end_state(&state, &inputs, NOW, &t), CallEndTransition::Stay);
}

#[test]
fn monitoring_enters_suspected_on_one_signal() {
    let state = CallEndState::Monitoring;
    let inputs = inputs_manual(true, false, false, false);
    let t = thresholds();
    assert!(matches!(
        evaluate_call_end_state(&state, &inputs, NOW, &t),
        CallEndTransition::EnterSuspected { .. }
    ));
}

#[test]
fn reversal_resets_from_monitoring() {
    let state = CallEndState::Monitoring;
    let inputs = inputs_manual(false, false, false, true);
    let t = thresholds();
    assert_eq!(evaluate_call_end_state(&state, &inputs, NOW, &t), CallEndTransition::Reset);
}

#[test]
fn suspected_stays_before_threshold() {
    let since = NOW;
    let state = CallEndState::Suspected {
        since_ms: since,
        signals: SignalSet { mic_inactive: true, ..Default::default() },
    };
    let inputs = inputs_manual(true, true, false, false);
    let t = thresholds();
    let now = since + 29_000;
    assert_eq!(evaluate_call_end_state(&state, &inputs, now, &t), CallEndTransition::Stay);
}

#[test]
fn suspected_promotes_to_confident_two_signals_at_30s() {
    let since = NOW;
    let state = CallEndState::Suspected {
        since_ms: since,
        signals: SignalSet { mic_inactive: true, system_audio_quiet: true, ..Default::default() },
    };
    let inputs = inputs_manual(true, true, false, false);
    let t = thresholds();
    let now = since + 30_000;
    assert_eq!(evaluate_call_end_state(&state, &inputs, now, &t), CallEndTransition::EnterConfident);
}

#[test]
fn suspected_promotes_one_signal_at_120s() {
    let since = NOW;
    let state = CallEndState::Suspected {
        since_ms: since,
        signals: SignalSet { system_audio_quiet: true, ..Default::default() },
    };
    let inputs = inputs_manual(false, true, false, false);
    let t = thresholds();
    let now = since + 120_000;
    assert_eq!(evaluate_call_end_state(&state, &inputs, now, &t), CallEndTransition::EnterConfident);
}

#[test]
fn reversal_resets_from_suspected() {
    let state = CallEndState::Suspected {
        since_ms: NOW,
        signals: SignalSet { mic_inactive: true, ..Default::default() },
    };
    let inputs = inputs_manual(false, false, false, true);
    let t = thresholds();
    assert_eq!(evaluate_call_end_state(&state, &inputs, NOW, &t), CallEndTransition::Reset);
}

#[test]
fn confident_resets_immediately() {
    let state = CallEndState::Confident { since_ms: NOW };
    let inputs = inputs_manual(true, true, true, false);
    let t = thresholds();
    assert_eq!(evaluate_call_end_state(&state, &inputs, NOW, &t), CallEndTransition::Reset);
}

#[test]
fn suspected_one_signal_stays_at_119s() {
    let state = CallEndState::Suspected {
        since_ms: NOW,
        signals: SignalSet { whisper_silent: true, ..Default::default() },
    };
    let inputs = inputs_manual(false, false, true, false);
    assert_eq!(
        evaluate_call_end_state(&state, &inputs, NOW + 119_999, &thresholds()),
        CallEndTransition::Stay
    );
}

#[test]
fn suspected_with_no_signal_left_stays() {
    let state = CallEndState::Suspected { since_ms: NOW, signals: SignalSet::default() };
    let inputs = inputs_manual(false, false, false, false);
    assert_eq!(
        evaluate_call_end_state(&state, &inputs, NOW + 1_000_000, &thresholds()),
        CallEndTransition::Stay
    );
}

#[test]
fn clock_going_backwards_counts_as_no_elapsed_time() {
    let state = CallEndState::Suspected {
        since_ms: NOW,
        signals: SignalSet { mic_inactive: true, system_audio_quiet: true, ..Default::default() },
    };
    let inputs = inputs_manual(true, true, false, false);
    assert_eq!(
        evaluate_call_end_state(&state, &inputs, NOW - 500_000, &thresholds()),
        CallEndTransition::Stay
    );
}

#[test]
fn monitoring_records_the_active_signals() {
    let inputs = inputs_manual(true, false, true, false);
    assert_eq!(
        evaluate_call_end_state(&CallEndState::Monitoring, &inputs, NOW, &thresholds()),
        CallEndTransition::EnterSuspected {
            signals: SignalSet { mic_inactive: true, system_audio_quiet: false, whisper_silent: true }
        }
    );
}

#[test]
fn active_count_counts_each_signal() {
    assert_eq!(SignalSet::default().active_count(), 0);
    assert_eq!(
        SignalSet { mic_inactive: true, system_audio_quiet: true, whisper_silent: true }.active_count(),
        3
    );
    assert_eq!(SignalSet { system_audio_quiet: true, ..Default::default() }.active_count(), 1);
}

#[test]
fn thresholds_defaults_and_overrides() {
    let t = CallEndThresholds::with_overrides(None, None);
    assert_eq!(t, thresholds());
    let t = CallEndThresholds::with_overrides(Some(5), None);
    assert_eq!(t.confirm_two_signal_secs, 5);
    assert_eq!(t.confirm_one_signal_secs, 120);
    let t = CallEndThresholds::with_overrides(None, Some(7));
    assert_eq!(t.confirm_one_signal_secs, 7);
}

#[test]
fn whisper_silence_evidence_cases() {
    assert_eq!(whisper_silence_evidence(0, 20), SignalEvidence { strong: false, is_reversal: true });
    assert_eq!(whisper_silence_evidence(19, 20), SignalEvidence { strong: false, is_reversal: false });
    assert_eq!(whisper_silence_evidence(20, 20), SignalEvidence { strong: true, is_reversal: false });
    assert_eq!(whisper_silence_threshold(None), 20);
    assert_eq!(whisper_silence_threshold(Some(3)), 3);
    assert_eq!(mic_idle_threshold(None), 10);
    assert_eq!(mic_idle_threshold(Some(4)), 4);
}

#[test]
fn whisper_silence_signal_reads_the_shared_counter() {
    let counter = Arc::new(AtomicU32::new(0));
    let signal = WhisperSilenceSignal::new(Arc::clone(&counter), 20);
    assert!(signal.poll().is_reversal);
    counter.store(25, Ordering::Relaxed);
    assert_eq!(signal.poll(), SignalEvidence { strong: true, is_reversal: false });
}

#[test]
fn inactivity_timer_turns_strong_after_threshold() {
    let mut timer = InactivityTimer::new();
    assert_eq!(timer.observe(false, 1_000, 10), SignalEvidence { strong: false, is_reversal: false });
    assert_eq!(timer.inactive_since_ms, Some(1_000));
    assert_eq!(timer.observe(false, 10_999, 10), SignalEvidence { strong: false, is_reversal: false });
    assert_eq!(timer.observe(false, 11_000, 10), SignalEvidence { strong: true, is_reversal: false });
    assert_eq!(timer.observe(true, 12_000, 10), SignalEvidence { strong: false, is_reversal: true });
    assert_eq!(timer.inactive_since_ms, None);
}

#[test]
fn mic_hal_signal_restarts_clock_on_activity() {
    let mut sig = MicHalSignal::new(10);
    assert!(!sig.poll(false, 0).strong);
    assert!(sig.poll(false, 10_000).strong);
    assert!(sig.poll(true, 11_000).is_reversal);
    assert!(!sig.poll(false, 12_000).strong);
    assert!(!sig.poll(false, 21_999).strong);
    assert!(sig.poll(false, 22_000).strong);
}

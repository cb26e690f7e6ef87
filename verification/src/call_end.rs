//! Call-end detection for manually started meeting sessions.
//!
//! Three signals (mic idle, quiet system audio, silent transcription) feed a
//! three-state machine — `Monitoring` → `Suspected` → `Confident` — whose
//! timing thresholds depend on how many signals agree. Times are
//! milliseconds on a monotonic clock chosen by the caller.

use std::sync::atomic::{AtomicU32, Ordering};
use std::sync::Arc;

use vstd::prelude::*;

verus! {

/// Which call-end signals are currently active.
#[derive(Debug, Clone, Copy, Default, PartialEq, Eq, Structural)]
pub struct SignalSet {
    pub mic_inactive: bool,
    pub system_audio_quiet: bool,
    pub whisper_silent: bool,
}

/// The number of active signals.
pub open spec fn active_count_spec(s: SignalSet) -> nat {
    (if s.mic_inactive { 1nat } else { 0nat }) + (if s.system_audio_quiet { 1nat } else { 0nat })
        + (if s.whisper_silent { 1nat } else { 0nat })
}

impl SignalSet {
    /// How many of the three signals are active.
    pub fn active_count(self) -> (r: u8)
        ensures
            r == active_count_spec(self),
    {
        let a: u8 = if self.mic_inactive { 1 } else { 0 };
        let b: u8 = if self.system_audio_quiet { 1 } else { 0 };
        let c: u8 = if self.whisper_silent { 1 } else { 0 };
        a + b + c
    }
}

/// State of the call-end machine.
#[derive(Debug, Clone, Copy, PartialEq, Eq, Structural)]
pub enum CallEndState {
    /// No suspicion.
    Monitoring,
    /// Some signal suggests the call ended, since `since_ms`.
    Suspected { since_ms: u64, signals: SignalSet },
    /// The confidence threshold was reached at `since_ms`.
    Confident { since_ms: u64 },
}

/// What the machine does after one evaluation.
#[derive(Debug, Clone, Copy, PartialEq, Eq, Structural)]
pub enum CallEndTransition {
    Stay,
    EnterSuspected { signals: SignalSet },
    EnterConfident,
    Reset,
}

/// Inputs of one evaluation.
#[derive(Debug, Clone, Copy, PartialEq, Eq)]
pub struct CallEndInputs {
    pub mic_inactive: bool,
    pub system_audio_quiet: bool,
    pub whisper_silent: bool,
    /// Only manually started sessions are watched.
    pub session_is_manual: bool,
    /// Some signal contradicts call end (mic active, loud audio, speech).
    pub any_reversal: bool,
}

/// How long suspicion must hold before confidence, by signal count.
#[derive(Debug, Clone, Copy, PartialEq, Eq)]
pub struct CallEndThresholds {
    /// With two or more active signals, in seconds.
    pub confirm_two_signal_secs: u64,
    /// With one active signal, in seconds.
    pub confirm_one_signal_secs: u64,
}

impl CallEndThresholds {
    /// The thresholds with optional overrides: 30 s for two signals and
    /// 120 s for one unless overridden.
    pub fn with_overrides(two: Option<u64>, one: Option<u64>) -> (r: Self)
        ensures
            r.confirm_two_signal_secs == (match two {
                Some(v) => v,
                None => 30,
            }),
            r.confirm_one_signal_secs == (match one {
                Some(v) => v,
                None => 120,
            }),
    {
        CallEndThresholds {
            confirm_two_signal_secs: match two {
                Some(v) => v,
                None => 30,
            },
            confirm_one_signal_secs: match one {
                Some(v) => v,
                None => 120,
            },
        }
    }
}

/// Whole seconds elapsed from `since_ms` to `now_ms` (zero if `now_ms` is
/// earlier).
pub open spec fn elapsed_secs(since_ms: u64, now_ms: u64) -> int {
    if now_ms < since_ms { 0 } else { (now_ms - since_ms) / 1000 }
}

/// The transition of one evaluation: nothing for automatic sessions; a
/// reversal resets from any state; `Monitoring` becomes suspicious on any
/// active signal; `Suspected` becomes confident once some signal is active
/// and the elapsed time reaches the threshold for the current signal count;
/// `Confident` re-arms at once.
pub open spec fn call_end_spec(
    current: CallEndState,
    inputs: CallEndInputs,
    now_ms: u64,
    t: CallEndThresholds,
) -> CallEndTransition {
    let set = SignalSet {
        mic_inactive: inputs.mic_inactive,
        system_audio_quiet: inputs.system_audio_quiet,
        whisper_silent: inputs.whisper_silent,
    };
    if !inputs.session_is_manual {
        CallEndTransition::Stay
    } else if inputs.any_reversal {
        CallEndTransition::Reset
    } else {
        match current {
            CallEndState::Monitoring => if active_count_spec(set) >= 1 {
                CallEndTransition::EnterSuspected { signals: set }
            } else {
                CallEndTransition::Stay
            },
            CallEndState::Suspected { since_ms, .. } => {
                let count = active_count_spec(set);
                let threshold = if count >= 2 {
                    t.confirm_two_signal_secs
                } else {
                    t.confirm_one_signal_secs
                };
                if count >= 1 && elapsed_secs(since_ms, now_ms) >= threshold {
                    CallEndTransition::EnterConfident
                } else {
                    CallEndTransition::Stay
                }
            },
            CallEndState::Confident { .. } => CallEndTransition::Reset,
        }
    }
}

/// Evaluates one tick of the call-end machine (see [`call_end_spec`]).
pub fn evaluate_call_end_state(
    current: &CallEndState,
    inputs: &CallEndInputs,
    now_ms: u64,
    thresholds: &CallEndThresholds,
) -> (r: CallEndTransition)
    ensures
        r == call_end_spec(*current, *inputs, now_ms, *thresholds),
{
    if !inputs.session_is_manual {
        return CallEndTransition::Stay;
    }
    if inputs.any_reversal {
        return CallEndTransition::Reset;
    }
    let signal_set = SignalSet {
        mic_inactive: inputs.mic_inactive,
        system_audio_quiet: inputs.system_audio_quiet,
        whisper_silent: inputs.whisper_silent,
    };
    match current {
        CallEndState::Monitoring => {
            if signal_set.active_count() >= 1 {
                CallEndTransition::EnterSuspected { signals: signal_set }
            } else {
                CallEndTransition::Stay
            }
        },
        CallEndState::Suspected { since_ms, .. } => {
            let elapsed = now_ms.saturating_sub(*since_ms) / 1000;
            let count = signal_set.active_count();
            let threshold = if count >= 2 {
                thresholds.confirm_two_signal_secs
            } else {
                thresholds.confirm_one_signal_secs
            };
            if count >= 1 && elapsed >= threshold {
                CallEndTransition::EnterConfident
            } else {
                CallEndTransition::Stay
            }
        },
        CallEndState::Confident { .. } => CallEndTransition::Reset,
    }
}

/// A reversal cancels any suspicion, and automatic sessions are never
/// prompted.
pub proof fn law_reversal_resets(current: CallEndState, inputs: CallEndInputs, now_ms: u64, t: CallEndThresholds)
    ensures
        inputs.session_is_manual && inputs.any_reversal ==> call_end_spec(current, inputs, now_ms, t)
            == CallEndTransition::Reset,
        !inputs.session_is_manual ==> call_end_spec(current, inputs, now_ms, t)
            == CallEndTransition::Stay,
{
}

/// Confidence needs a prior suspicion: from `Monitoring` no evaluation goes
/// straight to `EnterConfident`.
pub proof fn law_no_confidence_without_suspicion(inputs: CallEndInputs, now_ms: u64, t: CallEndThresholds)
    ensures
        call_end_spec(CallEndState::Monitoring, inputs, now_ms, t) != CallEndTransition::EnterConfident,
{
}

/// Whether at least two of the three call-end signals are active.
pub open spec fn two_or_more(inputs: CallEndInputs) -> bool {
    (inputs.mic_inactive && inputs.system_audio_quiet) || (inputs.mic_inactive && inputs.whisper_silent)
        || (inputs.system_audio_quiet && inputs.whisper_silent)
}

/// Whether some call-end signal is active.
pub open spec fn any_signal(inputs: CallEndInputs) -> bool {
    inputs.mic_inactive || inputs.system_audio_quiet || inputs.whisper_silent
}

/// Whether every signal active in `a` is also active in `b`, with the same
/// session kind and reversal.
pub open spec fn more_signals(a: CallEndInputs, b: CallEndInputs) -> bool {
    &&& a.mic_inactive ==> b.mic_inactive
    &&& a.system_audio_quiet ==> b.system_audio_quiet
    &&& a.whisper_silent ==> b.whisper_silent
    &&& a.session_is_manual == b.session_is_manual
    &&& a.any_reversal == b.any_reversal
}

/// On a suspected call end of a manual session without reversal, two or
/// more active signals confirm once the whole seconds since the suspicion
/// reach the two-signal threshold, and a single signal once they reach the
/// one-signal threshold; before its threshold the machine stays, and with
/// no signal it never confirms.
pub proof fn law_confirmation_thresholds(
    since_ms: u64,
    signals: SignalSet,
    inputs: CallEndInputs,
    now_ms: u64,
    t: CallEndThresholds,
)
    requires
        inputs.session_is_manual,
        !inputs.any_reversal,
    ensures
        ({
            let r = call_end_spec(CallEndState::Suspected { since_ms, signals }, inputs, now_ms, t);
            let secs = if now_ms < since_ms { 0 } else { (now_ms - since_ms) / 1000 };
            &&& two_or_more(inputs) ==> (r == CallEndTransition::EnterConfident <==> secs
                >= t.confirm_two_signal_secs)
            &&& any_signal(inputs) && !two_or_more(inputs) ==> (r == CallEndTransition::EnterConfident
                <==> secs >= t.confirm_one_signal_secs)
            &&& !any_signal(inputs) ==> r == CallEndTransition::Stay
            &&& r == CallEndTransition::EnterConfident || r == CallEndTransition::Stay
        }),
{
}

/// More agreeing signals never delay confirmation (with the default
/// ordering of thresholds, two-signal no longer than one-signal): if a
/// suspicion confirms with some signals active, it confirms with any
/// superset of them.
pub proof fn law_more_signals_never_delay(
    since_ms: u64,
    signals: SignalSet,
    a: CallEndInputs,
    b: CallEndInputs,
    now_ms: u64,
    t: CallEndThresholds,
)
    requires
        more_signals(a, b),
        t.confirm_two_signal_secs <= t.confirm_one_signal_secs,
        call_end_spec(CallEndState::Suspected { since_ms, signals }, a, now_ms, t)
            == CallEndTransition::EnterConfident,
    ensures
        call_end_spec(CallEndState::Suspected { since_ms, signals }, b, now_ms, t)
            == CallEndTransition::EnterConfident,
{
}

/// Evidence a signal reports on one poll.
#[derive(Debug, Clone, Copy, PartialEq, Eq, Structural)]
pub struct SignalEvidence {
    /// Strong evidence that the call ended.
    pub strong: bool,
    /// The signal contradicts call end.
    pub is_reversal: bool,
}

/// Transcription-silence evidence: zero empty ticks is a reversal (speech
/// just arrived); otherwise strong once the count reaches the threshold.
pub open spec fn silence_evidence_spec(ticks: u32, threshold: u32) -> SignalEvidence {
    if ticks == 0 {
        SignalEvidence { strong: false, is_reversal: true }
    } else {
        SignalEvidence { strong: ticks >= threshold, is_reversal: false }
    }
}

/// Evidence from the count of consecutive empty inference ticks.
pub fn whisper_silence_evidence(ticks: u32, threshold_ticks: u32) -> (r: SignalEvidence)
    ensures
        r == silence_evidence_spec(ticks, threshold_ticks),
{
    if ticks == 0 {
        return SignalEvidence { strong: false, is_reversal: true };
    }
    SignalEvidence { strong: ticks >= threshold_ticks, is_reversal: false }
}

/// The empty-tick threshold: 20 (about 10 s at a 500 ms tick) unless
/// overridden.
pub fn whisper_silence_threshold(over: Option<u32>) -> (r: u32)
    ensures
        r == (match over {
            Some(v) => v,
            None => 20,
        }),
{
    match over {
        Some(v) => v,
        None => 20,
    }
}

/// Tracks consecutive inference ticks that produced no speech; the counter
/// is written by the meeting pump.
pub struct WhisperSilenceSignal {
    consecutive_empty_ticks: Arc<AtomicU32>,
    threshold_ticks: u32,
}

impl WhisperSilenceSignal {
    /// A signal over the shared counter with the given threshold.
    pub fn new(consecutive_empty_ticks: Arc<AtomicU32>, threshold_ticks: u32) -> (r: Self)
        ensures
            r.threshold() == threshold_ticks,
    {
        WhisperSilenceSignal { consecutive_empty_ticks, threshold_ticks }
    }

    /// The empty-tick threshold.
    pub closed spec fn threshold(&self) -> u32 {
        self.threshold_ticks
    }

    /// Reads the shared counter once and reports its evidence.
    pub fn poll(&self) -> (r: SignalEvidence)
        ensures
            exists|ticks: u32| r == silence_evidence_spec(ticks, self.threshold()),
    {
        let ticks = self.consecutive_empty_ticks.load(Ordering::Relaxed);
        let r = whisper_silence_evidence(ticks, self.threshold_ticks);
        assert(r == silence_evidence_spec(ticks, self.threshold()));
        r
    }
}

/// Inactivity timer behind the mic and system-audio signals: tracks since
/// when a condition has held and turns strong once it has held long enough.
#[derive(Debug, Clone, Copy, PartialEq, Eq)]
pub struct InactivityTimer {
    pub inactive_since_ms: Option<u64>,
}

/// One observation of the timer: activity clears it and is a reversal;
/// inactivity starts it (if not running) and is strong once the elapsed
/// whole seconds reach the threshold.
pub open spec fn timer_observe_spec(
    since: Option<u64>,
    active: bool,
    now_ms: u64,
    threshold_secs: u64,
) -> (Option<u64>, SignalEvidence) {
    if active {
        (None, SignalEvidence { strong: false, is_reversal: true })
    } else {
        let start = match since {
            Some(s) => s,
            None => now_ms,
        };
        (Some(start), SignalEvidence { strong: elapsed_secs(start, now_ms) >= threshold_secs, is_reversal: false })
    }
}

impl InactivityTimer {
    /// A stopped timer.
    pub fn new() -> (r: Self)
        ensures
            r.inactive_since_ms is None,
    {
        InactivityTimer { inactive_since_ms: None }
    }

    /// Records one observation at `now_ms` (see [`timer_observe_spec`]).
    pub fn observe(&mut self, active: bool, now_ms: u64, threshold_secs: u64) -> (r: SignalEvidence)
        ensures
            (final(self).inactive_since_ms, r) == timer_observe_spec(
                old(self).inactive_since_ms,
                active,
                now_ms,
                threshold_secs,
            ),
    {
        if active {
            self.inactive_since_ms = None;
            return SignalEvidence { strong: false, is_reversal: true };
        }
        let start = match self.inactive_since_ms {
            Some(s) => s,
            None => now_ms,
        };
        self.inactive_since_ms = Some(start);
        let elapsed = now_ms.saturating_sub(start) / 1000;
        SignalEvidence { strong: elapsed >= threshold_secs, is_reversal: false }
    }
}

/// The mic-idle threshold in seconds: 10 unless overridden.
pub fn mic_idle_threshold(over: Option<u64>) -> (r: u64)
    ensures
        r == (match over {
            Some(v) => v,
            None => 10,
        }),
{
    match over {
        Some(v) => v,
        None => 10,
    }
}

/// Tracks how long the microphone device has been idle; the caller reads
/// whether any input device is running and hands the answer in.
#[derive(Debug, Clone, Copy, PartialEq, Eq)]
pub struct MicHalSignal {
    timer: InactivityTimer,
    threshold_secs: u64,
}

impl MicHalSignal {
    /// Since when the device has been idle, if it is.
    pub closed spec fn idle_since(&self) -> Option<u64> {
        self.timer.inactive_since_ms
    }

    /// The idle threshold in seconds.
    pub closed spec fn threshold(&self) -> u64 {
        self.threshold_secs
    }

    /// A signal that has not yet seen the device idle.
    pub fn new(threshold_secs: u64) -> (r: Self)
        ensures
            r.idle_since() is None,
            r.threshold() == threshold_secs,
    {
        MicHalSignal { timer: InactivityTimer::new(), threshold_secs }
    }

    /// One poll at `now_ms`: an active device is a reversal and restarts
    /// the idle clock; an idle device is strong evidence once it has been
    /// idle for the threshold.
    pub fn poll(&mut self, device_active: bool, now_ms: u64) -> (r: SignalEvidence)
        ensures
            final(self).threshold() == old(self).threshold(),
            (final(self).idle_since(), r) == timer_observe_spec(
                old(self).idle_since(),
                device_active,
                now_ms,
                old(self).threshold(),
            ),
    {
        self.timer.observe(device_active, now_ms, self.threshold_secs)
    }
}

} // verus!

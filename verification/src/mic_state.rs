//! Mic-activation auto-start state machine: evaluated on every change of
//! the input devices' running state.

use vstd::prelude::*;

use crate::app_kind::MeetingAppKind;
use crate::autostart::MeetingAutostartMode;

verus! {

/// All inputs to one evaluation of the mic auto-start state machine.
#[derive(Debug, Clone)]
pub struct MicStateInputs {
    /// Whether any tracked input device is running.
    pub mic_is_active: bool,
    /// The configured auto-start mode.
    pub mode: MeetingAutostartMode,
    /// Whether a meeting session is already open.
    pub session_active: bool,
    /// Whether a start was already emitted in this mic-activation cycle.
    pub session_emitted: bool,
    /// Classification of the frontmost app.
    pub frontmost_app_kind: MeetingAppKind,
    /// Name of the frontmost app.
    pub frontmost_app_name: String,
}

/// Outcome of one evaluation.
#[derive(Debug, Clone, PartialEq, Eq)]
pub enum MicStateOutcome {
    /// No action; keep `session_emitted` as it is.
    Idle,
    /// The mic went quiet: reset `session_emitted`.
    ResetSessionEmitted,
    /// Start a session for the named app and set `session_emitted`.
    Start { app_name: String },
}

/// Whether the evaluation starts a session.
pub open spec fn mic_starts(i: MicStateInputs) -> bool {
    &&& i.mic_is_active
    &&& i.mode != MeetingAutostartMode::Off
    &&& !i.session_active
    &&& !i.session_emitted
    &&& i.frontmost_app_kind == MeetingAppKind::Meeting
}

/// Evaluates the mic auto-start state machine: a quiet mic always resets
/// the emitted flag; an active mic starts a session only in a non-`Off`
/// mode, with no session open or already emitted, and a meeting app in
/// front; otherwise nothing happens.
pub fn evaluate_mic_state(inputs: &MicStateInputs) -> (r: MicStateOutcome)
    ensures
        !inputs.mic_is_active ==> r is ResetSessionEmitted,
        mic_starts(*inputs) ==> (r matches MicStateOutcome::Start { app_name }
            && app_name@ == inputs.frontmost_app_name@),
        inputs.mic_is_active && !mic_starts(*inputs) ==> r is Idle,
{
    if !inputs.mic_is_active {
        return MicStateOutcome::ResetSessionEmitted;
    }
    if inputs.mode == MeetingAutostartMode::Off {
        return MicStateOutcome::Idle;
    }
    if inputs.session_active {
        return MicStateOutcome::Idle;
    }
    if inputs.session_emitted {
        return MicStateOutcome::Idle;
    }
    if inputs.frontmost_app_kind != MeetingAppKind::Meeting {
        return MicStateOutcome::Idle;
    }
    MicStateOutcome::Start { app_name: inputs.frontmost_app_name.clone() }
}

/// At most one start per mic-activation cycle: once a start was emitted,
/// further evaluations with the mic still active start nothing.
pub proof fn law_one_start_per_activation(i: MicStateInputs)
    requires
        i.session_emitted,
    ensures
        !mic_starts(i),
{
}

} // verus!

//! The meeting-session slot: which phase the single session slot is in,
//! and the decisions that start, stop and append to a session.
//!
//! `Idle → Opening → Active → Releasing → Idle`. The `Opening` sentinel
//! makes concurrent starts safe: the first start claims the slot before
//! any slow work, and every other start sees the claim and is refused.

use vstd::prelude::*;

verus! {

/// Phase of the session slot. Times are milliseconds on a monotonic clock.
#[derive(Debug, Clone, Copy, PartialEq, Eq, Structural)]
pub enum SessionSlot {
    Idle,
    /// A start has claimed the slot and is opening capture and storage.
    Opening,
    /// Session `id`, started at `started_at_ms`.
    Active { id: i64, started_at_ms: u64 },
    /// A stop is waiting for the audio devices to be released.
    Releasing,
}

/// Why a start was refused or failed before a session opened.
#[derive(Debug, Clone, Copy, PartialEq, Eq, Structural)]
pub enum StartError {
    /// Another start is in flight.
    StartInFlight,
    /// A session is already active.
    AlreadyActive,
    /// A session is still releasing its devices.
    Finishing,
    /// No audio source was requested.
    NoSources,
    /// No transcription model is loaded.
    NoTranscriber,
    /// Every source failed to open a transcription stream.
    AllStreamsFailed,
}

/// The user-facing message for each start error.
pub open spec fn start_message_spec(e: StartError) -> Seq<char> {
    match e {
        StartError::StartInFlight => "another start is already in flight; wait for it to finish"@,
        StartError::AlreadyActive => "meeting session already active; stop the current one first"@,
        StartError::Finishing => "a meeting session is finishing; wait before starting a new one"@,
        StartError::NoSources => "meeting session needs at least one audio source"@,
        StartError::NoTranscriber => "no transcription model loaded; load a model before starting a meeting session"@,
        StartError::AllStreamsFailed => "all audio sources failed to open transcription streams; check microphone and screen-recording permissions"@,
    }
}

impl StartError {
    /// The user-facing message for the error.
    pub fn message(self) -> (r: &'static str)
        ensures
            r@ == start_message_spec(self),
    {
        match self {
            StartError::StartInFlight => "another start is already in flight; wait for it to finish",
            StartError::AlreadyActive => "meeting session already active; stop the current one first",
            StartError::Finishing => "a meeting session is finishing; wait before starting a new one",
            StartError::NoSources => "meeting session needs at least one audio source",
            StartError::NoTranscriber => "no transcription model loaded; load a model before starting a meeting session",
            StartError::AllStreamsFailed => "all audio sources failed to open transcription streams; check microphone and screen-recording permissions",
        }
    }
}

/// The outcome of a claim attempt on a slot in phase `s`.
pub open spec fn claim_spec(s: SessionSlot) -> (SessionSlot, Result<(), StartError>) {
    match s {
        SessionSlot::Idle => (SessionSlot::Opening, Ok(())),
        SessionSlot::Opening => (s, Err(StartError::StartInFlight)),
        SessionSlot::Active { .. } => (s, Err(StartError::AlreadyActive)),
        SessionSlot::Releasing => (s, Err(StartError::Finishing)),
    }
}

/// The outcome of checking a claimed start with `source_count` sources
/// and a model loaded or not: sources first, then the model; a refusal
/// releases the claim.
pub open spec fn check_spec(source_count: nat, transcriber_loaded: bool) -> (SessionSlot, Result<(), StartError>) {
    if source_count == 0 {
        (SessionSlot::Idle, Err(StartError::NoSources))
    } else if !transcriber_loaded {
        (SessionSlot::Idle, Err(StartError::NoTranscriber))
    } else {
        (SessionSlot::Opening, Ok(()))
    }
}

/// The phase after a stop request, and the session it took, if any.
pub open spec fn stop_spec(s: SessionSlot) -> (SessionSlot, Option<(i64, u64)>) {
    match s {
        SessionSlot::Active { id, started_at_ms } => (SessionSlot::Releasing, Some((id, started_at_ms))),
        _ => (s, None),
    }
}

/// `a - b`, saturating at the `i64` bounds.
pub open spec fn sat_sub_i64(a: i64, b: i64) -> i64 {
    if a - b > i64::MAX {
        i64::MAX
    } else if a - b < i64::MIN {
        i64::MIN
    } else {
        (a - b) as i64
    }
}

impl SessionSlot {
    /// A fresh, idle slot.
    pub fn new() -> (r: Self)
        ensures
            r == SessionSlot::Idle,
    {
        SessionSlot::Idle
    }

    /// Claims the slot for a start: only an idle slot can be claimed, and
    /// it becomes `Opening`; otherwise the start is refused and the slot
    /// keeps its phase.
    pub fn claim_for_start(&mut self) -> (r: Result<(), StartError>)
        ensures
            (*final(self), r) == claim_spec(*old(self)),
    {
        match *self {
            SessionSlot::Idle => {
                *self = SessionSlot::Opening;
                Ok(())
            },
            SessionSlot::Opening => Err(StartError::StartInFlight),
            SessionSlot::Active { .. } => Err(StartError::AlreadyActive),
            SessionSlot::Releasing => Err(StartError::Finishing),
        }
    }

    /// Checks a claimed start before any device is opened: sources are
    /// needed first, then a loaded model. On failure the claim is released.
    pub fn check_start(&mut self, source_count: usize, transcriber_loaded: bool) -> (r: Result<(), StartError>)
        requires
            *old(self) == SessionSlot::Opening,
        ensures
            source_count == 0 ==> r == Err::<(), StartError>(StartError::NoSources),
            source_count > 0 && !transcriber_loaded ==> r == Err::<(), StartError>(
                StartError::NoTranscriber,
            ),
            source_count > 0 && transcriber_loaded ==> r is Ok,
            r is Ok ==> *final(self) == SessionSlot::Opening,
            r is Err ==> *final(self) == SessionSlot::Idle,
            (*final(self), r) == check_spec(source_count as nat, transcriber_loaded),
    {
        if source_count == 0 {
            *self = SessionSlot::Idle;
            return Err(StartError::NoSources);
        }
        if !transcriber_loaded {
            *self = SessionSlot::Idle;
            return Err(StartError::NoTranscriber);
        }
        Ok(())
    }

    /// Releases a claim after a later start step failed.
    pub fn abort_start(&mut self)
        requires
            *old(self) == SessionSlot::Opening,
        ensures
            *final(self) == SessionSlot::Idle,
    {
        *self = SessionSlot::Idle;
    }

    /// Commits a claimed start as the active session `id`.
    pub fn commit_active(&mut self, id: i64, started_at_ms: u64)
        requires
            *old(self) == SessionSlot::Opening,
        ensures
            *final(self) == (SessionSlot::Active { id, started_at_ms }),
    {
        *self = SessionSlot::Active { id, started_at_ms };
    }

    /// Takes the active session out for a stop: an active slot becomes
    /// `Releasing` and yields the session; any other phase is kept and
    /// there is nothing to stop.
    pub fn take_for_stop(&mut self) -> (r: Option<(i64, u64)>)
        ensures
            (*final(self), r) == stop_spec(*old(self)),
    {
        match *self {
            SessionSlot::Active { id, started_at_ms } => {
                *self = SessionSlot::Releasing;
                Some((id, started_at_ms))
            },
            _ => None,
        }
    }

    /// Returns a releasing slot to idle once the devices are free.
    pub fn finish_release(&mut self)
        ensures
            *old(self) == SessionSlot::Releasing ==> *final(self) == SessionSlot::Idle,
            *old(self) != SessionSlot::Releasing ==> *final(self) == *old(self),
    {
        if let SessionSlot::Releasing = *self {
            *self = SessionSlot::Idle;
        }
    }

    /// The active session's id, if a session is active.
    pub fn active_session_id(&self) -> (r: Option<i64>)
        ensures
            match *self {
                SessionSlot::Active { id, .. } => r == Some(id),
                _ => r is None,
            },
    {
        match *self {
            SessionSlot::Active { id, .. } => Some(id),
            _ => None,
        }
    }

    /// Whether a session is active.
    pub fn has_active_session(&self) -> (r: bool)
        ensures
            r == (*self is Active),
    {
        match *self {
            SessionSlot::Active { .. } => true,
            _ => false,
        }
    }

    /// Where a dictation of `duration_ms` that just ended at `now_ms` sits
    /// in the active session: `(id, start, end)` in session milliseconds,
    /// ending at the session's age and starting `duration_ms` earlier,
    /// clamped at zero. `None` when no session is active.
    pub fn append_window(&self, now_ms: u64, duration_ms: i64) -> (r: Option<(i64, i64, i64)>)
        ensures
            match *self {
                SessionSlot::Active { id, started_at_ms } => {
                    let age = if now_ms < started_at_ms { 0 } else { now_ms - started_at_ms };
                    let end = if age > i64::MAX { i64::MAX } else { age as i64 };
                    let start = sat_sub_i64(end, duration_ms);
                    r == Some((id, if start < 0 { 0i64 } else { start }, end))
                },
                _ => r is None,
            },
    {
        match *self {
            SessionSlot::Active { id, started_at_ms } => {
                let age = now_ms.saturating_sub(started_at_ms);
                let end: i64 = if age > 9223372036854775807u64 {
                    i64::MAX
                } else {
                    age as i64
                };
                let diff: i128 = end as i128 - duration_ms as i128;
                let start: i64 = if diff > i64::MAX as i128 {
                    i64::MAX
                } else if diff < i64::MIN as i128 {
                    i64::MIN
                } else {
                    diff as i64
                };
                let start = if start < 0 {
                    0
                } else {
                    start
                };
                Some((id, start, end))
            },
            _ => None,
        }
    }
}

/// Whether every per-source transcription stream failed to open.
pub fn all_streams_failed(opened: &Vec<bool>) -> (r: bool)
    ensures
        r == (forall|i: int| 0 <= i < opened@.len() ==> !(#[trigger] opened@[i])),
{
    let mut i: usize = 0;
    while i < opened.len()
        invariant
            i <= opened@.len(),
            forall|j: int| 0 <= j < i ==> !(#[trigger] opened@[j]),
        decreases opened@.len() - i,
    {
        if opened[i] {
            return false;
        }
        i = i + 1;
    }
    true
}

/// The user-facing reason for a source whose pre-start capture failed.
pub fn prewarm_failure_reason(device_lost: bool) -> (r: &'static str)
    ensures
        r@ == (if device_lost {
            "audio device disconnected before session start"@
        } else {
            "audio capture pre-warm failed at session start"@
        }),
{
    if device_lost {
        "audio device disconnected before session start"
    } else {
        "audio capture pre-warm failed at session start"
    }
}

/// Starts are exclusive: once a claim succeeded, every further claim is
/// refused until the slot is idle again, and a refused claim changes
/// nothing.
pub proof fn law_claim_is_exclusive(s: SessionSlot)
    ensures
        claim_spec(s).1 is Ok ==> claim_spec(claim_spec(s).0).1 is Err,
        claim_spec(s).1 is Err ==> claim_spec(s).0 == s,
        (claim_spec(s).1 is Ok) == (s == SessionSlot::Idle),
{
}

/// A start that fails after claiming an idle slot leaves the slot idle, so
/// a later start can claim it again: a refused check releases the claim
/// itself, and any later failure (a device, the session row, or every
/// stream) releases it through `abort_start`; only a start that passed
/// its checks keeps the claim until it commits or aborts.
pub proof fn law_failed_start_frees_slot(source_count: nat, transcriber_loaded: bool)
    ensures
        claim_spec(SessionSlot::Idle) == (SessionSlot::Opening, Ok::<(), StartError>(())),
        check_spec(source_count, transcriber_loaded).1 is Err ==> check_spec(
            source_count,
            transcriber_loaded,
        ).0 == SessionSlot::Idle && claim_spec(check_spec(source_count, transcriber_loaded).0).1 is Ok,
        check_spec(source_count, transcriber_loaded).1 is Ok <==> source_count > 0 && transcriber_loaded,
        check_spec(source_count, transcriber_loaded).1 is Ok ==> check_spec(
            source_count,
            transcriber_loaded,
        ).0 == SessionSlot::Opening,
{
}

/// A stop only ever takes an active session, and the session it takes is
/// the one the start committed; after a stop nothing is active.
pub proof fn law_stop_takes_committed(id: i64, started_at_ms: u64)
    ensures
        stop_spec(SessionSlot::Active { id, started_at_ms }) == (
            SessionSlot::Releasing,
            Some((id, started_at_ms)),
        ),
        stop_spec(SessionSlot::Idle).1 is None,
        stop_spec(SessionSlot::Opening).1 is None,
        stop_spec(SessionSlot::Releasing).1 is None,
        !(stop_spec(SessionSlot::Active { id, started_at_ms }).0 is Active),
{
}

} // verus!

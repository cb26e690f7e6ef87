//! Decisions of the meeting pump between its I/O steps: the per-source
//! device-loss / reconnect state machine, the cadence of reconnect
//! checks, moving a recreated stream's utterances onto the meeting clock,
//! and counting finals and blank finals per tick.

use vstd::prelude::*;

use crate::streaming::{utts_view, Utterance, UtteranceView};
use crate::text::{str_eq, trim, trim_str};

verus! {

/// Recovery state of one capture source. `S` names the source.
#[derive(Debug, Clone, PartialEq, Eq)]
pub enum SourceRecoveryState<S> {
    /// Capturing normally.
    Active,
    /// The device was lost and a fallback device is capturing; the
    /// original is remembered so capture can return to it.
    Fallback { original_source: S, original_device_name: String },
    /// The device was lost and no fallback could be opened; nothing is
    /// capturing for this source until the original returns.
    LostAwaitingReconnect { original_source: S, original_device_name: String },
    /// Permanently ended; never reconnected.
    Dead,
}

/// What happened when a source's device disappeared.
#[derive(Debug, Clone, Copy, PartialEq, Eq, Structural)]
pub enum FallbackAttempt {
    /// The source has no fallback (system audio).
    NotApplicable,
    /// A fallback device was opened.
    Opened,
    /// Opening a fallback device failed.
    Failed,
}

/// Whether a lost source may fall back to another device: only
/// microphones have a default to fall back to.
pub fn fallback_applies(source_is_microphone: bool) -> (r: bool)
    ensures
        r == source_is_microphone,
{
    source_is_microphone
}

impl<S> SourceRecoveryState<S> {
    /// The state after the source's device `lost_device` disappeared.
    pub fn after_device_lost(original_source: S, lost_device: String, attempt: FallbackAttempt) -> (r: Self)
        ensures
            r == (match attempt {
                FallbackAttempt::NotApplicable => SourceRecoveryState::<S>::Dead,
                FallbackAttempt::Opened => SourceRecoveryState::Fallback {
                    original_source,
                    original_device_name: lost_device,
                },
                FallbackAttempt::Failed => SourceRecoveryState::LostAwaitingReconnect {
                    original_source,
                    original_device_name: lost_device,
                },
            }),
    {
        match attempt {
            FallbackAttempt::NotApplicable => SourceRecoveryState::Dead,
            FallbackAttempt::Opened => SourceRecoveryState::Fallback {
                original_source,
                original_device_name: lost_device,
            },
            FallbackAttempt::Failed => SourceRecoveryState::LostAwaitingReconnect {
                original_source,
                original_device_name: lost_device,
            },
        }
    }

    /// The source and device to reconnect to, for the two states that
    /// wait for the original device; none for `Active` and `Dead`.
    pub fn reconnect_target(&self) -> (r: Option<(&S, &str)>)
        ensures
            match *self {
                SourceRecoveryState::Fallback { original_source, original_device_name }
                | SourceRecoveryState::LostAwaitingReconnect { original_source, original_device_name } => r
                    matches Some((s, n)) && *s == original_source && n@ == original_device_name@,
                _ => r is None,
            },
    {
        match self {
            SourceRecoveryState::Fallback { original_source, original_device_name }
            | SourceRecoveryState::LostAwaitingReconnect { original_source, original_device_name } => Some(
                (original_source, original_device_name.as_str()),
            ),
            SourceRecoveryState::Active | SourceRecoveryState::Dead => None,
        }
    }

    /// Whether the state waits for a device.
    pub open spec fn awaits_device(&self) -> bool {
        self is Fallback || self is LostAwaitingReconnect
    }

    /// The awaited device's name.
    pub open spec fn awaited_name(&self) -> Seq<char> {
        match *self {
            SourceRecoveryState::Fallback { original_device_name, .. } => original_device_name@,
            SourceRecoveryState::LostAwaitingReconnect { original_device_name, .. } => original_device_name@,
            _ => seq![],
        }
    }

    /// Whether a reconnect should be attempted now: the state waits for a
    /// device and that device is among `listed` devices.
    pub fn should_reconnect(&self, listed: &Vec<String>) -> (r: bool)
        ensures
            r == (self.awaits_device() && exists|k: int|
                0 <= k < listed@.len() && (#[trigger] listed@[k])@ == self.awaited_name()),
    {
        match self.reconnect_target() {
            None => false,
            Some((_, name)) => {
                let mut k: usize = 0;
                while k < listed.len()
                    invariant
                        k <= listed@.len(),
                        self.awaits_device(),
                        name@ == self.awaited_name(),
                        forall|q: int| 0 <= q < k ==> (#[trigger] listed@[q])@ != self.awaited_name(),
                    decreases listed@.len() - k,
                {
                    if str_eq(listed[k].as_str(), name) {
                        return true;
                    }
                    k = k + 1;
                }
                false
            },
        }
    }

    /// The state after a reconnect attempt: capture is active again when
    /// the original device was reopened; otherwise nothing changes.
    pub fn after_reconnect_attempt(self, reopened: bool) -> (r: Self)
        ensures
            r == (if reopened && self.awaits_device() {
                SourceRecoveryState::<S>::Active
            } else {
                self
            }),
    {
        if reopened && (matches!(self, SourceRecoveryState::Fallback { .. })
            || matches!(self, SourceRecoveryState::LostAwaitingReconnect { .. })) {
            SourceRecoveryState::Active
        } else {
            self
        }
    }
}

/// A dead source stays dead: it is never reconnected, whatever devices
/// are listed or reopened; and an active source is never reconnected.
pub proof fn law_dead_is_final<S>(reopened: bool)
    ensures
        !SourceRecoveryState::<S>::Dead.awaits_device(),
        !SourceRecoveryState::<S>::Active.awaits_device(),
        (if reopened && SourceRecoveryState::<S>::Dead.awaits_device() {
            SourceRecoveryState::<S>::Active
        } else {
            SourceRecoveryState::<S>::Dead
        }) == SourceRecoveryState::<S>::Dead,
{
}

/// Reconnect checks run every this many ticks.
pub const RECONNECT_CHECK_INTERVAL: u32 = 10;

/// Advances the tick counter (wrapping) and says whether this tick runs
/// the reconnect check.
pub fn advance_tick(tick_count: u32) -> (r: (u32, bool))
    ensures
        r.0 == (if tick_count == u32::MAX { 0 } else { tick_count + 1 }),
        r.1 == (r.0 % 10 == 0),
{
    let next = tick_count.wrapping_add(1);
    proof {
        if tick_count == u32::MAX {
            assert(next == 0);
        }
    }
    (next, next % RECONNECT_CHECK_INTERVAL == 0)
}

/// The utterance moved `epoch_ms` later.
pub open spec fn shifted(u: UtteranceView, epoch_ms: u64) -> UtteranceView {
    UtteranceView {
        started_at_ms: (u.started_at_ms + epoch_ms) as u64,
        ended_at_ms: (u.ended_at_ms + epoch_ms) as u64,
        ..u
    }
}

/// Whether every utterance of `utts` can be moved by `epoch_ms` without
/// leaving `u64` (the precondition of [`shift_to_meeting_clock`]).
pub fn fits_meeting_clock(utts: &Vec<Utterance>, epoch_ms: u64) -> (r: bool)
    ensures
        r == forall|k: int|
            0 <= k < utts@.len() ==> (#[trigger] utts@[k]).started_at_ms + epoch_ms <= u64::MAX
                && utts@[k].ended_at_ms + epoch_ms <= u64::MAX,
{
    let mut i: usize = 0;
    while i < utts.len()
        invariant
            i <= utts@.len(),
            forall|k: int|
                0 <= k < i ==> (#[trigger] utts@[k]).started_at_ms + epoch_ms <= u64::MAX
                    && utts@[k].ended_at_ms + epoch_ms <= u64::MAX,
        decreases utts@.len() - i,
    {
        if utts[i].started_at_ms > u64::MAX - epoch_ms || utts[i].ended_at_ms > u64::MAX - epoch_ms {
            return false;
        }
        i = i + 1;
    }
    true
}

/// Moves a recreated stream's utterances onto the meeting clock by adding
/// the stream's start offset to both ends.
pub fn shift_to_meeting_clock(utts: &mut Vec<Utterance>, epoch_ms: u64)
    requires
        forall|k: int|
            0 <= k < old(utts)@.len() ==> (#[trigger] old(utts)@[k]).started_at_ms + epoch_ms <= u64::MAX
                && old(utts)@[k].ended_at_ms + epoch_ms <= u64::MAX,
    ensures
        final(utts)@.len() == old(utts)@.len(),
        forall|k: int|
            0 <= k < final(utts)@.len() ==> (#[trigger] final(utts)@[k])@ == shifted(old(utts)@[k]@, epoch_ms),
{
    if epoch_ms == 0 {
        proof {
            assert forall|k: int| 0 <= k < utts@.len() implies (#[trigger] utts@[k])@ == shifted(
                utts@[k]@,
                epoch_ms,
            ) by {
                assert(utts@[k]@ =~= shifted(utts@[k]@, epoch_ms));
            }
        }
        return;
    }
    let ghost orig = utts@;
    let mut k: usize = 0;
    while k < utts.len()
        invariant
            k <= utts@.len(),
            utts@.len() == orig.len(),
            forall|q: int|
                0 <= q < orig.len() ==> (#[trigger] orig[q]).started_at_ms + epoch_ms <= u64::MAX
                    && orig[q].ended_at_ms + epoch_ms <= u64::MAX,
            forall|q: int| 0 <= q < k ==> (#[trigger] utts@[q])@ == shifted(orig[q]@, epoch_ms),
            forall|q: int| k <= q < utts@.len() ==> (#[trigger] utts@[q]) == orig[q],
        decreases utts@.len() - k,
    {
        let mut u = utts[k].duplicate();
        u.started_at_ms = u.started_at_ms + epoch_ms;
        u.ended_at_ms = u.ended_at_ms + epoch_ms;
        let ghost uv = u@;
        utts.set(k, u);
        proof {
            assert(uv =~= shifted(orig[k as int]@, epoch_ms));
        }
        k = k + 1;
    }
}

/// A final that carries no speech: the blank-audio marker or only
/// whitespace.
pub open spec fn is_blank_final(u: UtteranceView) -> bool {
    u.is_final && (u.text == "[BLANK_AUDIO]"@ || trim(u.text).len() == 0)
}

/// Number of finals in `s`.
pub open spec fn finals_count(s: Seq<UtteranceView>) -> nat
    decreases s.len(),
{
    if s.len() == 0 {
        0
    } else {
        finals_count(s.drop_last()) + (if s.last().is_final { 1nat } else { 0nat })
    }
}

/// Number of blank finals in `s`.
pub open spec fn blank_count(s: Seq<UtteranceView>) -> nat
    decreases s.len(),
{
    if s.len() == 0 {
        0
    } else {
        blank_count(s.drop_last()) + (if is_blank_final(s.last()) { 1nat } else { 0nat })
    }
}

proof fn lemma_counts_bounded(s: Seq<UtteranceView>)
    ensures
        blank_count(s) <= finals_count(s) <= s.len(),
    decreases s.len(),
{
    if s.len() > 0 {
        lemma_counts_bounded(s.drop_last());
    }
}

/// Counts the finals and the blank finals of one tick's utterances.
pub fn count_finals(utts: &Vec<Utterance>) -> (r: (usize, usize))
    ensures
        r.0 == finals_count(utts_view(utts@)),
        r.1 == blank_count(utts_view(utts@)),
        r.1 <= r.0 <= utts@.len(),
{
    let mut finals: usize = 0;
    let mut blanks: usize = 0;
    let mut k: usize = 0;
    while k < utts.len()
        invariant
            k <= utts@.len(),
            finals == finals_count(utts_view(utts@.take(k as int))),
            blanks == blank_count(utts_view(utts@.take(k as int))),
            blanks <= finals <= k,
        decreases utts@.len() - k,
    {
        proof {
            let tk = utts_view(utts@.take(k + 1));
            assert(tk.drop_last() =~= utts_view(utts@.take(k as int)));
            assert(tk.last() == utts@[k as int]@);
        }
        let u = &utts[k];
        if u.is_final {
            finals = finals + 1;
            proof {
                reveal_strlit("[BLANK_AUDIO]");
            }
            if str_eq(u.text.as_str(), "[BLANK_AUDIO]") || trim_str(u.text.as_str()).is_empty() {
                blanks = blanks + 1;
            }
        }
        k = k + 1;
    }
    proof {
        assert(utts@.take(utts@.len() as int) =~= utts@);
    }
    (finals, blanks)
}

} // verus!

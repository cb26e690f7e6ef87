//! Meeting Mode auto-start: the persisted mode setting and the per-tick
//! decision of the foreground-app poller.

use vstd::prelude::*;

use crate::app_kind::MeetingAppKind;
use crate::classifier::{classify_spec, AppClassifier, ClassifierView};
use crate::text::str_eq;

verus! {

/// The user's auto-start preference, persisted as `"off"` / `"always"`.
#[derive(Debug, Clone, Copy, PartialEq, Eq, Structural)]
pub enum MeetingAutostartMode {
    /// Never auto-start.
    Off,
    /// Auto-start when a meeting app is in front and the mic activates.
    Always,
}

/// The characters of an optional borrowed string.
pub open spec fn opt_str_ref_view(raw: Option<&str>) -> Option<Seq<char>> {
    match raw {
        Some(s) => Some(s@),
        None => None,
    }
}

/// Mode read from a settings row: only the literal `"off"` disables;
/// absent, `"always"`, the reserved `"ask"` and any other value mean
/// `Always`.
pub open spec fn from_setting_spec(raw: Option<Seq<char>>) -> MeetingAutostartMode {
    if raw == Some("off"@) {
        MeetingAutostartMode::Off
    } else {
        MeetingAutostartMode::Always
    }
}

/// The settings-row string of a mode.
pub open spec fn as_setting_spec(mode: MeetingAutostartMode) -> Seq<char> {
    match mode {
        MeetingAutostartMode::Off => "off"@,
        MeetingAutostartMode::Always => "always"@,
    }
}

impl MeetingAutostartMode {
    /// Parses the persisted settings row (see [`from_setting_spec`]).
    pub fn from_setting(raw: Option<&str>) -> (r: Self)
        ensures
            r == from_setting_spec(opt_str_ref_view(raw)),
    {
        match raw {
            Some(s) => {
                if str_eq(s, "off") {
                    MeetingAutostartMode::Off
                } else {
                    MeetingAutostartMode::Always
                }
            },
            None => MeetingAutostartMode::Always,
        }
    }

    /// The string stored in the settings row for this mode.
    pub fn as_setting(self) -> (r: &'static str)
        ensures
            r@ == as_setting_spec(self),
    {
        match self {
            MeetingAutostartMode::Off => "off",
            MeetingAutostartMode::Always => "always",
        }
    }
}

/// Writing a mode and reading it back gives the same mode.
pub proof fn law_setting_round_trip(mode: MeetingAutostartMode)
    ensures
        from_setting_spec(Some(as_setting_spec(mode))) == mode,
{
    reveal_strlit("off");
    reveal_strlit("always");
    if mode == MeetingAutostartMode::Always {
        assert("always"@[0] != "off"@[0] || "always"@.len() != "off"@.len());
    }
}

/// Verdict of the auto-start rule for one observation.
#[derive(Debug, Clone, PartialEq, Eq)]
pub enum AutostartDecision {
    /// Start a session for the named app.
    Start { app_name: String },
    /// Do nothing.
    Ignore,
}

/// Whether the rule starts a session: mode `Always`, no session active,
/// the app is a meeting app, and the previous observation was not already a
/// meeting app (a fresh poller counts as a transition).
pub open spec fn decide_starts(
    last_kind: Option<MeetingAppKind>,
    kind: MeetingAppKind,
    mode: MeetingAutostartMode,
    session_active: bool,
) -> bool {
    &&& mode == MeetingAutostartMode::Always
    &&& !session_active
    &&& kind == MeetingAppKind::Meeting
    &&& last_kind != Some(MeetingAppKind::Meeting)
}

impl AutostartDecision {
    /// Applies the auto-start rule (see [`decide_starts`]).
    pub fn decide(
        last_kind: Option<MeetingAppKind>,
        kind: MeetingAppKind,
        app_name: &str,
        mode: MeetingAutostartMode,
        session_active: bool,
    ) -> (r: Self)
        ensures
            decide_starts(last_kind, kind, mode, session_active) ==> (r matches AutostartDecision::Start {
                app_name: n,
            } && n@ == app_name@),
            !decide_starts(last_kind, kind, mode, session_active) ==> r is Ignore,
    {
        let was_meeting = match last_kind {
            Some(MeetingAppKind::Meeting) => true,
            _ => false,
        };
        if mode == MeetingAutostartMode::Always && !session_active && kind == MeetingAppKind::Meeting
            && !was_meeting {
            AutostartDecision::Start { app_name: app_name.to_owned() }
        } else {
            AutostartDecision::Ignore
        }
    }
}

/// Snapshot of the currently focused app. Implementations return `None`
/// when no usable foreground app is available.
pub trait ForegroundAppProbe {
    fn current_app_name(&self) -> Option<String>;
}

/// Outcome of one poller tick.
#[derive(Debug, Clone, PartialEq, Eq)]
pub enum TickOutcome {
    /// Nothing to do; keep the remembered kind.
    NoChange,
    /// Mode is `Off`: forget the remembered kind.
    ResetMemory,
    /// Start a session for `app_name`; remember `last_kind`.
    Start { app_name: String, last_kind: MeetingAppKind },
    /// No start; remember the kind observed this tick.
    UpdateMemory { last_kind: MeetingAppKind },
}

/// Mathematical view of a [`TickOutcome`].
pub enum TickOutcomeView {
    NoChange,
    ResetMemory,
    Start { app_name: Seq<char>, last_kind: MeetingAppKind },
    UpdateMemory { last_kind: MeetingAppKind },
}

impl View for TickOutcome {
    type V = TickOutcomeView;

    open spec fn view(&self) -> TickOutcomeView {
        match self {
            TickOutcome::NoChange => TickOutcomeView::NoChange,
            TickOutcome::ResetMemory => TickOutcomeView::ResetMemory,
            TickOutcome::Start { app_name, last_kind } => TickOutcomeView::Start {
                app_name: app_name@,
                last_kind: *last_kind,
            },
            TickOutcome::UpdateMemory { last_kind } => TickOutcomeView::UpdateMemory {
                last_kind: *last_kind,
            },
        }
    }
}

/// The outcome of a tick that observed `app` in front.
pub open spec fn tick_outcome_spec(
    app: Option<Seq<char>>,
    classifier: ClassifierView,
    last_kind: Option<MeetingAppKind>,
    mode: MeetingAutostartMode,
    session_active: bool,
) -> TickOutcomeView {
    if mode == MeetingAutostartMode::Off {
        TickOutcomeView::ResetMemory
    } else {
        match app {
            None => TickOutcomeView::NoChange,
            Some(name) => {
                let kind = classify_spec(classifier.overrides, classifier.entries, name);
                if decide_starts(last_kind, kind, mode, session_active) {
                    TickOutcomeView::Start { app_name: name, last_kind: kind }
                } else {
                    TickOutcomeView::UpdateMemory { last_kind: kind }
                }
            },
        }
    }
}

/// The characters of an optional owned string.
pub open spec fn opt_string_view(s: Option<String>) -> Option<Seq<char>> {
    match s {
        Some(t) => Some(t@),
        None => None,
    }
}

/// Decides one tick given what the probe observed (see [`tick_outcome_spec`]).
pub fn autostart_outcome(
    app_name: Option<String>,
    classifier: &AppClassifier,
    last_kind: Option<MeetingAppKind>,
    mode: MeetingAutostartMode,
    session_active: bool,
) -> (r: TickOutcome)
    ensures
        r@ == tick_outcome_spec(
            opt_string_view(app_name),
            classifier@,
            last_kind,
            mode,
            session_active,
        ),
{
    if mode == MeetingAutostartMode::Off {
        return TickOutcome::ResetMemory;
    }
    let app_name = match app_name {
        Some(n) => n,
        None => return TickOutcome::NoChange,
    };
    let kind = classifier.classify(app_name.as_str());
    match AutostartDecision::decide(last_kind, kind, app_name.as_str(), mode, session_active) {
        AutostartDecision::Start { app_name } => TickOutcome::Start { app_name, last_kind: kind },
        AutostartDecision::Ignore => TickOutcome::UpdateMemory { last_kind: kind },
    }
}

/// Evaluates one poller tick: in `Off` mode resets memory without asking
/// the probe; otherwise asks the probe once and decides on what it saw.
pub fn evaluate_autostart_tick<P: ForegroundAppProbe>(
    probe: &P,
    classifier: &AppClassifier,
    last_kind: Option<MeetingAppKind>,
    mode: MeetingAutostartMode,
    session_active: bool,
) -> (r: TickOutcome)
    ensures
        mode == MeetingAutostartMode::Off ==> r@ == TickOutcomeView::ResetMemory,
        exists|app: Option<Seq<char>>|
            r@ == tick_outcome_spec(app, classifier@, last_kind, mode, session_active),
{
    if mode == MeetingAutostartMode::Off {
        let r = TickOutcome::ResetMemory;
        assert(r@ == tick_outcome_spec(None, classifier@, last_kind, mode, session_active));
        return r;
    }
    let app = probe.current_app_name();
    let r = autostart_outcome(app, classifier, last_kind, mode, session_active);
    assert(r@ == tick_outcome_spec(opt_string_view(app), classifier@, last_kind, mode, session_active));
    r
}

/// A steady meeting app never re-triggers: once the remembered kind is
/// `Meeting`, a tick that sees a meeting app again only updates memory.
pub proof fn law_no_restart_in_steady_meeting(
    name: Seq<char>,
    classifier: ClassifierView,
    mode: MeetingAutostartMode,
    session_active: bool,
)
    ensures
        !(tick_outcome_spec(
            Some(name),
            classifier,
            Some(MeetingAppKind::Meeting),
            mode,
            session_active,
        ) is Start),
{
}

/// An active session blocks any auto-start.
pub proof fn law_active_session_blocks_start(
    app: Option<Seq<char>>,
    classifier: ClassifierView,
    last_kind: Option<MeetingAppKind>,
    mode: MeetingAutostartMode,
)
    ensures
        !(tick_outcome_spec(app, classifier, last_kind, mode, true) is Start),
{
}

} // verus!

//! Classification of the foreground app for Meeting Mode.

use vstd::prelude::*;

verus! {

/// What kind of app a foreground window belongs to.
#[derive(Debug, Clone, Copy, PartialEq, Eq, Structural)]
pub enum MeetingAppKind {
    /// A video-call / meeting app: the only kind that can auto-start a session.
    Meeting,
    /// A media player: never an auto-start trigger.
    Media,
    /// Anything else.
    Other,
}

} // verus!

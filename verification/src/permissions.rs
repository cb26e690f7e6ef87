//! Permission status model: raw OS readings, their decoding, and the
//! three-state health view that tells "never granted" from "revoked".

use vstd::prelude::*;

verus! {

/// Status of one OS-gated permission.
#[derive(Debug, Clone, Copy, PartialEq, Eq, Structural)]
pub enum PermissionStatus {
    Granted,
    Denied,
    NotDetermined,
    /// The platform does not gate this permission.
    NotApplicable,
}

/// Statuses of the three permissions the app touches.
#[derive(Debug, Clone, Copy, PartialEq, Eq, Structural)]
pub struct PermissionStatuses {
    pub microphone: PermissionStatus,
    pub screen_recording: PermissionStatus,
    pub input_monitoring: PermissionStatus,
}

/// Health of one permission.
#[derive(Debug, Clone, Copy, PartialEq, Eq, Structural)]
pub enum PermissionHealth {
    /// Currently granted.
    Confirmed,
    /// Granted before (a confirmation is on record) but not now.
    Stale,
    /// Not granted and never confirmed.
    NotGranted,
    NotApplicable,
}

/// Health of the three permissions.
#[derive(Debug, Clone, Copy, PartialEq, Eq, Structural)]
pub struct PermissionsHealth {
    pub microphone: PermissionHealth,
    pub screen_recording: PermissionHealth,
    pub input_monitoring: PermissionHealth,
}

/// Health from a status and whether a past confirmation is on record.
pub open spec fn health_spec(status: PermissionStatus, has_history: bool) -> PermissionHealth {
    match status {
        PermissionStatus::Granted => PermissionHealth::Confirmed,
        PermissionStatus::NotApplicable => PermissionHealth::NotApplicable,
        _ => if has_history {
            PermissionHealth::Stale
        } else {
            PermissionHealth::NotGranted
        },
    }
}

/// Health of one permission: granted is confirmed, not-applicable passes
/// through, and a denial is stale when a confirmation is on record.
pub fn classify_health(status: PermissionStatus, last_confirmed: Option<&str>) -> (r: PermissionHealth)
    ensures
        r == health_spec(status, last_confirmed is Some),
{
    match status {
        PermissionStatus::Granted => PermissionHealth::Confirmed,
        PermissionStatus::NotApplicable => PermissionHealth::NotApplicable,
        PermissionStatus::Denied | PermissionStatus::NotDetermined => match last_confirmed {
            Some(_) => PermissionHealth::Stale,
            None => PermissionHealth::NotGranted,
        },
    }
}

/// Combines the three statuses with their confirmation records. Input
/// monitoring has no record, so a denial there is never stale.
pub fn evaluate_permissions_health(
    statuses: PermissionStatuses,
    screen_recording_last_confirmed: Option<&str>,
    microphone_last_confirmed: Option<&str>,
) -> (r: PermissionsHealth)
    ensures
        r.microphone == health_spec(statuses.microphone, microphone_last_confirmed is Some),
        r.screen_recording == health_spec(
            statuses.screen_recording,
            screen_recording_last_confirmed is Some,
        ),
        r.input_monitoring == health_spec(statuses.input_monitoring, false),
{
    PermissionsHealth {
        microphone: classify_health(statuses.microphone, microphone_last_confirmed),
        screen_recording: classify_health(statuses.screen_recording, screen_recording_last_confirmed),
        input_monitoring: classify_health(statuses.input_monitoring, None),
    }
}

/// Screen Recording is no longer needed (system audio uses a process tap),
/// so its status is always not-applicable.
pub fn screen_recording_status() -> (r: PermissionStatus)
    ensures
        r == PermissionStatus::NotApplicable,
{
    PermissionStatus::NotApplicable
}

/// Decodes an `AVAuthorizationStatus`: 0 not determined, 1 restricted and
/// 2 denied (both `Denied`), 3 authorized; anything else not determined.
pub fn microphone_status_from_raw(raw: i32) -> (r: PermissionStatus)
    ensures
        r == (if raw == 3 {
            PermissionStatus::Granted
        } else if raw == 1 || raw == 2 {
            PermissionStatus::Denied
        } else {
            PermissionStatus::NotDetermined
        }),
{
    if raw == 3 {
        PermissionStatus::Granted
    } else if raw == 1 || raw == 2 {
        PermissionStatus::Denied
    } else {
        PermissionStatus::NotDetermined
    }
}

/// Decodes an `IOHIDAccessType`: 0 granted, 2 denied, anything else not
/// determined.
pub fn input_monitoring_status_from_raw(raw: u32) -> (r: PermissionStatus)
    ensures
        r == (if raw == 0 {
            PermissionStatus::Granted
        } else if raw == 2 {
            PermissionStatus::Denied
        } else {
            PermissionStatus::NotDetermined
        }),
{
    if raw == 0 {
        PermissionStatus::Granted
    } else if raw == 2 {
        PermissionStatus::Denied
    } else {
        PermissionStatus::NotDetermined
    }
}

/// The statuses on a platform that gates none of the permissions.
pub fn statuses_not_applicable() -> (r: PermissionStatuses)
    ensures
        r.microphone == PermissionStatus::NotApplicable,
        r.screen_recording == PermissionStatus::NotApplicable,
        r.input_monitoring == PermissionStatus::NotApplicable,
{
    PermissionStatuses {
        microphone: PermissionStatus::NotApplicable,
        screen_recording: PermissionStatus::NotApplicable,
        input_monitoring: PermissionStatus::NotApplicable,
    }
}

/// The statuses on a platform that gates the microphone and input
/// monitoring, from the raw OS readings; screen recording is never needed.
pub fn statuses_from_raw(microphone_raw: i32, input_monitoring_raw: u32) -> (r: PermissionStatuses)
    ensures
        r.microphone == (if microphone_raw == 3 {
            PermissionStatus::Granted
        } else if microphone_raw == 1 || microphone_raw == 2 {
            PermissionStatus::Denied
        } else {
            PermissionStatus::NotDetermined
        }),
        r.screen_recording == PermissionStatus::NotApplicable,
        r.input_monitoring == (if input_monitoring_raw == 0 {
            PermissionStatus::Granted
        } else if input_monitoring_raw == 2 {
            PermissionStatus::Denied
        } else {
            PermissionStatus::NotDetermined
        }),
{
    PermissionStatuses {
        microphone: microphone_status_from_raw(microphone_raw),
        screen_recording: screen_recording_status(),
        input_monitoring: input_monitoring_status_from_raw(input_monitoring_raw),
    }
}

/// Current grant state of the three permissions. This library's platform
/// layer gates none of them, so every status is not-applicable; a build
/// with an OS permission layer reads the raw values and decodes them with
/// [`microphone_status_from_raw`] and [`input_monitoring_status_from_raw`].
pub fn read_all() -> (r: PermissionStatuses)
    ensures
        r.microphone == PermissionStatus::NotApplicable,
        r.screen_recording == PermissionStatus::NotApplicable,
        r.input_monitoring == PermissionStatus::NotApplicable,
{
    statuses_not_applicable()
}

/// Current microphone permission status, read without prompting; not
/// applicable where the platform does not gate the microphone.
pub fn microphone_status() -> (r: PermissionStatus)
    ensures
        r == PermissionStatus::NotApplicable,
{
    PermissionStatus::NotApplicable
}

/// Asks for input-monitoring access; where the platform does not gate it
/// the answer is granted.
pub fn request_input_monitoring_permission() -> (r: bool)
    ensures
        r,
{
    true
}

/// Asks for microphone access; nothing to ask where the platform does not
/// gate the microphone.
pub fn request_microphone_permission() {
}

/// A live grant always reads as confirmed, whatever the record says; and
/// the record decides only between stale and never-granted.
pub proof fn law_grant_wins(has_history: bool)
    ensures
        health_spec(PermissionStatus::Granted, has_history) == PermissionHealth::Confirmed,
        health_spec(PermissionStatus::Denied, has_history) == (if has_history {
            PermissionHealth::Stale
        } else {
            PermissionHealth::NotGranted
        }),
{
}

} // verus!

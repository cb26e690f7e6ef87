use hush::permissions::{
    classify_health, evaluate_permissions_health, input_monitoring_status_from_raw,
    microphone_status, microphone_status_from_raw, read_all, request_input_monitoring_permission,
    request_microphone_permission, screen_recording_status, statuses_from_raw, PermissionHealth, PermissionStatus,
    PermissionStatuses,
};

#[test]
fn read_all_does_not_panic() {
    let _ = read_all();
}

#[test]
fn non_macos_reports_not_applicable() {
    let s = read_all();
    assert_eq!(s.microphone, PermissionStatus::NotApplicable);
    assert_eq!(s.screen_recording, PermissionStatus::NotApplicable);
    assert_eq!(s.input_monitoring, PermissionStatus::NotApplicable);
}

#[test]
fn classify_granted_is_confirmed_regardless_of_last_confirmed() {
    assert_eq!(classify_health(PermissionStatus::Granted, None), PermissionHealth::Confirmed);
    assert_eq!(
        classify_health(PermissionStatus::Granted, Some("2026-04-01T10:00:00Z")),
        PermissionHealth::Confirmed
    );
}

#[test]
fn classify_denied_with_history_is_stale() {
    assert_eq!(
        classify_health(PermissionStatus::Denied, Some("2026-04-01T10:00:00Z")),
        PermissionHealth::Stale
    );
    assert_eq!(
        classify_health(PermissionStatus::NotDetermined, Some("2026-04-01T10:00:00Z")),
        PermissionHealth::Stale
    );
}

#[test]
fn classify_denied_without_history_is_not_granted() {
    assert_eq!(classify_health(PermissionStatus::Denied, None), PermissionHealth::NotGranted);
    assert_eq!(classify_health(PermissionStatus::NotDetermined, None), PermissionHealth::NotGranted);
}

#[test]
fn classify_not_applicable_passes_through() {
    assert_eq!(classify_health(PermissionStatus::NotApplicable, None), PermissionHealth::NotApplicable);
    assert_eq!(
        classify_health(PermissionStatus::NotApplicable, Some("2026-04-01T10:00:00Z")),
        PermissionHealth::NotApplicable
    );
}

#[test]
fn evaluate_combines_three_permissions_with_independent_history() {
    let statuses = PermissionStatuses {
        microphone: PermissionStatus::Granted,
        screen_recording: PermissionStatus::Denied,
        input_monitoring: PermissionStatus::NotDetermined,
    };
    let health = evaluate_permissions_health(statuses, Some("2026-04-30T14:00:00Z"), None);
    assert_eq!(health.microphone, PermissionHealth::Confirmed);
    assert_eq!(health.screen_recording, PermissionHealth::Stale);
    assert_eq!(health.input_monitoring, PermissionHealth::NotGranted);
}

#[test]
fn input_monitoring_history_is_never_consulted() {
    let statuses = PermissionStatuses {
        microphone: PermissionStatus::Denied,
        screen_recording: PermissionStatus::Granted,
        input_monitoring: PermissionStatus::Denied,
    };
    let health = evaluate_permissions_health(statuses, None, Some("2026-04-30T14:00:00Z"));
    assert_eq!(health.microphone, PermissionHealth::Stale);
    assert_eq!(health.screen_recording, PermissionHealth::Confirmed);
    assert_eq!(health.input_monitoring, PermissionHealth::NotGranted);
}

#[test]
fn raw_statuses_decode() {
    assert_eq!(microphone_status_from_raw(0), PermissionStatus::NotDetermined);
    assert_eq!(microphone_status_from_raw(1), PermissionStatus::Denied);
    assert_eq!(microphone_status_from_raw(2), PermissionStatus::Denied);
    assert_eq!(microphone_status_from_raw(3), PermissionStatus::Granted);
    assert_eq!(microphone_status_from_raw(42), PermissionStatus::NotDetermined);
    assert_eq!(input_monitoring_status_from_raw(0), PermissionStatus::Granted);
    assert_eq!(input_monitoring_status_from_raw(1), PermissionStatus::NotDetermined);
    assert_eq!(input_monitoring_status_from_raw(2), PermissionStatus::Denied);
}

#[test]
fn ungated_platform_probes() {
    assert_eq!(microphone_status(), PermissionStatus::NotApplicable);
    assert_eq!(screen_recording_status(), PermissionStatus::NotApplicable);
    assert!(request_input_monitoring_permission());
    request_microphone_permission();
}

#[test]
fn gated_platform_statuses_from_raw_readings() {
    let s = statuses_from_raw(3, 2);
    assert_eq!(s.microphone, PermissionStatus::Granted);
    assert_eq!(s.screen_recording, PermissionStatus::NotApplicable);
    assert_eq!(s.input_monitoring, PermissionStatus::Denied);
    let s = statuses_from_raw(0, 1);
    assert_eq!(s.microphone, PermissionStatus::NotDetermined);
    assert_eq!(s.input_monitoring, PermissionStatus::NotDetermined);
}

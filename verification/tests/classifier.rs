use hush::app_kind::MeetingAppKind;
use hush::classifier::AppClassifier;

#[test]
fn classifier_recognises_default_meeting_apps() {
    let c = AppClassifier::default_table();
    assert_eq!(c.classify("us.zoom.xos"), MeetingAppKind::Meeting);
    assert_eq!(c.classify("Microsoft Teams"), MeetingAppKind::Meeting);
    assert_eq!(c.classify("Discord"), MeetingAppKind::Meeting);
}

#[test]
fn classifier_recognises_meeting_apps_across_platforms() {
    let c = AppClassifier::default_table();
    assert_eq!(c.classify("us.zoom.xos"), MeetingAppKind::Meeting);
    assert_eq!(c.classify("com.microsoft.teams2"), MeetingAppKind::Meeting);
    assert_eq!(c.classify("com.hnc.Discord"), MeetingAppKind::Meeting);
    assert_eq!(c.classify("com.tinyspeck.slackmacgap"), MeetingAppKind::Meeting);
    assert_eq!(c.classify("zoom"), MeetingAppKind::Meeting);
    assert_eq!(c.classify("discord"), MeetingAppKind::Meeting);
    assert_eq!(c.classify("slack"), MeetingAppKind::Meeting);
    assert_eq!(c.classify("teams-for-linux"), MeetingAppKind::Meeting);
    assert_eq!(c.classify("Zoom.exe"), MeetingAppKind::Meeting);
    assert_eq!(c.classify("ms-teams.exe"), MeetingAppKind::Meeting);
    assert_eq!(c.classify("Discord.exe"), MeetingAppKind::Meeting);
    assert_eq!(c.classify("slack.exe"), MeetingAppKind::Meeting);
    assert_eq!(c.classify("Webex.exe"), MeetingAppKind::Meeting);
    assert_eq!(c.classify("Skype.exe"), MeetingAppKind::Meeting);
}

#[test]
fn classifier_recognises_default_media_apps() {
    let c = AppClassifier::default_table();
    assert_eq!(c.classify("Spotify"), MeetingAppKind::Media);
    assert_eq!(c.classify("YouTube"), MeetingAppKind::Media);
}

#[test]
fn classifier_recognises_media_apps_across_platforms() {
    let c = AppClassifier::default_table();
    assert_eq!(c.classify("com.spotify.client"), MeetingAppKind::Media);
    assert_eq!(c.classify("Apple Music"), MeetingAppKind::Media);
    assert_eq!(c.classify("spotify"), MeetingAppKind::Media);
    assert_eq!(c.classify("vlc"), MeetingAppKind::Media);
    assert_eq!(c.classify("Spotify.exe"), MeetingAppKind::Media);
    assert_eq!(c.classify("vlc.exe"), MeetingAppKind::Media);
    assert_eq!(c.classify("Plex.exe"), MeetingAppKind::Media);
    assert_eq!(c.classify("iTunes.exe"), MeetingAppKind::Media);
}

#[test]
fn classifier_returns_other_for_unknown_apps() {
    let c = AppClassifier::default_table();
    assert_eq!(c.classify("RandomEditor.app"), MeetingAppKind::Other);
    assert_eq!(c.classify(""), MeetingAppKind::Other);
}

#[test]
fn classifier_override_overrides_a_default_meeting_app() {
    let c = AppClassifier::with_overrides(vec![("Slack".into(), MeetingAppKind::Other)]);
    assert_eq!(c.classify("Slack"), MeetingAppKind::Other);
}

#[test]
fn classifier_override_classifies_unknown_app() {
    let c = AppClassifier::with_overrides(vec![("com.acme.huddle".into(), MeetingAppKind::Meeting)]);
    assert_eq!(c.classify("com.acme.huddle"), MeetingAppKind::Meeting);
}

#[test]
fn classifier_override_promotes_a_default_media_app() {
    let c = AppClassifier::with_overrides(vec![("YouTube".into(), MeetingAppKind::Meeting)]);
    assert_eq!(c.classify("YouTube"), MeetingAppKind::Meeting);
}

#[test]
fn classifier_override_does_not_affect_other_apps() {
    let c = AppClassifier::with_overrides(vec![("com.acme.huddle".into(), MeetingAppKind::Meeting)]);
    assert_eq!(c.classify("Spotify"), MeetingAppKind::Media);
    assert_eq!(c.classify("us.zoom.xos"), MeetingAppKind::Meeting);
}

#[test]
fn classifier_matching_is_exact_not_prefix_or_case_folded() {
    let c = AppClassifier::default_table();
    assert_eq!(c.classify("Zoom Helper"), MeetingAppKind::Other);
    assert_eq!(c.classify("SPOTIFY"), MeetingAppKind::Other);
}

#[test]
fn default_entries_lists_the_default_table() {
    let c = AppClassifier::default_table();
    let entries = c.default_entries();
    assert!(!entries.is_empty());
    for (name, kind) in &entries {
        // Each default entry classifies as its own kind when no override shadows it.
        assert_eq!(c.classify(name), *kind);
    }
    assert!(entries.iter().any(|(n, k)| n == "Spotify" && *k == MeetingAppKind::Media));
}

#[test]
fn first_override_for_the_same_app_wins() {
    let c = AppClassifier::with_overrides(vec![
        ("Zoom".into(), MeetingAppKind::Other),
        ("Zoom".into(), MeetingAppKind::Media),
    ]);
    assert_eq!(c.classify("Zoom"), MeetingAppKind::Other);
}

#[test]
fn every_default_entry_classifies_to_itself() {
    let c = AppClassifier::default_table();
    let entries = c.default_entries();
    assert_eq!(entries.len(), 68);
    for (name, kind) in entries {
        assert_ne!(kind, MeetingAppKind::Other);
        assert_eq!(c.classify(&name), kind, "{name}");
    }
}

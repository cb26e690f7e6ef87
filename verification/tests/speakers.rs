use hush::speakers::{
    cluster_eligible, cluster_speaker_label, decide_identity, IdentityAction, MemSpeakerStore,
    SpeakerIdentity, MIN_UTTERANCE_COUNT_FOR_MATCH,
};

#[test]
fn cold_start_guard() {
    assert_eq!(MIN_UTTERANCE_COUNT_FOR_MATCH, 5);
    assert!(!cluster_eligible(4));
    assert!(cluster_eligible(5));
    assert!(cluster_eligible(50));
}

#[test]
fn cluster_labels_count_from_one() {
    assert_eq!(cluster_speaker_label(0), "Speaker 1");
    assert_eq!(cluster_speaker_label(11), "Speaker 12");
}

#[test]
fn identity_decision() {
    assert_eq!(
        decide_identity(Some((3, 10, true)), 7),
        IdentityAction::UpdateExisting { id: 3, total_count: 17 }
    );
    assert_eq!(decide_identity(Some((3, 10, false)), 7), IdentityAction::CreateNew);
    assert_eq!(decide_identity(None, 7), IdentityAction::CreateNew);
}

#[test]
fn identity_record_and_store_are_plain_values() {
    let id = SpeakerIdentity {
        id: 1,
        display_name: None,
        utterance_count: 5,
        confidence_state: "provisional".to_owned(),
        created_at: "2026-01-01T00:00:00Z".to_owned(),
        updated_at: "2026-01-01T00:00:00Z".to_owned(),
    };
    assert_eq!(id.clone().confidence_state, "provisional");
    let _store = MemSpeakerStore::default();
}

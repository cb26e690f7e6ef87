use hush::catalog::{default_model, download_url_for, find_by_id, whisper_models};

#[test]
fn catalog_contains_expected_whisper_variants() {
    let ids: Vec<String> = whisper_models().into_iter().map(|m| m.id).collect();
    assert!(ids.contains(&"whisper-tiny".to_string()));
    assert!(ids.contains(&"whisper-base".to_string()));
    assert!(ids.contains(&"whisper-small".to_string()));
    assert!(ids.contains(&"whisper-medium".to_string()));
    assert!(ids.contains(&"whisper-large-v3".to_string()));
}

#[test]
fn exactly_one_default_model() {
    let count = whisper_models().iter().filter(|m| m.is_default).count();
    assert_eq!(count, 1, "catalog should declare exactly one default model");
}

#[test]
fn default_model_is_whisper_base_per_prd() {
    assert_eq!(default_model().id, "whisper-base");
}

#[test]
fn find_by_id_returns_known_model() {
    let m = find_by_id("whisper-tiny").expect("whisper-tiny must be in catalog");
    assert_eq!(m.display_name, "Whisper Tiny");
}

#[test]
fn find_by_id_returns_none_for_unknown() {
    assert!(find_by_id("whisper-imaginary").is_none());
    assert!(find_by_id("").is_none());
}

#[test]
fn ratings_are_within_1_to_10_range() {
    for m in whisper_models() {
        assert!((1..=10).contains(&m.speed_rating), "{} speed_rating out of range: {}", m.id, m.speed_rating);
        assert!(
            (1..=10).contains(&m.accuracy_rating),
            "{} accuracy_rating out of range: {}",
            m.id,
            m.accuracy_rating
        );
    }
}

#[test]
fn size_mb_is_monotonic_with_accuracy() {
    let models = whisper_models();
    let mut prev_size = 0u32;
    let mut prev_acc = 0u8;
    for m in &models {
        assert!(m.size_mb >= prev_size, "{}: size_mb regressed (catalog out of order?)", m.id);
        assert!(m.accuracy_rating >= prev_acc, "{}: accuracy_rating regressed", m.id);
        prev_size = m.size_mb;
        prev_acc = m.accuracy_rating;
    }
}

#[test]
fn download_urls_point_at_the_model_file() {
    let u = download_url_for("ggml-base.bin");
    assert!(u.ends_with("/ggml-base.bin"), "{u}");
    for m in whisper_models() {
        assert_eq!(m.download_url, download_url_for(&m.filename));
        assert_eq!(find_by_id(&m.id).map(|f| f.filename), Some(m.filename.clone()));
    }
}

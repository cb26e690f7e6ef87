use hush::digest::{to_hex_lower, Sha256Stream};
use hush::download::{
    check_expected_sha, download_chunks, sha_eq, with_part_suffix, CancelHandle, Download,
    DownloadError, ProgressUpdate,
};

const FOX_SHA: &str = "9ecb36561341d18eb65484e833efea61edc74b84cf5e6ae1b81c63533e25fc8f";

#[test]
fn sha_compare_is_case_insensitive() {
    assert!(sha_eq("ABCDEF", "abcdef"));
    assert!(sha_eq("0123abcd", "0123ABCD"));
    assert!(!sha_eq("0123", "0124"));
}

#[test]
fn sha_compare_requires_equal_length() {
    assert!(!sha_eq("abc", "abcd"));
    assert!(sha_eq("", ""));
    assert!(!sha_eq("é", "É"));
}

#[test]
fn part_suffix_appends_dot_part() {
    let dest = std::path::PathBuf::from("/tmp/models/foo.bin");
    let part = with_part_suffix(dest.to_str().unwrap());
    assert_eq!(std::path::PathBuf::from(part), std::path::PathBuf::from("/tmp/models/foo.bin.part"));
}

#[test]
fn empty_expected_sha_is_refused() {
    assert_eq!(check_expected_sha(""), Err(DownloadError::MissingSha));
    assert_eq!(check_expected_sha("  \t"), Err(DownloadError::MissingSha));
    assert_eq!(check_expected_sha(FOX_SHA), Ok(()));
    let msg = DownloadError::MissingSha.message();
    assert!(msg.contains("SHA-256"), "got: {msg}");
}

#[test]
fn stream_hashes_known_vector() {
    let mut s = Sha256Stream::new();
    s.update(b"the quick ");
    s.update(b"brown fox");
    assert_eq!(s.finish_hex(), FOX_SHA);
    let empty = Sha256Stream::new().finish_hex();
    assert_eq!(empty, "e3b0c44298fc1c149afbf4c8996fb92427ae41e4649b934ca495991b7852b855");
}

#[test]
fn hex_rendering_is_lower_case_two_digits_per_byte() {
    assert_eq!(to_hex_lower(&[0x00, 0x0f, 0xab, 0xff]), "000fabff");
    assert_eq!(to_hex_lower(&[]), "");
}

#[test]
fn happy_path_accepts_matching_digest_in_any_case() {
    let mut d = Download::new(Some(19));
    let p1 = d.on_chunk(b"the quick ", false).unwrap();
    assert_eq!(p1, ProgressUpdate { bytes_received: 10, bytes_total: Some(19) });
    let p2 = d.on_chunk(b"brown fox", false).unwrap();
    assert_eq!(p2, ProgressUpdate { bytes_received: 19, bytes_total: Some(19) });
    assert_eq!(d.bytes_received(), 19);
    assert_eq!(d.finish(&FOX_SHA.to_uppercase()), Ok(()));
}

#[test]
fn progress_is_monotonic_and_ends_at_the_body_length() {
    let body = vec![0x42_u8; 64 * 1024];
    let mut d = Download::new(None);
    let mut prev = 0;
    for chunk in body.chunks(1000) {
        let p = d.on_chunk(chunk, false).unwrap();
        assert!(p.bytes_received >= prev);
        assert_eq!(p.bytes_total, None);
        prev = p.bytes_received;
    }
    assert_eq!(prev, body.len() as u64);
}

#[test]
fn sha_mismatch_is_reported_with_both_digests() {
    let wrong = "0".repeat(64);
    let mut d = Download::new(Some(19));
    d.on_chunk(b"the quick brown fox", false).unwrap();
    let err = d.finish(&wrong).expect_err("SHA mismatch must surface as error");
    assert_eq!(
        err,
        DownloadError::ShaMismatch { expected: wrong.clone(), actual: FOX_SHA.to_owned() }
    );
    let msg = err.message();
    assert!(msg.contains("SHA-256 mismatch"), "got: {msg}");
    assert_eq!(msg, format!("SHA-256 mismatch: expected {wrong}, got {FOX_SHA}"));
}

#[test]
fn cancelled_chunk_is_refused_and_not_counted() {
    let mut d = Download::new(Some(100));
    d.on_chunk(b"abc", false).unwrap();
    assert_eq!(d.on_chunk(b"def", true), Err(DownloadError::Cancelled));
    assert_eq!(d.bytes_received(), 3);
    assert!(DownloadError::Cancelled.message().contains("cancelled"));
}

#[test]
fn cancel_handle_is_shared_between_clones() {
    let h = CancelHandle::new();
    let c = h.clone();
    assert!(!h.is_cancelled());
    c.cancel();
    assert!(h.is_cancelled());
    assert!(c.is_cancelled());
}

#[test]
fn chunk_sequence_is_accepted_when_its_digest_matches() {
    let chunks = vec![b"the quick ".to_vec(), b"brown fox".to_vec()];
    let (r, progress) = download_chunks(&FOX_SHA.to_uppercase(), Some(19), &chunks, &vec![false, false]);
    assert_eq!(r, Ok(()));
    assert_eq!(
        progress,
        vec![
            ProgressUpdate { bytes_received: 10, bytes_total: Some(19) },
            ProgressUpdate { bytes_received: 19, bytes_total: Some(19) },
        ]
    );
}

#[test]
fn chunk_sequence_with_wrong_digest_is_a_mismatch() {
    let chunks = vec![b"the quick ".to_vec(), b"brown fox".to_vec()];
    let wrong = "0".repeat(64);
    let (r, progress) = download_chunks(&wrong, None, &chunks, &vec![false, false]);
    assert_eq!(r, Err(DownloadError::ShaMismatch { expected: wrong.clone(), actual: FOX_SHA.to_owned() }));
    assert_eq!(progress.len(), 2);
}

#[test]
fn chunk_sequence_stops_at_the_first_cancelled_chunk() {
    let chunks = vec![b"abc".to_vec(), b"def".to_vec(), b"ghi".to_vec()];
    let (r, progress) = download_chunks(FOX_SHA, Some(9), &chunks, &vec![false, true, false]);
    assert_eq!(r, Err(DownloadError::Cancelled));
    assert_eq!(progress, vec![ProgressUpdate { bytes_received: 3, bytes_total: Some(9) }]);
}

#[test]
fn chunk_sequence_with_blank_hash_never_starts() {
    let chunks = vec![b"abc".to_vec()];
    let (r, progress) = download_chunks("  ", None, &chunks, &vec![false]);
    assert_eq!(r, Err(DownloadError::MissingSha));
    assert!(progress.is_empty());
}

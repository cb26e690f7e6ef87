use hush::app_kind::MeetingAppKind;
use hush::export::{
    csv_text_from_bytes, CsvExportError,
    format_relative_timestamp, meeting_session_text, rendered_speaker_label, MeetingSession,
    PersistedUtterance,
};

fn sample_session() -> MeetingSession {
    MeetingSession {
        id: 7,
        app_name: "Microsoft Teams".to_owned(),
        app_kind: MeetingAppKind::Meeting,
        started_at: "2026-04-30T12:39:00Z".to_owned(),
        ended_at: Some("2026-04-30T13:39:00Z".to_owned()),
        speaker_count: Some(2),
        utterance_count: 3,
        notes: Some("Action: send recap".to_owned()),
        sources: Some(vec!["mic".to_owned(), "system".to_owned()]),
        app_title: Some("Q3 sync".to_owned()),
        name: None,
    }
}

fn sample_utterances() -> Vec<PersistedUtterance> {
    vec![
        PersistedUtterance {
            id: 100,
            session_id: 7,
            started_at_ms: 3_000,
            ended_at_ms: 4_500,
            speaker_label: Some("mic".to_owned()),
            text: "Hello everyone, thanks for joining.".to_owned(),
            is_final: true,
            speaker_identity_id: None,
        },
        PersistedUtterance {
            id: 101,
            session_id: 7,
            started_at_ms: 9_200,
            ended_at_ms: 11_000,
            speaker_label: Some("system".to_owned()),
            text: "Hi! Can you share your screen?".to_owned(),
            is_final: true,
            speaker_identity_id: None,
        },
        PersistedUtterance {
            id: 102,
            session_id: 7,
            started_at_ms: 65 * 1000 + 500,
            ended_at_ms: 67 * 1000,
            speaker_label: None,
            text: "Sure, one second.".to_owned(),
            is_final: true,
            speaker_identity_id: None,
        },
    ]
}

#[test]
fn rendered_speaker_label_maps_source_tokens_and_passes_others_through() {
    assert_eq!(rendered_speaker_label(Some("mic")), "You");
    assert_eq!(rendered_speaker_label(Some("system")), "Remote");
    assert_eq!(rendered_speaker_label(Some("Speaker 1")), "Speaker 1");
    assert_eq!(rendered_speaker_label(None), "Unknown");
}

#[test]
fn format_relative_timestamp_pads_each_field_to_two_digits() {
    assert_eq!(format_relative_timestamp(0), "[00:00:00]");
    assert_eq!(format_relative_timestamp(3_500), "[00:00:03]");
    assert_eq!(format_relative_timestamp(65 * 1000), "[00:01:05]");
    assert_eq!(format_relative_timestamp((7 * 3600 + 44 * 60) * 1000), "[07:44:00]");
}

#[test]
fn format_relative_timestamp_clamps_negative_and_keeps_long_hours() {
    assert_eq!(format_relative_timestamp(-5_000), "[00:00:00]");
    assert_eq!(format_relative_timestamp(100 * 3600 * 1000 + 59_999), "[100:00:59]");
}

#[test]
fn meeting_session_text_renders_header_and_utterances() {
    let body = meeting_session_text(&sample_session(), &sample_utterances());
    let lines: Vec<&str> = body.lines().collect();
    assert!(
        lines[0].starts_with("Microsoft Teams · started 2026-04-30T12:39:00Z"),
        "first line: {:?}",
        lines[0]
    );
    assert!(lines[0].ends_with("3 utterances"));
    assert!(lines.contains(&"Sources: mic + system"), "missing sources line: {body}");
    assert!(lines.contains(&"Notes: Action: send recap"), "missing notes line: {body}");
    assert!(
        lines.iter().any(|l| l.contains("[00:00:03] You: Hello")),
        "expected `You` for mic-source utterance: {body}"
    );
    assert!(
        lines.iter().any(|l| l.contains("[00:00:09] Remote: Hi!")),
        "expected `Remote` for system-source utterance: {body}"
    );
    assert!(
        lines.iter().any(|l| l.contains("[00:01:05] Unknown: Sure, one second.")),
        "expected `Unknown` for null-speaker utterance: {body}"
    );
}

#[test]
fn meeting_session_text_exact_layout() {
    let body = meeting_session_text(&sample_session(), &sample_utterances());
    assert_eq!(
        body,
        "Microsoft Teams · started 2026-04-30T12:39:00Z · 3 utterances\n\
         Sources: mic + system\n\
         Notes: Action: send recap\n\
         \n\
         [00:00:03] You: Hello everyone, thanks for joining.\n\
         [00:00:09] Remote: Hi! Can you share your screen?\n\
         [00:01:05] Unknown: Sure, one second.\n"
    );
}

#[test]
fn meeting_session_text_singular_and_omitted_lines() {
    let mut s = sample_session();
    s.utterance_count = 1;
    s.notes = Some(String::new());
    s.sources = Some(vec![]);
    let body = meeting_session_text(&s, &[]);
    assert_eq!(body, "Microsoft Teams · started 2026-04-30T12:39:00Z · 1 utterance\n\n");
    s.sources = None;
    s.notes = None;
    s.utterance_count = 0;
    let body = meeting_session_text(&s, &[]);
    assert_eq!(body, "Microsoft Teams · started 2026-04-30T12:39:00Z · 0 utterances\n\n");
}

#[test]
fn meeting_session_csv_renders_one_row_per_utterance_with_rendered_labels() {
    let body = hush::export::meeting_session_csv(&sample_session(), &sample_utterances()).expect("csv ok");
    let lines: Vec<&str> = body.lines().collect();
    assert_eq!(lines.len(), 4, "header + 3 utterances; got: {body}");
    assert_eq!(lines[0], "utterance_id,session_id,started_at_ms,ended_at_ms,speaker_label,text");
    assert!(lines[1].contains(",You,"), "row 1 should have `You`: {:?}", lines[1]);
    assert!(lines[2].contains(",Remote,"), "row 2 should have `Remote`: {:?}", lines[2]);
    assert!(lines[3].contains(",Unknown,"), "row 3 should have `Unknown`: {:?}", lines[3]);
}

#[test]
fn meeting_session_csv_quotes_fields_that_need_it() {
    let body = hush::export::meeting_session_csv(&sample_session(), &sample_utterances()).unwrap();
    let lines: Vec<&str> = body.lines().collect();
    assert_eq!(lines[1], "100,7,3000,4500,You,\"Hello everyone, thanks for joining.\"");
    assert_eq!(lines[3], "102,7,65500,67000,Unknown,\"Sure, one second.\"");
    let empty = hush::export::meeting_session_csv(&sample_session(), &[]).unwrap();
    assert_eq!(empty, "utterance_id,session_id,started_at_ms,ended_at_ms,speaker_label,text\n");
}

#[test]
fn csv_bytes_must_be_utf8() {
    assert_eq!(csv_text_from_bytes(b"a,b\n".to_vec()), Ok("a,b\n".to_owned()));
    assert_eq!(csv_text_from_bytes(vec![0xff, 0xfe]), Err(CsvExportError::NotUtf8));
}

#[test]
fn meeting_session_csv_doubles_quotes_and_quotes_line_breaks() {
    let u = PersistedUtterance {
        id: 5,
        session_id: 7,
        started_at_ms: 0,
        ended_at_ms: 10,
        speaker_label: Some("Ann \"A\"".to_owned()),
        text: "line one\nline two".to_owned(),
        is_final: true,
        speaker_identity_id: None,
    };
    let body = hush::export::meeting_session_csv(&sample_session(), &[u]).unwrap();
    assert_eq!(
        body,
        "utterance_id,session_id,started_at_ms,ended_at_ms,speaker_label,text\n\
         5,7,0,10,\"Ann \"\"A\"\"\",\"line one\nline two\"\n"
    );
}

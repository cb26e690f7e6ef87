//! Meeting session records and their plain-text export: a header with the
//! session metadata, then one line per utterance with a relative
//! timestamp and the rendered speaker label. Raw source tokens (`mic`,
//! `system`) never reach an exported line.

use vstd::prelude::*;

use crate::app_kind::MeetingAppKind;
use crate::text::{dec2, dec_int, push_decimal2, push_decimal_i64, str_eq};
use vstd::utf8::{decode_utf8, encode_utf8, valid_utf8};

verus! {

#[verifier::external_type_specification]
#[verifier::external_body]
pub struct ExCsvError(csv::Error);

/// A CSV writer over an in-memory byte buffer, held in a private field;
/// what the library knows of it is the records written so far.
#[verifier::external_body]
pub struct CsvBuffer {
    wtr: csv::Writer<Vec<u8>>,
}

/// The records written to a CSV buffer so far, each a list of fields.
pub uninterp spec fn csv_records(w: CsvBuffer) -> Seq<Seq<Seq<char>>>;

/// The characters that force a field into quotes: the delimiter, the
/// quote, and both line-ending characters.
pub open spec fn csv_special(c: char) -> bool {
    c == ',' || c == '"' || c == '\r' || c == '\n'
}

/// Whether a field must be quoted.
pub open spec fn csv_needs_quotes(f: Seq<char>) -> bool {
    exists|i: int| 0 <= i < f.len() && csv_special(#[trigger] f[i])
}

/// `f` with every quote doubled.
pub open spec fn csv_double_quotes(f: Seq<char>) -> Seq<char>
    decreases f.len(),
{
    if f.len() == 0 {
        seq![]
    } else {
        csv_double_quotes(f.drop_last()) + if f.last() == '"' {
            seq!['"', '"']
        } else {
            seq![f.last()]
        }
    }
}

/// One field as written: quoted, with quotes doubled, when it holds a
/// special character; as is otherwise.
pub open spec fn csv_field_text(f: Seq<char>) -> Seq<char> {
    if csv_needs_quotes(f) {
        seq!['"'] + csv_double_quotes(f) + seq!['"']
    } else {
        f
    }
}

/// The fields of one record as written, separated by commas.
pub open spec fn csv_fields_text(fs: Seq<Seq<char>>) -> Seq<char>
    decreases fs.len(),
{
    if fs.len() == 0 {
        seq![]
    } else if fs.len() == 1 {
        csv_field_text(fs[0])
    } else {
        csv_fields_text(fs.drop_last()) + seq![','] + csv_field_text(fs.last())
    }
}

/// One record as written: its fields, then `\n`; a record that would
/// write no character at all is written as an empty quoted field.
pub open spec fn csv_record_text(fs: Seq<Seq<char>>) -> Seq<char> {
    if csv_fields_text(fs).len() == 0 {
        seq!['"', '"', '\n']
    } else {
        csv_fields_text(fs) + seq!['\n']
    }
}

/// The text a default-configured CSV writer produces for `records`.
pub open spec fn csv_text(records: Seq<Seq<Seq<char>>>) -> Seq<char>
    decreases records.len(),
{
    if records.len() == 0 {
        seq![]
    } else {
        csv_text(records.drop_last()) + csv_record_text(records.last())
    }
}

/// The bytes a default-configured CSV writer produces for `records`: the
/// UTF-8 encoding of [`csv_text`].
pub open spec fn csv_bytes(records: Seq<Seq<Seq<char>>>) -> Seq<u8> {
    encode_utf8(csv_text(records))
}

/// Calls `csv::Writer::from_writer` on an empty byte vector: a writer
/// with default settings that has written nothing.
#[verifier::external_body]
fn csv_buffer_new() -> (w: CsvBuffer)
    ensures
        csv_records(w) == Seq::<Seq<Seq<char>>>::empty(),
{
    CsvBuffer { wtr: csv::Writer::from_writer(Vec::new()) }
}

/// Calls `csv::Writer::write_record` with `fields`, as many fields as the
/// first record had (any number for the first record). The record then
/// follows everything written before. With a default (not flexible)
/// writer, `write_record` fails only when the field count differs from
/// the first record's or when writing to the underlying writer fails; a
/// byte vector accepts every write, and the `requires` rules out the
/// other case, so every call here succeeds and no buffer is left with a
/// half-written record.
#[verifier::external_body]
fn csv_write_record(w: &mut CsvBuffer, fields: &Vec<String>) -> (r: Result<(), csv::Error>)
    requires
        csv_records(*old(w)).len() == 0 || csv_records(*old(w))[0].len() == fields@.len(),
    ensures
        r is Ok,
        csv_records(*final(w)) == csv_records(*old(w)).push(
            fields@.map_values(|f: String| f@),
        ),
{
    w.wtr.write_record(fields)
}

/// Calls `csv::Writer::into_inner`: flushes and hands back the bytes of
/// every record written, in the default configuration's encoding (comma
/// delimiter, `\n` terminator, quotes only where a field holds a comma, a
/// quote, `\r` or `\n`, quotes doubled inside quoted fields, and `""` for
/// a record that writes nothing). It fails only when the flush to the
/// underlying writer fails, and a byte vector accepts every write, so the
/// result is always `Some`.
#[verifier::external_body]
fn csv_into_bytes(w: CsvBuffer) -> (r: Option<Vec<u8>>)
    ensures
        r is Some,
        r matches Some(b) ==> b@ == csv_bytes(csv_records(w)),
{
    w.wtr.into_inner().ok()
}

/// Calls `String::from_utf8`: succeeds exactly on valid UTF-8, with the
/// decoded characters.
#[verifier::external_body]
fn string_from_utf8(bytes: Vec<u8>) -> (r: Option<String>)
    ensures
        r is Some <==> valid_utf8(bytes@),
        r matches Some(s) ==> s@ == decode_utf8(bytes@),
{
    String::from_utf8(bytes).ok()
}

/// Output format of a session export.
#[derive(Debug, Clone, Copy, PartialEq, Eq, Structural)]
pub enum MeetingExportFormat {
    /// Header line plus relative-time prefixed utterances.
    Text,
    /// One row per utterance.
    Csv,
    /// Session metadata plus the utterance array.
    Json,
}

/// One recorded meeting session.
#[derive(Debug, Clone)]
pub struct MeetingSession {
    pub id: i64,
    pub app_name: String,
    pub app_kind: MeetingAppKind,
    pub started_at: String,
    pub ended_at: Option<String>,
    pub speaker_count: Option<i64>,
    pub utterance_count: i64,
    pub notes: Option<String>,
    pub sources: Option<Vec<String>>,
    pub app_title: Option<String>,
    pub name: Option<String>,
}

/// One stored utterance of a session; times are milliseconds from the
/// session start.
#[derive(Debug, Clone)]
pub struct PersistedUtterance {
    pub id: i64,
    pub session_id: i64,
    pub started_at_ms: i64,
    pub ended_at_ms: i64,
    pub speaker_label: Option<String>,
    pub text: String,
    pub is_final: bool,
    pub speaker_identity_id: Option<i64>,
}

/// The label shown for a raw speaker label: the capture sources become
/// `You` and `Remote`, a missing label becomes `Unknown`, anything else
/// passes through.
pub open spec fn label_spec(raw: Option<Seq<char>>) -> Seq<char> {
    match raw {
        Some(s) => if s == "mic"@ {
            "You"@
        } else if s == "system"@ {
            "Remote"@
        } else {
            s
        },
        None => "Unknown"@,
    }
}

/// The view of an optional string.
pub open spec fn opt_view(o: Option<&str>) -> Option<Seq<char>> {
    match o {
        Some(s) => Some(s@),
        None => None,
    }
}

/// Exports never show a raw capture-source token: whatever the stored
/// label, the rendered one is neither `mic` nor `system`.
pub proof fn law_no_raw_source_tokens(raw: Option<Seq<char>>)
    ensures
        label_spec(raw) != "mic"@,
        label_spec(raw) != "system"@,
{
    reveal_strlit("mic");
    reveal_strlit("system");
    reveal_strlit("You");
    reveal_strlit("Remote");
    reveal_strlit("Unknown");
    assert("You"@[0] != "mic"@[0]);
    assert("You"@.len() != "system"@.len());
    assert("Remote"@.len() != "mic"@.len());
    assert("Remote"@[0] != "system"@[0]);
    assert("Unknown"@.len() != "mic"@.len());
    assert("Unknown"@[0] != "system"@[0]);
}

/// Renders a raw speaker label for display (see [`label_spec`]).
pub fn rendered_speaker_label<'a>(raw: Option<&'a str>) -> (r: &'a str)
    ensures
        r@ == label_spec(opt_view(raw)),
{
    match raw {
        Some(s) => {
            if str_eq(s, "mic") {
                "You"
            } else if str_eq(s, "system") {
                "Remote"
            } else {
                s
            }
        },
        None => "Unknown",
    }
}

/// `[hh:mm:ss]` for a time relative to the session start; negative times
/// count as zero, and hours past 99 keep all their digits.
pub open spec fn timestamp_spec(ms: int) -> Seq<char> {
    let t: nat = if ms < 0 { 0 } else { (ms / 1000) as nat };
    "["@ + dec2(t / 3600) + ":"@ + dec2((t % 3600) / 60) + ":"@ + dec2(t % 60) + "]"@
}

/// Formats a session-relative time as `[hh:mm:ss]` (see [`timestamp_spec`]).
pub fn format_relative_timestamp(ms: i64) -> (r: String)
    ensures
        r@ == timestamp_spec(ms as int),
{
    let clamped: u64 = if ms < 0 { 0 } else { ms as u64 };
    let total_secs: u64 = clamped / 1000;
    let mut out = String::new();
    out.append("[");
    push_decimal2(&mut out, total_secs / 3600);
    out.append(":");
    push_decimal2(&mut out, (total_secs % 3600) / 60);
    out.append(":");
    push_decimal2(&mut out, total_secs % 60);
    out.append("]");
    proof {
        reveal_strlit("[");
        reveal_strlit(":");
        reveal_strlit("]");
    }
    out
}

/// `parts` joined with `sep` between neighbours.
pub open spec fn join_spec(parts: Seq<Seq<char>>, sep: Seq<char>) -> Seq<char>
    decreases parts.len(),
{
    if parts.len() == 0 {
        seq![]
    } else if parts.len() == 1 {
        parts[0]
    } else {
        join_spec(parts.drop_last(), sep) + sep + parts.last()
    }
}

/// The views of a list of strings.
pub open spec fn strings_view(v: Seq<String>) -> Seq<Seq<char>> {
    v.map_values(|s: String| s@)
}

/// The header line of a text export.
pub open spec fn header_spec(s: MeetingSession) -> Seq<char> {
    s.app_name@ + " · started "@ + s.started_at@ + " · "@ + dec_int(s.utterance_count as int)
        + " utterance"@ + (if s.utterance_count == 1 { ""@ } else { "s"@ }) + "\n"@
}

/// The sources line, present when the session lists at least one source.
pub open spec fn sources_spec(s: MeetingSession) -> Seq<char> {
    match s.sources {
        Some(v) => if v@.len() > 0 {
            "Sources: "@ + join_spec(strings_view(v@), " + "@) + "\n"@
        } else {
            seq![]
        },
        None => seq![],
    }
}

/// The notes line, present when the session has non-empty notes.
pub open spec fn notes_spec(s: MeetingSession) -> Seq<char> {
    match s.notes {
        Some(n) => if n@.len() > 0 {
            "Notes: "@ + n@ + "\n"@
        } else {
            seq![]
        },
        None => seq![],
    }
}

/// The view of an optional owned string.
pub open spec fn opt_string_view(o: Option<String>) -> Option<Seq<char>> {
    match o {
        Some(s) => Some(s@),
        None => None,
    }
}

/// The export line of one utterance.
pub open spec fn utterance_line_spec(u: PersistedUtterance) -> Seq<char> {
    timestamp_spec(u.started_at_ms as int) + " "@ + label_spec(opt_string_view(u.speaker_label))
        + ": "@ + u.text@ + "\n"@
}

/// The export lines of `us`, in order.
pub open spec fn utterance_lines_spec(us: Seq<PersistedUtterance>) -> Seq<char>
    decreases us.len(),
{
    if us.len() == 0 {
        seq![]
    } else {
        utterance_lines_spec(us.drop_last()) + utterance_line_spec(us.last())
    }
}

/// The whole text export: header, optional sources and notes lines, a
/// blank line, then the utterance lines.
pub open spec fn session_text_spec(s: MeetingSession, us: Seq<PersistedUtterance>) -> Seq<char> {
    header_spec(s) + sources_spec(s) + notes_spec(s) + "\n"@ + utterance_lines_spec(us)
}

fn push_joined(out: &mut String, parts: &Vec<String>, sep: &str)
    ensures
        final(out)@ == old(out)@ + join_spec(strings_view(parts@), sep@),
{
    let ghost start = out@;
    let mut i: usize = 0;
    while i < parts.len()
        invariant
            i <= parts@.len(),
            out@ == start + join_spec(strings_view(parts@.take(i as int)), sep@),
        decreases parts@.len() - i,
    {
        if i > 0 {
            out.append(sep);
        }
        out.append(parts[i].as_str());
        proof {
            let tk = strings_view(parts@.take(i + 1));
            assert(tk.drop_last() =~= strings_view(parts@.take(i as int)));
            assert(tk.last() == parts@[i as int]@);
            if i == 0 {
                assert(tk.len() == 1);
            }
        }
        i = i + 1;
    }
    proof {
        assert(parts@.take(parts@.len() as int) =~= parts@);
    }
}

/// Renders a session as the plain-text export (see [`session_text_spec`]).
pub fn meeting_session_text(session: &MeetingSession, utterances: &[PersistedUtterance]) -> (r: String)
    ensures
        r@ == session_text_spec(*session, utterances@),
{
    let mut out = String::new();
    out.append(session.app_name.as_str());
    out.append(" · started ");
    out.append(session.started_at.as_str());
    out.append(" · ");
    push_decimal_i64(&mut out, session.utterance_count);
    out.append(" utterance");
    if session.utterance_count != 1 {
        out.append("s");
    }
    out.append("\n");
    proof {
        reveal_strlit("");
        assert(out@ == header_spec(*session));
    }
    let ghost after_header = out@;
    match &session.sources {
        Some(v) => {
            if v.len() > 0 {
                out.append("Sources: ");
                push_joined(&mut out, v, " + ");
                out.append("\n");
            }
        },
        None => {},
    }
    assert(out@ == after_header + sources_spec(*session));
    let ghost after_sources = out@;
    match &session.notes {
        Some(n) => {
            if !n.as_str().is_empty() {
                out.append("Notes: ");
                out.append(n.as_str());
                out.append("\n");
            }
        },
        None => {},
    }
    assert(out@ == after_sources + notes_spec(*session));
    out.append("\n");
    let ghost prefix = out@;
    let mut i: usize = 0;
    while i < utterances.len()
        invariant
            i <= utterances@.len(),
            out@ == prefix + utterance_lines_spec(utterances@.take(i as int)),
        decreases utterances@.len() - i,
    {
        let u = &utterances[i];
        let ts = format_relative_timestamp(u.started_at_ms);
        out.append(ts.as_str());
        out.append(" ");
        let label = match &u.speaker_label {
            Some(s) => rendered_speaker_label(Some(s.as_str())),
            None => rendered_speaker_label(None),
        };
        out.append(label);
        out.append(": ");
        out.append(u.text.as_str());
        out.append("\n");
        proof {
            assert(utterances@.take(i + 1).drop_last() =~= utterances@.take(i as int));
            assert(utterances@.take(i + 1).last() == utterances@[i as int]);
        }
        i = i + 1;
    }
    proof {
        assert(utterances@.take(utterances@.len() as int) =~= utterances@);
    }
    out
}

/// Why a CSV export failed.
#[derive(Debug, Clone, Copy, PartialEq, Eq, Structural)]
pub enum CsvExportError {
    /// The CSV writer reported an error.
    Write,
    /// The written bytes were not UTF-8.
    NotUtf8,
}

/// The CSV header row.
pub open spec fn csv_header_spec() -> Seq<Seq<char>> {
    seq![
        "utterance_id"@,
        "session_id"@,
        "started_at_ms"@,
        "ended_at_ms"@,
        "speaker_label"@,
        "text"@,
    ]
}

/// The CSV row of one utterance: ids and times in decimal, the rendered
/// speaker label, the text.
pub open spec fn csv_row_spec(session_id: i64, u: PersistedUtterance) -> Seq<Seq<char>> {
    seq![
        dec_int(u.id as int),
        dec_int(session_id as int),
        dec_int(u.started_at_ms as int),
        dec_int(u.ended_at_ms as int),
        label_spec(opt_string_view(u.speaker_label)),
        u.text@,
    ]
}

/// The header followed by one row per utterance of `us`.
pub open spec fn csv_rows_spec(session_id: i64, us: Seq<PersistedUtterance>) -> Seq<Seq<Seq<char>>>
    decreases us.len(),
{
    if us.len() == 0 {
        seq![csv_header_spec()]
    } else {
        csv_rows_spec(session_id, us.drop_last()).push(csv_row_spec(session_id, us.last()))
    }
}

/// The rows for `us` are the header followed by one row per utterance,
/// each with as many fields as the header.
pub proof fn lemma_csv_rows_shape(session_id: i64, us: Seq<PersistedUtterance>)
    ensures
        csv_rows_spec(session_id, us).len() == us.len() + 1,
        csv_rows_spec(session_id, us)[0] == csv_header_spec(),
        csv_header_spec().len() == 6,
        forall|i: int|
            0 <= i < csv_rows_spec(session_id, us).len() ==> (#[trigger] csv_rows_spec(session_id, us)[i]).len() == 6,
    decreases us.len(),
{
    if us.len() > 0 {
        lemma_csv_rows_shape(session_id, us.drop_last());
    }
}

fn decimal_string(n: i64) -> (r: String)
    ensures
        r@ == dec_int(n as int),
{
    let mut s = String::new();
    push_decimal_i64(&mut s, n);
    s
}

/// Renders a session as CSV, one row per utterance after the header; the
/// speaker label is the rendered one. Every row has as many fields as the
/// header, so the writer accepts them all, and its UTF-8 output always
/// decodes: the result is the CSV text of [`csv_rows_spec`].
pub fn meeting_session_csv(session: &MeetingSession, utterances: &[PersistedUtterance]) -> (r: Result<String, CsvExportError>)
    ensures
        r is Ok,
        r matches Ok(s) ==> s@ == csv_text(csv_rows_spec(session.id, utterances@)),
{
    let mut wtr = csv_buffer_new();
    let mut header: Vec<String> = Vec::new();
    header.push("utterance_id".to_owned());
    header.push("session_id".to_owned());
    header.push("started_at_ms".to_owned());
    header.push("ended_at_ms".to_owned());
    header.push("speaker_label".to_owned());
    header.push("text".to_owned());
    match csv_write_record(&mut wtr, &header) {
        Ok(()) => {},
        Err(_) => return Err(CsvExportError::Write),
    }
    proof {
        assert(header@.map_values(|f: String| f@) =~= csv_header_spec());
        assert(csv_records(wtr) =~= csv_rows_spec(session.id, utterances@.take(0)));
    }
    let mut i: usize = 0;
    while i < utterances.len()
        invariant
            i <= utterances@.len(),
            csv_records(wtr) == csv_rows_spec(session.id, utterances@.take(i as int)),
        decreases utterances@.len() - i,
    {
        let u = &utterances[i];
        let label = match &u.speaker_label {
            Some(l) => rendered_speaker_label(Some(l.as_str())),
            None => rendered_speaker_label(None),
        };
        let mut row: Vec<String> = Vec::new();
        row.push(decimal_string(u.id));
        row.push(decimal_string(session.id));
        row.push(decimal_string(u.started_at_ms));
        row.push(decimal_string(u.ended_at_ms));
        row.push(label.to_owned());
        row.push(u.text.clone());
        proof {
            lemma_csv_rows_shape(session.id, utterances@.take(i as int));
        }
        match csv_write_record(&mut wtr, &row) {
            Ok(()) => {},
            Err(_) => return Err(CsvExportError::Write),
        }
        proof {
            assert(row@.map_values(|f: String| f@) =~= csv_row_spec(session.id, utterances@[i as int]));
            assert(utterances@.take(i + 1).drop_last() =~= utterances@.take(i as int));
        }
        i = i + 1;
    }
    proof {
        assert(utterances@.take(utterances@.len() as int) =~= utterances@);
    }
    let bytes = match csv_into_bytes(wtr) {
        Some(b) => b,
        None => return Err(CsvExportError::Write),
    };
    proof {
        vstd::utf8::encode_utf8_valid_utf8(csv_text(csv_rows_spec(session.id, utterances@)));
        vstd::utf8::encode_utf8_decode_utf8(csv_text(csv_rows_spec(session.id, utterances@)));
    }
    csv_text_from_bytes(bytes)
}

/// The text of written CSV bytes: the decoded characters when the bytes
/// are valid UTF-8, else [`CsvExportError::NotUtf8`].
pub fn csv_text_from_bytes(bytes: Vec<u8>) -> (r: Result<String, CsvExportError>)
    ensures
        r is Ok <==> valid_utf8(bytes@),
        r matches Ok(s) ==> s@ == decode_utf8(bytes@),
        r is Err ==> r == Err::<String, CsvExportError>(CsvExportError::NotUtf8),
{
    match string_from_utf8(bytes) {
        Some(s) => Ok(s),
        None => Err(CsvExportError::NotUtf8),
    }
}

} // verus!

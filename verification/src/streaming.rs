//! Sliding-window streaming policy.
//!
//! The policy tracks a rolling window of mono PCM (held by the caller as
//! samples; here only its length and time bookkeeping), decides when an
//! inference is due, and splits an inference's segments into immutable
//! *finals* (segments older than the commit tail) and at most one revising
//! *partial* for the still-young tail. A high-water mark of committed time
//! guarantees a time range is never finalised twice.

use vstd::prelude::*;
use vstd::string::{StrSliceExecFns, StringExecFns};

use crate::text::{trim, trim_str};

verus! {

/// One transcribed segment, with times relative to the start of the
/// buffer the inference ran on.
#[derive(Debug, Clone, PartialEq, Eq)]
pub struct StreamSegment {
    pub start_ms: u64,
    pub end_ms: u64,
    pub text: String,
}

/// One transcribed utterance with session-relative times.
#[derive(Debug, Clone, PartialEq, Eq)]
pub struct Utterance {
    pub text: String,
    pub started_at_ms: u64,
    pub ended_at_ms: u64,
    pub is_final: bool,
    pub speaker_label: Option<String>,
}

/// Mathematical view of an [`Utterance`].
pub struct UtteranceView {
    pub text: Seq<char>,
    pub started_at_ms: u64,
    pub ended_at_ms: u64,
    pub is_final: bool,
    pub speaker_label: Option<Seq<char>>,
}

/// The characters of an optional string.
pub open spec fn opt_str_view(s: Option<String>) -> Option<Seq<char>> {
    match s {
        Some(t) => Some(t@),
        None => None,
    }
}

impl View for Utterance {
    type V = UtteranceView;

    open spec fn view(&self) -> UtteranceView {
        UtteranceView {
            text: self.text@,
            started_at_ms: self.started_at_ms,
            ended_at_ms: self.ended_at_ms,
            is_final: self.is_final,
            speaker_label: opt_str_view(self.speaker_label),
        }
    }
}

impl Utterance {
    /// A field-by-field copy.
    pub fn duplicate(&self) -> (r: Utterance)
        ensures
            r@ == self@,
    {
        Utterance {
            text: self.text.clone(),
            started_at_ms: self.started_at_ms,
            ended_at_ms: self.ended_at_ms,
            is_final: self.is_final,
            speaker_label: match &self.speaker_label {
                Some(l) => Some(l.clone()),
                None => None,
            },
        }
    }
}

/// The views of a sequence of utterances.
pub open spec fn utts_view(s: Seq<Utterance>) -> Seq<UtteranceView> {
    s.map_values(|u: Utterance| u@)
}

/// Cadence and retention knobs of the policy, all in milliseconds.
#[derive(Debug, Clone, Copy, PartialEq, Eq)]
pub struct SlidingWindowConfig {
    /// Maximum audio kept in the window.
    pub window_max_ms: u64,
    /// New audio needed since the previous inference before the next one.
    pub infer_interval_ms: u64,
    /// Segments ending more than this before the window end become finals.
    pub commit_tail_ms: u64,
    /// Total audio needed before the first inference.
    pub min_first_inference_ms: u64,
}

impl SlidingWindowConfig {
    /// Defaults for meeting mode: 30 s window, inference every 3 s, finals
    /// after 8 s, first inference after 1.5 s.
    pub fn meeting_defaults() -> (r: Self)
        ensures
            r.window_max_ms == 30_000,
            r.infer_interval_ms == 3_000,
            r.commit_tail_ms == 8_000,
            r.min_first_inference_ms == 1_500,
    {
        SlidingWindowConfig {
            window_max_ms: 30_000,
            infer_interval_ms: 3_000,
            commit_tail_ms: 8_000,
            min_first_inference_ms: 1_500,
        }
    }
}

impl Default for SlidingWindowConfig {
    /// The meeting-mode defaults (see [`SlidingWindowConfig::meeting_defaults`]).
    fn default() -> (r: Self)
        ensures
            r.window_max_ms == 30_000,
            r.infer_interval_ms == 3_000,
            r.commit_tail_ms == 8_000,
            r.min_first_inference_ms == 1_500,
    {
        Self::meeting_defaults()
    }
}

/// Samples in `ms` milliseconds at `rate` Hz, rounded down.
pub open spec fn spec_ms_to_samples(ms: u64, rate: u32) -> int {
    (ms * rate) / 1000
}

/// Milliseconds spanned by `samples` at `rate` Hz, rounded down (0 at rate 0).
pub open spec fn spec_samples_to_ms(samples: int, rate: u32) -> int {
    if rate == 0 { 0 } else { (samples * 1000) / (rate as int) }
}

/// `a + b`, saturating at `u64::MAX`.
pub open spec fn sat_add(a: u64, b: u64) -> u64 {
    if a + b > u64::MAX { u64::MAX } else { (a + b) as u64 }
}

/// `a - b`, saturating at zero.
pub open spec fn sat_sub(a: u64, b: u64) -> u64 {
    if a < b { 0 } else { (a - b) as u64 }
}

/// The larger of two values.
pub open spec fn max_u64(a: u64, b: u64) -> u64 {
    if a < b { b } else { a }
}

/// Milliseconds spanned by `samples` at `sample_rate`, rounded down.
pub fn samples_to_ms(samples: usize, sample_rate: u32) -> (r: u64)
    requires
        sample_rate > 0 ==> samples * 1000 <= u64::MAX,
    ensures
        r == spec_samples_to_ms(samples as int, sample_rate),
{
    if sample_rate == 0 {
        return 0;
    }
    (samples as u64 * 1000) / sample_rate as u64
}

/// Samples in `ms` milliseconds at `sample_rate`, rounded down.
pub fn ms_to_samples(ms: u64, sample_rate: u32) -> (r: usize)
    requires
        ms * sample_rate <= u64::MAX,
        (ms * sample_rate) / 1000 <= usize::MAX,
    ensures
        r == spec_ms_to_samples(ms, sample_rate),
{
    ((ms * sample_rate as u64) / 1000) as usize
}

/// Mathematical view of the policy state.
pub struct WindowView {
    pub config: SlidingWindowConfig,
    pub sample_rate: u32,
    pub window_len: nat,
    pub window_start_offset_ms: u64,
    pub total_samples_fed: u64,
    pub samples_since_last_inference: u64,
    pub committed_until_ms: u64,
    pub last_partial_text: Option<Seq<char>>,
}

/// Most samples the window may hold.
pub open spec fn max_samples(v: WindowView) -> int {
    spec_ms_to_samples(v.config.window_max_ms, v.sample_rate)
}

/// Arithmetic bounds under which every step of the policy is defined.
pub open spec fn window_wf(v: WindowView) -> bool {
    &&& v.config.window_max_ms * v.sample_rate <= u64::MAX
    &&& v.config.infer_interval_ms * v.sample_rate <= u64::MAX
    &&& max_samples(v) <= usize::MAX
    &&& spec_ms_to_samples(v.config.infer_interval_ms, v.sample_rate) <= usize::MAX
    &&& v.window_len <= max_samples(v)
    &&& v.window_len <= v.total_samples_fed
    &&& v.samples_since_last_inference <= v.total_samples_fed
    &&& v.total_samples_fed * 1000 <= u64::MAX
    &&& v.committed_until_ms >= v.window_start_offset_ms
}

/// Whether `n` more samples can be fed without leaving the arithmetic bounds.
pub open spec fn can_feed(v: WindowView, n: nat) -> bool {
    &&& (v.total_samples_fed + n) * 1000 <= u64::MAX
}

/// State after feeding `n` samples, with the head trimmed to the window cap.
pub open spec fn feed_state(v: WindowView, n: nat) -> WindowView {
    let len = v.window_len + n;
    let fed = WindowView {
        window_len: len,
        total_samples_fed: (v.total_samples_fed + n) as u64,
        samples_since_last_inference: (v.samples_since_last_inference + n) as u64,
        ..v
    };
    if len > max_samples(v) {
        let drop = len - max_samples(v);
        let offset = sat_add(v.window_start_offset_ms, spec_samples_to_ms(drop, v.sample_rate) as u64);
        WindowView {
            window_len: max_samples(v) as nat,
            window_start_offset_ms: offset,
            committed_until_ms: max_u64(v.committed_until_ms, offset),
            last_partial_text: None,
            ..fed
        }
    } else {
        fed
    }
}

/// Head samples the caller drops from its buffer after feeding `n` samples.
pub open spec fn feed_drop(v: WindowView, n: nat) -> int {
    let len = v.window_len + n;
    if len > max_samples(v) { len - max_samples(v) } else { 0 }
}

/// Whether enough audio has arrived for an inference.
pub open spec fn inference_due_spec(v: WindowView) -> bool {
    &&& v.window_len > 0
    &&& spec_samples_to_ms(v.total_samples_fed as int, v.sample_rate)
        >= v.config.min_first_inference_ms
    &&& v.samples_since_last_inference
        >= spec_ms_to_samples(v.config.infer_interval_ms, v.sample_rate)
}

/// Duration of the window in milliseconds.
pub open spec fn window_ms(v: WindowView) -> u64 {
    spec_samples_to_ms(v.window_len as int, v.sample_rate) as u64
}

/// Window-relative time at or before which a segment end counts as stable.
pub open spec fn stable_cutoff(v: WindowView) -> u64 {
    sat_sub(window_ms(v), v.config.commit_tail_ms)
}

/// Scans segments in order, committing each stable, non-empty segment whose
/// absolute end lies past the high-water mark. Returns the finals, the new
/// high-water mark and the relative end of the last committed segment.
pub open spec fn final_scan(segs: Seq<StreamSegment>, offset: u64, cutoff: u64, committed: u64) -> (
    Seq<UtteranceView>,
    u64,
    Option<u64>,
)
    decreases segs.len(),
{
    if segs.len() == 0 {
        (seq![], committed, None)
    } else {
        let prev = final_scan(segs.drop_last(), offset, cutoff, committed);
        let s = segs.last();
        let t = trim(s.text@);
        let abs_start = sat_add(offset, s.start_ms);
        let abs_end = sat_add(offset, s.end_ms);
        if t.len() == 0 || s.end_ms > cutoff || abs_end <= prev.1 {
            prev
        } else {
            (
                prev.0.push(
                    UtteranceView {
                        text: t,
                        started_at_ms: max_u64(abs_start, prev.1),
                        ended_at_ms: abs_end,
                        is_final: true,
                        speaker_label: None,
                    },
                ),
                abs_end,
                Some(s.end_ms),
            )
        }
    }
}

/// Joins the non-empty tail segments (ending after the cutoff) with single
/// spaces. Returns the text, the absolute start of the first tail segment
/// and the absolute end of the last one.
pub open spec fn tail_scan(segs: Seq<StreamSegment>, offset: u64, cutoff: u64) -> (
    Seq<char>,
    Option<u64>,
    u64,
)
    decreases segs.len(),
{
    if segs.len() == 0 {
        (seq![], None, 0)
    } else {
        let prev = tail_scan(segs.drop_last(), offset, cutoff);
        let s = segs.last();
        let t = trim(s.text@);
        if t.len() == 0 || s.end_ms <= cutoff {
            prev
        } else {
            (
                if prev.0.len() == 0 { t } else { prev.0 + seq![' '] + t },
                if prev.1 is None { Some(sat_add(offset, s.start_ms)) } else { prev.1 },
                sat_add(offset, s.end_ms),
            )
        }
    }
}

/// The utterances an inference over `segs` yields: the finals in segment
/// order, then the tail partial when its text is non-empty and differs from
/// the previous partial. Nothing when no inference is due.
pub open spec fn tick_output(v: WindowView, segs: Seq<StreamSegment>) -> Seq<UtteranceView> {
    if !inference_due_spec(v) {
        seq![]
    } else {
        let cutoff = stable_cutoff(v);
        let fin = final_scan(segs, v.window_start_offset_ms, cutoff, v.committed_until_ms);
        let tail = tail_scan(segs, v.window_start_offset_ms, cutoff);
        if tail.0.len() > 0 && v.last_partial_text != Some(tail.0) {
            fin.0.push(
                UtteranceView {
                    text: tail.0,
                    started_at_ms: match tail.1 {
                        Some(s) => s,
                        None => sat_add(v.window_start_offset_ms, window_ms(v)),
                    },
                    ended_at_ms: tail.2,
                    is_final: false,
                    speaker_label: None,
                },
            )
        } else {
            fin.0
        }
    }
}

/// Head samples the window slides past after the inference: up to the end
/// of the last committed segment.
pub open spec fn tick_drop(v: WindowView, segs: Seq<StreamSegment>) -> int {
    if !inference_due_spec(v) {
        0
    } else {
        let fin = final_scan(segs, v.window_start_offset_ms, stable_cutoff(v), v.committed_until_ms);
        match fin.2 {
            Some(rel) => {
                let d = spec_ms_to_samples(rel, v.sample_rate);
                if d < v.window_len { d } else { v.window_len as int }
            },
            None => 0,
        }
    }
}

/// The policy state after an inference over `segs`.
pub open spec fn tick_state(v: WindowView, segs: Seq<StreamSegment>) -> WindowView {
    if !inference_due_spec(v) {
        v
    } else {
        let cutoff = stable_cutoff(v);
        let fin = final_scan(segs, v.window_start_offset_ms, cutoff, v.committed_until_ms);
        let tail = tail_scan(segs, v.window_start_offset_ms, cutoff);
        let drop = tick_drop(v, segs);
        WindowView {
            samples_since_last_inference: 0,
            committed_until_ms: fin.1,
            last_partial_text: if tail.0.len() > 0 {
                Some(tail.0)
            } else if fin.2 is Some {
                None
            } else {
                v.last_partial_text
            },
            window_len: (v.window_len - drop) as nat,
            window_start_offset_ms: if fin.2 is Some {
                sat_add(v.window_start_offset_ms, spec_samples_to_ms(drop, v.sample_rate) as u64)
            } else {
                v.window_start_offset_ms
            },
            ..v
        }
    }
}

/// The finals the closing inference over `segs` yields: every non-empty
/// segment whose absolute end lies past the high-water mark.
pub open spec fn finish_scan(segs: Seq<StreamSegment>, offset: u64, committed: u64) -> (
    Seq<UtteranceView>,
    u64,
) {
    let all = final_scan(segs, offset, u64::MAX, committed);
    (all.0, all.1)
}

/// Sliding-window policy state. The caller keeps the samples themselves;
/// this state tracks how many there are and where they sit in session time.
pub struct SlidingWindowState {
    config: SlidingWindowConfig,
    sample_rate: u32,
    window_len: usize,
    window_start_offset_ms: u64,
    total_samples_fed: u64,
    samples_since_last_inference: u64,
    committed_until_ms: u64,
    last_partial_text: Option<String>,
}

impl View for SlidingWindowState {
    type V = WindowView;

    closed spec fn view(&self) -> WindowView {
        WindowView {
            config: self.config,
            sample_rate: self.sample_rate,
            window_len: self.window_len as nat,
            window_start_offset_ms: self.window_start_offset_ms,
            total_samples_fed: self.total_samples_fed,
            samples_since_last_inference: self.samples_since_last_inference,
            committed_until_ms: self.committed_until_ms,
            last_partial_text: opt_str_view(self.last_partial_text),
        }
    }
}

proof fn lemma_duration_bound(len: int, rate: u32, rel: u64)
    requires
        rate > 0,
        len >= 0,
        len * 1000 <= u64::MAX,
        rel <= (len * 1000) / (rate as int),
    ensures
        rel * rate <= len * 1000,
        (rel * rate) / 1000 <= len,
{
    assert(((len * 1000) / (rate as int)) * rate <= len * 1000) by (nonlinear_arith)
        requires
            rate > 0,
            len >= 0,
    ;
    assert(rel * rate <= ((len * 1000) / (rate as int)) * rate) by (nonlinear_arith)
        requires
            rel <= (len * 1000) / (rate as int),
            rate > 0,
    ;
    assert((rel * rate) / 1000 <= len) by (nonlinear_arith)
        requires
            rel * rate <= len * 1000,
    ;
}

/// Converting `rel` milliseconds to samples and back, with the sample
/// count possibly capped lower, never gives more than `rel`.
proof fn lemma_round_trip_le(rel: u64, rate: u32, d: int)
    requires
        0 <= d <= spec_ms_to_samples(rel, rate),
    ensures
        spec_samples_to_ms(d, rate) <= rel,
{
    if rate > 0 {
        assert(((rel * rate) / 1000) * 1000 <= rel * rate) by (nonlinear_arith);
        assert((d * 1000) / (rate as int) <= rel) by (nonlinear_arith)
            requires
                rate > 0,
                0 <= d,
                d * 1000 <= rel * rate,
        ;
    }
}

proof fn lemma_ms_fits(samples: int, rate: u32)
    requires
        0 <= samples,
        samples * 1000 <= u64::MAX,
    ensures
        0 <= spec_samples_to_ms(samples, rate) <= u64::MAX,
{
    if rate > 0 {
        assert((samples * 1000) / (rate as int) <= samples * 1000) by (nonlinear_arith)
            requires
                rate > 0,
                samples >= 0,
        ;
        assert(0 <= (samples * 1000) / (rate as int)) by (nonlinear_arith)
            requires
                rate > 0,
                samples >= 0,
        ;
    }
}


/// Commits the stable segments of one inference (see [`final_scan`]).
fn commit_finals(segments: &Vec<StreamSegment>, offset: u64, cutoff: u64, committed0: u64) -> (r: (
    Vec<Utterance>,
    u64,
    Option<u64>,
))
    ensures
        (utts_view(r.0@), r.1, r.2) == final_scan(segments@, offset, cutoff, committed0),
        r.2 matches Some(rel) ==> rel <= cutoff,
{
    let n = segments.len();
    let mut out: Vec<Utterance> = Vec::new();
    let mut committed = committed0;
    let mut last_rel: Option<u64> = None;
    let mut i: usize = 0;
    while i < n
        invariant
            n == segments@.len(),
            i <= n,
            (utts_view(out@), committed, last_rel) == final_scan(
                segments@.take(i as int),
                offset,
                cutoff,
                committed0,
            ),
            last_rel matches Some(rel) ==> rel <= cutoff,
        decreases n - i,
    {
        let seg = &segments[i];
        let t = trim_str(seg.text.as_str());
        let abs_start = offset.saturating_add(seg.start_ms);
        let abs_end = offset.saturating_add(seg.end_ms);
        proof {
            assert(segments@.take(i + 1).drop_last() =~= segments@.take(i as int));
            assert(segments@.take(i + 1).last() == segments@[i as int]);
        }
        if !t.is_empty() && seg.end_ms <= cutoff && abs_end > committed {
            let start = if abs_start < committed {
                committed
            } else {
                abs_start
            };
            let u = Utterance {
                text: t.to_owned(),
                started_at_ms: start,
                ended_at_ms: abs_end,
                is_final: true,
                speaker_label: None,
            };
            let ghost before = out@;
            out.push(u);
            proof {
                assert(utts_view(out@) =~= utts_view(before).push(u@));
            }
            committed = abs_end;
            last_rel = Some(seg.end_ms);
        }
        i = i + 1;
    }
    proof {
        assert(segments@.take(n as int) =~= segments@);
    }
    (out, committed, last_rel)
}

/// Joins the tail segments of one inference (see [`tail_scan`]).
fn join_tail(segments: &Vec<StreamSegment>, offset: u64, cutoff: u64) -> (r: (
    String,
    Option<u64>,
    u64,
))
    ensures
        (r.0@, r.1, r.2) == tail_scan(segments@, offset, cutoff),
{
    let n = segments.len();
    let mut text = String::new();
    let mut start: Option<u64> = None;
    let mut end: u64 = 0;
    let mut i: usize = 0;
    while i < n
        invariant
            n == segments@.len(),
            i <= n,
            (text@, start, end) == tail_scan(segments@.take(i as int), offset, cutoff),
        decreases n - i,
    {
        let seg = &segments[i];
        let t = trim_str(seg.text.as_str());
        proof {
            assert(segments@.take(i + 1).drop_last() =~= segments@.take(i as int));
            assert(segments@.take(i + 1).last() == segments@[i as int]);
        }
        if !t.is_empty() && seg.end_ms > cutoff {
            if start.is_none() {
                start = Some(offset.saturating_add(seg.start_ms));
            }
            end = offset.saturating_add(seg.end_ms);
            if !text.as_str().is_empty() {
                text.append(" ");
                proof {
                    reveal_strlit(" ");
                }
            }
            text.append(t);
        }
        i = i + 1;
    }
    proof {
        assert(segments@.take(n as int) =~= segments@);
    }
    (text, start, end)
}

impl SlidingWindowState {
    /// Arithmetic bounds under which every step of the policy is defined.
    pub open spec fn wf(&self) -> bool {
        window_wf(self@)
    }

    /// An empty window at `sample_rate` with the given knobs.
    pub fn new(sample_rate: u32, config: SlidingWindowConfig) -> (r: Self)
        requires
            config.window_max_ms * sample_rate <= u64::MAX,
            config.infer_interval_ms * sample_rate <= u64::MAX,
            spec_ms_to_samples(config.window_max_ms, sample_rate) <= usize::MAX,
            spec_ms_to_samples(config.infer_interval_ms, sample_rate) <= usize::MAX,
        ensures
            r.wf(),
            r@ == (WindowView {
                config,
                sample_rate,
                window_len: 0,
                window_start_offset_ms: 0,
                total_samples_fed: 0,
                samples_since_last_inference: 0,
                committed_until_ms: 0,
                last_partial_text: None,
            }),
    {
        proof {
            assert(0 <= spec_ms_to_samples(config.window_max_ms, sample_rate)) by (nonlinear_arith);
        }
        SlidingWindowState {
            config,
            sample_rate,
            window_len: 0,
            window_start_offset_ms: 0,
            total_samples_fed: 0,
            samples_since_last_inference: 0,
            committed_until_ms: 0,
            last_partial_text: None,
        }
    }

    /// Session-time offset of the window's first sample.
    pub fn window_start_offset_ms(&self) -> (r: u64)
        ensures
            r == self@.window_start_offset_ms,
    {
        self.window_start_offset_ms
    }

    /// High-water mark of committed time.
    pub fn committed_until_ms(&self) -> (r: u64)
        ensures
            r == self@.committed_until_ms,
    {
        self.committed_until_ms
    }

    /// Samples currently in the window.
    pub fn window_len(&self) -> (r: usize)
        ensures
            r == self@.window_len,
    {
        self.window_len
    }

    /// Whether `n` more samples keep the fed-sample count within the
    /// arithmetic bounds of the policy (see [`can_feed`]).
    pub fn accepts(&self, n: usize) -> (r: bool)
        ensures
            r == can_feed(self@, n as nat),
    {
        let limit: u64 = u64::MAX / 1000;
        match self.total_samples_fed.checked_add(n as u64) {
            Some(t) => t <= limit,
            None => false,
        }
    }

    /// Records `n` newly captured samples and trims the window to its cap.
    /// Returns how many samples the caller must drop from the head of its
    /// buffer.
    pub fn feed_mono(&mut self, n: usize) -> (drop: usize)
        requires
            old(self).wf(),
            can_feed(old(self)@, n as nat),
            old(self)@.window_len + n <= usize::MAX,
        ensures
            final(self).wf(),
            final(self)@ == feed_state(old(self)@, n as nat),
            drop == feed_drop(old(self)@, n as nat),
    {
        self.window_len = self.window_len + n;
        self.samples_since_last_inference = self.samples_since_last_inference + n as u64;
        self.total_samples_fed = self.total_samples_fed + n as u64;
        let max_samples = ms_to_samples(self.config.window_max_ms, self.sample_rate);
        if self.window_len > max_samples {
            let drop_count = self.window_len - max_samples;
            self.window_len = max_samples;
            proof {
                lemma_ms_fits(drop_count as int, self.sample_rate);
            }
            let drop_ms = samples_to_ms(drop_count, self.sample_rate);
            self.window_start_offset_ms = self.window_start_offset_ms.saturating_add(drop_ms);
            if self.committed_until_ms < self.window_start_offset_ms {
                self.committed_until_ms = self.window_start_offset_ms;
            }
            self.last_partial_text = None;
            drop_count
        } else {
            0
        }
    }

    /// Whether an inference is due: the window is non-empty, enough audio
    /// has arrived in total, and enough since the previous inference.
    pub fn inference_due(&self) -> (r: bool)
        requires
            self.wf(),
        ensures
            r == inference_due_spec(self@),
    {
        if self.window_len == 0 {
            return false;
        }
        proof {
            lemma_ms_fits(self.total_samples_fed as int, self.sample_rate);
        }
        let total_ms = if self.sample_rate == 0 {
            0
        } else {
            (self.total_samples_fed * 1000) / self.sample_rate as u64
        };
        if total_ms < self.config.min_first_inference_ms {
            return false;
        }
        let interval_samples = ms_to_samples(self.config.infer_interval_ms, self.sample_rate);
        self.samples_since_last_inference >= interval_samples as u64
    }

    /// Applies one inference's `segments` (taken over the current window)
    /// when an inference is due; otherwise does nothing. Returns the finals
    /// followed by at most one partial, and how many head samples the caller
    /// drops from its buffer as the window slides past the committed range.
    pub fn tick(&mut self, segments: &Vec<StreamSegment>) -> (r: (Vec<Utterance>, usize))
        requires
            old(self).wf(),
        ensures
            final(self).wf(),
            final(self)@ == tick_state(old(self)@, segments@),
            utts_view(r.0@) == tick_output(old(self)@, segments@),
            r.1 == tick_drop(old(self)@, segments@),
    {
        if !self.inference_due() {
            return (Vec::new(), 0);
        }
        let ghost v = self@;
        self.samples_since_last_inference = 0;
        let window_duration_ms = samples_to_ms(self.window_len, self.sample_rate);
        let window_end_offset_ms = self.window_start_offset_ms.saturating_add(window_duration_ms);
        let cutoff = window_duration_ms.saturating_sub(self.config.commit_tail_ms);
        let offset = self.window_start_offset_ms;
        let (mut out, committed, last_rel) = commit_finals(
            segments,
            offset,
            cutoff,
            self.committed_until_ms,
        );
        self.committed_until_ms = committed;
        let (tail_text, tail_start, tail_end) = join_tail(segments, offset, cutoff);
        if !tail_text.as_str().is_empty() {
            let new_partial = match &self.last_partial_text {
                Some(p) => !(*p == tail_text),
                None => true,
            };
            if new_partial {
                let u = Utterance {
                    text: tail_text.clone(),
                    started_at_ms: match tail_start {
                        Some(s) => s,
                        None => window_end_offset_ms,
                    },
                    ended_at_ms: tail_end,
                    is_final: false,
                    speaker_label: None,
                };
                let ghost before = out@;
                out.push(u);
                proof {
                    assert(utts_view(out@) =~= utts_view(before).push(u@));
                }
            }
            self.last_partial_text = Some(tail_text);
        } else if last_rel.is_some() {
            self.last_partial_text = None;
        }
        let mut drop_samples: usize = 0;
        if let Some(commit_end_rel_ms) = last_rel {
            proof {
                if self.sample_rate > 0 {
                    lemma_duration_bound(self.window_len as int, self.sample_rate, commit_end_rel_ms);
                }
            }
            let d = ms_to_samples(commit_end_rel_ms, self.sample_rate);
            drop_samples = if d < self.window_len {
                d
            } else {
                self.window_len
            };
            self.window_len = self.window_len - drop_samples;
            let drop_ms = samples_to_ms(drop_samples, self.sample_rate);
            proof {
                lemma_final_scan_facts(segments@, offset, cutoff, v.committed_until_ms);
                lemma_round_trip_le(commit_end_rel_ms, self.sample_rate, drop_samples as int);
            }
            self.window_start_offset_ms = self.window_start_offset_ms.saturating_add(drop_ms);
        }
        proof {
            lemma_final_scan_facts(segments@, offset, cutoff, v.committed_until_ms);
        }
        (out, drop_samples)
    }

    /// Applies the closing inference's `segments` when the window holds
    /// audio: every non-empty segment past the high-water mark becomes a
    /// final, and the window is emptied. An empty window yields nothing.
    pub fn finish(&mut self, segments: &Vec<StreamSegment>) -> (r: Vec<Utterance>)
        requires
            old(self).wf(),
        ensures
            final(self).wf(),
            old(self)@.window_len == 0 ==> r@.len() == 0 && final(self)@ == old(self)@,
            old(self)@.window_len > 0 ==> {
                let f = finish_scan(
                    segments@,
                    old(self)@.window_start_offset_ms,
                    old(self)@.committed_until_ms,
                );
                &&& utts_view(r@) == f.0
                &&& final(self)@ == (WindowView {
                    window_len: 0,
                    committed_until_ms: f.1,
                    last_partial_text: None,
                    ..old(self)@
                })
            },
    {
        if self.window_len == 0 {
            return Vec::new();
        }
        let (out, committed, _last) = commit_finals(
            segments,
            self.window_start_offset_ms,
            u64::MAX,
            self.committed_until_ms,
        );
        proof {
            lemma_final_scan_facts(segments@, self.window_start_offset_ms, u64::MAX, self.committed_until_ms);
        }
        self.committed_until_ms = committed;
        self.window_len = 0;
        self.last_partial_text = None;
        out
    }
}

} // verus!

verus! {

/// Facts of the final scan: every final lies past the starting high-water
/// mark and up to the returned one, finals are in strictly increasing,
/// non-overlapping order, carry non-empty text, and the mark never moves back.
proof fn lemma_final_scan_facts(segs: Seq<StreamSegment>, offset: u64, cutoff: u64, c: u64)
    ensures
        ({
            let r = final_scan(segs, offset, cutoff, c);
            &&& r.1 >= c
            &&& r.0.len() == 0 ==> r.1 == c
            &&& forall|i: int|
                0 <= i < r.0.len() ==> {
                    &&& (#[trigger] r.0[i]).is_final
                    &&& r.0[i].speaker_label is None
                    &&& r.0[i].text.len() > 0
                    &&& r.0[i].text == trim(r.0[i].text)
                    &&& r.0[i].started_at_ms >= c
                    &&& r.0[i].ended_at_ms > c
                    &&& r.0[i].ended_at_ms <= r.1
                }
            &&& forall|i: int, j: int|
                0 <= i < j < r.0.len() ==> r.0[i].ended_at_ms <= r.0[j].started_at_ms
                    && r.0[i].ended_at_ms < r.0[j].ended_at_ms
            &&& r.0.len() > 0 ==> r.0.last().ended_at_ms == r.1
            &&& r.2 is Some <==> r.0.len() > 0
            &&& r.2 matches Some(rel) ==> r.1 == sat_add(offset, rel)
        }),
    decreases segs.len(),
{
    if segs.len() > 0 {
        lemma_final_scan_facts(segs.drop_last(), offset, cutoff, c);
        lemma_trim_idempotent(segs.last().text@);
    }
}

/// Trimming a trimmed text changes nothing.
pub proof fn lemma_trim_idempotent(s: Seq<char>)
    ensures
        trim(trim(s)) == trim(s),
{
    lemma_trim_start_fixed(s);
    lemma_trim_start_of_trim_end(crate::text::trim_start(s));
    lemma_trim_end_fixed(crate::text::trim_start(s));
}

proof fn lemma_trim_start_fixed(s: Seq<char>)
    ensures
        crate::text::trim_start(crate::text::trim_start(s)) == crate::text::trim_start(s),
        crate::text::trim_start(s).len() > 0 ==> !crate::text::is_ws(
            crate::text::trim_start(s)[0],
        ),
    decreases s.len(),
{
    if s.len() > 0 && crate::text::is_ws(s[0]) {
        lemma_trim_start_fixed(s.drop_first());
    }
}

proof fn lemma_trim_end_fixed(s: Seq<char>)
    ensures
        crate::text::trim_end(crate::text::trim_end(s)) == crate::text::trim_end(s),
        crate::text::trim_end(s).len() > 0 ==> !crate::text::is_ws(
            crate::text::trim_end(s).last(),
        ),
    decreases s.len(),
{
    if s.len() > 0 && crate::text::is_ws(s.last()) {
        lemma_trim_end_fixed(s.drop_last());
    }
}

/// Trimming the end of a text with no leading whitespace keeps it free of
/// leading whitespace.
proof fn lemma_trim_start_of_trim_end(s: Seq<char>)
    requires
        s.len() > 0 ==> !crate::text::is_ws(s[0]),
    ensures
        crate::text::trim_start(crate::text::trim_end(s)) == crate::text::trim_end(s),
    decreases s.len(),
{
    if s.len() > 0 && crate::text::is_ws(s.last()) {
        if s.len() > 1 {
            assert(s.drop_last()[0] == s[0]);
        }
        lemma_trim_start_of_trim_end(s.drop_last());
    }
}

/// One streaming tick never re-finalises committed time: every final it
/// emits starts at or after the previous high-water mark, ends strictly
/// after it and no later than the new mark; finals come in increasing,
/// non-overlapping order with strictly rising ends; the mark never moves
/// back, becomes the last final's end, and stays put when no final is
/// emitted; the emitted texts are trimmed and non-empty; and at most one
/// partial is emitted, always last, only when its text differs from the
/// previous partial, which it then replaces.
pub proof fn law_tick_commits_once(v: WindowView, segs: Seq<StreamSegment>)
    requires
        window_wf(v),
    ensures
        ({
            let out = tick_output(v, segs);
            let next = tick_state(v, segs);
            &&& next.committed_until_ms >= v.committed_until_ms
            &&& forall|i: int|
                0 <= i < out.len() ==> {
                    &&& (#[trigger] out[i]).text.len() > 0
                    &&& out[i].text == trim(out[i].text)
                    &&& out[i].speaker_label is None
                    &&& out[i].is_final ==> out[i].started_at_ms >= v.committed_until_ms
                        && out[i].ended_at_ms > v.committed_until_ms
                        && out[i].ended_at_ms <= next.committed_until_ms
                    &&& !out[i].is_final ==> i == out.len() - 1
                }
            &&& forall|i: int, j: int|
                0 <= i < j < out.len() && out[i].is_final && out[j].is_final ==> out[i].ended_at_ms
                    <= out[j].started_at_ms && out[i].ended_at_ms < out[j].ended_at_ms
            &&& (forall|i: int| 0 <= i < out.len() ==> !(#[trigger] out[i]).is_final)
                ==> next.committed_until_ms == v.committed_until_ms
            &&& forall|i: int|
                0 <= i < out.len() && (#[trigger] out[i]).is_final && (i + 1 == out.len()
                    || !out[i + 1].is_final) ==> next.committed_until_ms == out[i].ended_at_ms
            &&& forall|i: int|
                0 <= i < out.len() && !(#[trigger] out[i]).is_final ==> v.last_partial_text != Some(
                    out[i].text,
                ) && next.last_partial_text == Some(out[i].text)
        }),
{
    if inference_due_spec(v) {
        let cutoff = stable_cutoff(v);
        let fin = final_scan(segs, v.window_start_offset_ms, cutoff, v.committed_until_ms);
        let tail = tail_scan(segs, v.window_start_offset_ms, cutoff);
        let out = tick_output(v, segs);
        let next = tick_state(v, segs);
        lemma_final_scan_facts(segs, v.window_start_offset_ms, cutoff, v.committed_until_ms);
        lemma_tail_scan_facts(segs, v.window_start_offset_ms, cutoff);
        assert(next.committed_until_ms == fin.1);
        assert(forall|i: int| 0 <= i < fin.0.len() ==> out[i] == fin.0[i]);
        if out.len() > fin.0.len() {
            assert(!out[fin.0.len() as int].is_final);
            assert(out.len() == fin.0.len() + 1);
        } else {
            assert(out == fin.0);
        }
        assert forall|i: int|
            0 <= i < out.len() && (#[trigger] out[i]).is_final && (i + 1 == out.len()
                || !out[i + 1].is_final) implies next.committed_until_ms == out[i].ended_at_ms by {
            assert(i < fin.0.len());
            if i + 1 < fin.0.len() {
                assert(out[i + 1] == fin.0[i + 1]);
            }
            assert(i == fin.0.len() - 1);
        }
        assert((forall|i: int| 0 <= i < out.len() ==> !(#[trigger] out[i]).is_final)
            ==> next.committed_until_ms == v.committed_until_ms) by {
            if fin.0.len() > 0 {
                assert(out[0] == fin.0[0]);
            }
        }
    }
}

/// The tail text is trimmed (a join of trimmed, non-empty texts).
proof fn lemma_tail_scan_facts(segs: Seq<StreamSegment>, offset: u64, cutoff: u64)
    ensures
        tail_scan(segs, offset, cutoff).0 == trim(tail_scan(segs, offset, cutoff).0),
        tail_scan(segs, offset, cutoff).0.len() > 0 ==> tail_scan(segs, offset, cutoff).1 is Some,
    decreases segs.len(),
{
    if segs.len() > 0 {
        lemma_tail_scan_facts(segs.drop_last(), offset, cutoff);
        let prev = tail_scan(segs.drop_last(), offset, cutoff);
        let t = trim(segs.last().text@);
        lemma_trim_idempotent(segs.last().text@);
        if t.len() > 0 && prev.0.len() > 0 {
            lemma_trim_join(prev.0, t);
        }
    }
}

/// Joining two trimmed, non-empty texts with a space gives a trimmed text.
proof fn lemma_trim_join(a: Seq<char>, b: Seq<char>)
    requires
        a.len() > 0,
        b.len() > 0,
        a == trim(a),
        b == trim(b),
    ensures
        a + seq![' '] + b == trim(a + seq![' '] + b),
{
    lemma_trim_ends(a);
    lemma_trim_ends(b);
    let j = a + seq![' '] + b;
    assert(j[0] == a[0]);
    assert(j.last() == b.last());
    assert(crate::text::trim_start(j) == j);
    assert(crate::text::trim_end(j) == j);
}

/// A trimmed, non-empty text starts and ends with a non-whitespace char.
proof fn lemma_trim_ends(a: Seq<char>)
    requires
        a.len() > 0,
        a == trim(a),
    ensures
        !crate::text::is_ws(a[0]),
        !crate::text::is_ws(a.last()),
{
    lemma_trim_start_fixed(a);
    lemma_trim_end_fixed(crate::text::trim_start(a));
    lemma_trim_start_of_trim_end(crate::text::trim_start(a));
    lemma_trim_end_len(crate::text::trim_start(a));
    lemma_trim_start_len(a);
    if crate::text::is_ws(a[0]) {
        assert(crate::text::trim_start(a) == crate::text::trim_start(a.drop_first()));
        lemma_trim_start_len(a.drop_first());
        lemma_trim_end_len(crate::text::trim_start(a));
    }
    if crate::text::is_ws(a.last()) {
        lemma_trim_end_len(crate::text::trim_start(a));
    }
}

proof fn lemma_trim_start_len(s: Seq<char>)
    ensures
        crate::text::trim_start(s).len() <= s.len(),
    decreases s.len(),
{
    if s.len() > 0 && crate::text::is_ws(s[0]) {
        lemma_trim_start_len(s.drop_first());
    }
}

proof fn lemma_trim_end_len(s: Seq<char>)
    ensures
        crate::text::trim_end(s).len() <= s.len(),
        crate::text::trim_end(s) == s.subrange(0, crate::text::trim_end(s).len() as int),
    decreases s.len(),
{
    if s.len() > 0 && crate::text::is_ws(s.last()) {
        lemma_trim_end_len(s.drop_last());
        assert(s.drop_last().subrange(0, crate::text::trim_end(s).len() as int) =~= s.subrange(
            0,
            crate::text::trim_end(s).len() as int,
        ));
    } else {
        assert(s.subrange(0, s.len() as int) =~= s);
    }
}

/// The closing flush never re-finalises committed time either: its finals
/// lie past the previous high-water mark, in increasing, non-overlapping
/// order, with trimmed non-empty text.
pub proof fn law_finish_commits_once(segs: Seq<StreamSegment>, offset: u64, committed: u64)
    ensures
        ({
            let f = finish_scan(segs, offset, committed);
            &&& f.1 >= committed
            &&& forall|i: int|
                0 <= i < f.0.len() ==> {
                    &&& (#[trigger] f.0[i]).is_final
                    &&& f.0[i].text.len() > 0
                    &&& f.0[i].started_at_ms >= committed
                    &&& f.0[i].ended_at_ms > committed
                }
            &&& forall|i: int, j: int|
                0 <= i < j < f.0.len() ==> f.0[i].ended_at_ms <= f.0[j].started_at_ms
        }),
{
    lemma_final_scan_facts(segs, offset, u64::MAX, committed);
}

/// Feeding never moves the high-water mark back, counts every fed sample,
/// keeps the window within its cap and the high-water mark at or past the
/// window start; a dropped head also clears the remembered partial.
pub proof fn law_feed_bounded(v: WindowView, n: nat)
    requires
        window_wf(v),
        can_feed(v, n),
    ensures
        feed_state(v, n).committed_until_ms >= v.committed_until_ms,
        feed_state(v, n).window_len <= max_samples(v),
        feed_state(v, n).window_start_offset_ms >= v.window_start_offset_ms,
        feed_state(v, n).total_samples_fed == v.total_samples_fed + n,
        feed_state(v, n).committed_until_ms >= feed_state(v, n).window_start_offset_ms,
        feed_drop(v, n) > 0 ==> feed_state(v, n).last_partial_text is None,
        feed_state(v, n).window_len == v.window_len + n - feed_drop(v, n),
{
}


/// The segments of `segs` that make up the live tail: in order, those
/// with non-blank text that end after `cutoff`.
pub open spec fn tail_segments(segs: Seq<StreamSegment>, cutoff: u64) -> Seq<StreamSegment>
    decreases segs.len(),
{
    if segs.len() == 0 {
        seq![]
    } else {
        let prev = tail_segments(segs.drop_last(), cutoff);
        let s = segs.last();
        if trim(s.text@).len() > 0 && s.end_ms > cutoff {
            prev.push(s)
        } else {
            prev
        }
    }
}

/// The trimmed texts of `ts`.
pub open spec fn trimmed_texts(ts: Seq<StreamSegment>) -> Seq<Seq<char>> {
    ts.map_values(|s: StreamSegment| trim(s.text@))
}

/// `ws` joined with single spaces.
pub open spec fn spaced_join(ws: Seq<Seq<char>>) -> Seq<char>
    decreases ws.len(),
{
    if ws.len() == 0 {
        seq![]
    } else if ws.len() == 1 {
        ws[0]
    } else {
        spaced_join(ws.drop_last()) + seq![' '] + ws.last()
    }
}

proof fn lemma_tail_scan_is_join(segs: Seq<StreamSegment>, offset: u64, cutoff: u64)
    ensures
        ({
            let ts = tail_segments(segs, cutoff);
            let r = tail_scan(segs, offset, cutoff);
            &&& r.0 == spaced_join(trimmed_texts(ts))
            &&& (r.0.len() == 0 <==> ts.len() == 0)
            &&& ts.len() == 0 ==> r.1 is None
            &&& ts.len() > 0 ==> r.1 == Some(sat_add(offset, ts[0].start_ms))
                && r.2 == sat_add(offset, ts.last().end_ms)
        }),
    decreases segs.len(),
{
    if segs.len() > 0 {
        let pre = segs.drop_last();
        lemma_tail_scan_is_join(pre, offset, cutoff);
        let ts0 = tail_segments(pre, cutoff);
        let ts = tail_segments(segs, cutoff);
        let s = segs.last();
        let t = trim(s.text@);
        if t.len() > 0 && s.end_ms > cutoff {
            assert(ts == ts0.push(s));
            assert(trimmed_texts(ts) =~= trimmed_texts(ts0).push(t));
            assert(trimmed_texts(ts).drop_last() =~= trimmed_texts(ts0));
            if ts0.len() == 0 {
                assert(trimmed_texts(ts) =~= seq![t]);
            } else {
                assert(ts[0] == ts0[0]);
            }
        }
    }
}

/// The live partial of a tick is the join, with single spaces and in
/// segment order, of the trimmed texts of every non-blank segment ending
/// after the stable cutoff. It spans from the first such segment's start
/// to the last one's end, is emitted (last) exactly when that text is
/// non-empty and differs from the previous partial, and then becomes the
/// remembered partial.
pub proof fn law_partial_joins_whole_tail(v: WindowView, segs: Seq<StreamSegment>)
    requires
        window_wf(v),
        inference_due_spec(v),
    ensures
        ({
            let ts = tail_segments(segs, stable_cutoff(v));
            let text = spaced_join(trimmed_texts(ts));
            let out = tick_output(v, segs);
            let next = tick_state(v, segs);
            &&& (ts.len() > 0 && v.last_partial_text != Some(text)) ==> {
                &&& out.len() > 0
                &&& !out.last().is_final
                &&& out.last().text == text
                &&& out.last().started_at_ms == sat_add(v.window_start_offset_ms, ts[0].start_ms)
                &&& out.last().ended_at_ms == sat_add(v.window_start_offset_ms, ts.last().end_ms)
                &&& next.last_partial_text == Some(text)
            }
            &&& (ts.len() == 0 || v.last_partial_text == Some(text)) ==> forall|i: int|
                0 <= i < out.len() ==> (#[trigger] out[i]).is_final
            &&& ts.len() > 0 ==> next.last_partial_text == Some(text)
        }),
{
    let cutoff = stable_cutoff(v);
    lemma_tail_scan_is_join(segs, v.window_start_offset_ms, cutoff);
    lemma_final_scan_facts(segs, v.window_start_offset_ms, cutoff, v.committed_until_ms);
}

/// Two tail segments with texts `a` and `b` give the partial `a b`: the
/// join keeps every tail word, so its length is the sum of theirs plus one.
pub proof fn law_join_keeps_every_word(ws: Seq<Seq<char>>, w: Seq<char>)
    requires
        ws.len() > 0,
    ensures
        spaced_join(ws.push(w)) == spaced_join(ws) + seq![' '] + w,
        spaced_join(ws.push(w)).len() == spaced_join(ws).len() + 1 + w.len(),
{
    assert(ws.push(w).drop_last() =~= ws);
}

} // verus!

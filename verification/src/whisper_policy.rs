//! Decisions around the Whisper engine that do not touch the model or
//! the samples: the inference thread band, segment timestamps, periodic
//! recreation of the inference state, the voice-activity gate that skips
//! inference on silence, capture-format validation, and the duration of a
//! one-shot transcription.

use vstd::prelude::*;

verus! {

/// Sample rate Whisper consumes.
pub const WHISPER_SAMPLE_RATE: u32 = 16_000;

/// Inference threads used until the user picks another count.
pub const DEFAULT_INFERENCE_THREADS: i32 = 4;

/// Fewest inference threads allowed.
pub const MIN_INFERENCE_THREADS: i32 = 1;

/// Most inference threads allowed.
pub const MAX_INFERENCE_THREADS: i32 = 16;

/// Inferences one engine state serves before it is recreated.
pub const DEFAULT_STATE_RECREATE_INTERVAL: u64 = 30;

/// Silence after the last speech frame before inference is skipped, ms.
pub const DEFAULT_VAD_HANGOVER_MS: u64 = 1500;

/// Samples per voice-activity frame at 16 kHz.
pub const VAD_FRAME_LEN_SAMPLES: usize = 512;

/// The requested thread count, clamped to the allowed band.
pub fn clamp_inference_threads(threads: i32) -> (r: i32)
    ensures
        r == (if threads < MIN_INFERENCE_THREADS {
            MIN_INFERENCE_THREADS
        } else if threads > MAX_INFERENCE_THREADS {
            MAX_INFERENCE_THREADS
        } else {
            threads
        }),
{
    if threads < MIN_INFERENCE_THREADS {
        MIN_INFERENCE_THREADS
    } else if threads > MAX_INFERENCE_THREADS {
        MAX_INFERENCE_THREADS
    } else {
        threads
    }
}

/// A segment boundary reported in centiseconds, as milliseconds: negative
/// values count as zero and the product saturates.
pub fn segment_time_ms(centiseconds: i64) -> (r: u64)
    ensures
        r == (if centiseconds <= 0 {
            0
        } else if centiseconds * 10 > u64::MAX {
            u64::MAX as int
        } else {
            centiseconds * 10
        }),
{
    let t: u64 = if centiseconds < 0 { 0 } else { centiseconds as u64 };
    if t > u64::MAX / 10 {
        u64::MAX
    } else {
        t * 10
    }
}

/// After a successful inference: the new count of inferences on the
/// current state, and whether the state must now be dropped so the next
/// inference starts on a fresh one. An interval of zero never recreates.
pub fn after_inference(count: u64, interval: u64) -> (r: (u64, bool))
    requires
        count < u64::MAX,
    ensures
        interval > 0 && count + 1 >= interval ==> r == (0u64, true),
        !(interval > 0 && count + 1 >= interval) ==> r == ((count + 1) as u64, false),
{
    let next = count + 1;
    if interval > 0 && next >= interval {
        (0, true)
    } else {
        (next, false)
    }
}

/// Why captured audio cannot be converted for the engine.
#[derive(Debug, Clone, Copy, PartialEq, Eq, Structural)]
pub enum AudioFormatError {
    ZeroSampleRate,
    ZeroChannels,
}

/// Validates a capture format: the sample rate is checked first, then the
/// channel count.
pub fn check_capture_format(sample_rate: u32, channels: u16) -> (r: Result<(), AudioFormatError>)
    ensures
        sample_rate == 0 ==> r == Err::<(), AudioFormatError>(AudioFormatError::ZeroSampleRate),
        sample_rate != 0 && channels == 0 ==> r == Err::<(), AudioFormatError>(
            AudioFormatError::ZeroChannels,
        ),
        sample_rate != 0 && channels != 0 ==> r is Ok,
{
    if sample_rate == 0 {
        Err(AudioFormatError::ZeroSampleRate)
    } else if channels == 0 {
        Err(AudioFormatError::ZeroChannels)
    } else {
        Ok(())
    }
}

impl AudioFormatError {
    /// The user-facing message.
    pub fn message(self) -> (r: &'static str)
        ensures
            r@ == (match self {
                AudioFormatError::ZeroSampleRate => "captured audio has zero sample rate"@,
                AudioFormatError::ZeroChannels => "captured audio has zero channels"@,
            }),
    {
        match self {
            AudioFormatError::ZeroSampleRate => "captured audio has zero sample rate",
            AudioFormatError::ZeroChannels => "captured audio has zero channels",
        }
    }
}

/// Voice-activity gate of a streaming session. Incoming mono samples are
/// scored by the caller in whole frames; a partial frame waits for the
/// next feed. Times are milliseconds on the caller's monotonic clock.
#[derive(Debug, Clone, Copy, PartialEq, Eq)]
pub struct VadGate {
    pub disabled: bool,
    pub hangover_ms: u64,
    pub last_speech_ms: Option<u64>,
    pub residual: usize,
}

/// Skip condition.
pub open spec fn gate_spec(g: VadGate, now_ms: u64) -> bool {
    !g.disabled && match g.last_speech_ms {
        None => true,
        Some(t) => (if now_ms < t { 0 } else { now_ms - t }) > g.hangover_ms,
    }
}

impl VadGate {
    /// A gate that has heard nothing.
    pub fn new(disabled: bool, hangover_ms: u64) -> (r: Self)
        ensures
            r == (VadGate { disabled, hangover_ms, last_speech_ms: None, residual: 0 }),
    {
        VadGate { disabled, hangover_ms, last_speech_ms: None, residual: 0 }
    }

    /// How many whole frames are ready to score after `n` more samples,
    /// counting the carried partial frame. A disabled gate scores none.
    pub fn frames_ready(&self, n: usize) -> (r: usize)
        requires
            self.residual + n <= usize::MAX,
        ensures
            self.disabled ==> r == 0,
            !self.disabled ==> r == (self.residual + n) / (VAD_FRAME_LEN_SAMPLES as int),
    {
        if self.disabled {
            0
        } else {
            (self.residual + n) / VAD_FRAME_LEN_SAMPLES
        }
    }

    /// Records a feed of `n` samples whose whole frames were scored;
    /// `speech_heard` says whether any scored frame held speech (a scoring
    /// failure counts as speech). A disabled gate treats every feed as
    /// speech.
    pub fn on_feed(&mut self, n: usize, speech_heard: bool, now_ms: u64)
        requires
            old(self).residual + n <= usize::MAX,
        ensures
            final(self).disabled == old(self).disabled,
            final(self).hangover_ms == old(self).hangover_ms,
            old(self).disabled ==> final(self).last_speech_ms == Some(now_ms) && final(self).residual
                == old(self).residual,
            !old(self).disabled ==> final(self).residual == (old(self).residual + n) % (
            VAD_FRAME_LEN_SAMPLES as int) && final(self).last_speech_ms == (if speech_heard {
                Some(now_ms)
            } else {
                old(self).last_speech_ms
            }),
    {
        if self.disabled {
            self.last_speech_ms = Some(now_ms);
            return;
        }
        self.residual = (self.residual + n) % VAD_FRAME_LEN_SAMPLES;
        if speech_heard {
            self.last_speech_ms = Some(now_ms);
        }
    }

    /// Whether inference is skipped at `now_ms` (see [`gate_spec`]).
    pub fn should_gate(&self, now_ms: u64) -> (r: bool)
        ensures
            r == gate_spec(*self, now_ms),
    {
        if self.disabled {
            return false;
        }
        match self.last_speech_ms {
            None => true,
            Some(t) => now_ms.saturating_sub(t) > self.hangover_ms,
        }
    }
}

/// From a speech frame on, and for the whole grace period after it, the
/// gate stays open.
pub proof fn law_speech_opens_gate(g: VadGate, heard_at: u64, now_ms: u64)
    requires
        g.last_speech_ms == Some(heard_at),
        heard_at <= now_ms,
        now_ms - heard_at <= g.hangover_ms,
    ensures
        !gate_spec(g, now_ms),
{
}

/// Sum over chunks of whole frames (samples divided by the channel
/// count, at least one).
pub open spec fn total_frames(lens: Seq<usize>, channels: nat) -> nat
    decreases lens.len(),
{
    if lens.len() == 0 {
        0
    } else {
        total_frames(lens.drop_last(), channels) + (lens.last() as nat / (if channels == 0 {
            1
        } else {
            channels
        })) as nat
    }
}

proof fn lemma_total_frames_bound(lens: Seq<usize>, channels: nat, k: int)
    requires
        0 <= k <= lens.len(),
    ensures
        total_frames(lens.take(k), channels) <= total_frames(lens, channels),
    decreases lens.len() - k,
{
    if k < lens.len() {
        lemma_total_frames_bound(lens, channels, k + 1);
        assert(lens.take(k + 1).drop_last() =~= lens.take(k));
    } else {
        assert(lens.take(k) =~= lens);
    }
}

/// Duration in whole milliseconds of interleaved chunks of the given
/// lengths: frames summed over chunks, zero at a zero sample rate.
pub fn chunks_duration_ms(lens: &Vec<usize>, channels: u16, sample_rate: u32) -> (r: u64)
    requires
        total_frames(lens@, channels as nat) * 1000 <= u64::MAX,
    ensures
        r == (if sample_rate == 0 {
            0
        } else {
            (total_frames(lens@, channels as nat) * 1000) as int / (sample_rate as int)
        }),
{
    let ch: u64 = if channels == 0 { 1 } else { channels as u64 };
    let mut frames: u64 = 0;
    let mut k: usize = 0;
    while k < lens.len()
        invariant
            k <= lens@.len(),
            ch == (if channels == 0 { 1 } else { channels as u64 }),
            frames == total_frames(lens@.take(k as int), channels as nat),
            total_frames(lens@, channels as nat) * 1000 <= u64::MAX,
        decreases lens@.len() - k,
    {
        proof {
            assert(lens@.take(k + 1).drop_last() =~= lens@.take(k as int));
            assert(lens@.take(k + 1).last() == lens@[k as int]);
            lemma_total_frames_bound(lens@, channels as nat, k + 1);
        }
        frames = frames + (lens[k] as u64) / ch;
        k = k + 1;
    }
    proof {
        assert(lens@.take(lens@.len() as int) =~= lens@);
    }
    if sample_rate == 0 {
        0
    } else {
        (frames * 1000) / (sample_rate as u64)
    }
}

} // verus!

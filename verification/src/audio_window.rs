//! Bookkeeping of the rolling per-source audio buffer kept for the
//! diarizer: canonical 16 kHz mono, at most 30 s long, addressed by
//! absolute session time. The caller holds the samples; this module
//! decides how many to drop after an append and which index range a
//! session-time slice covers.

use vstd::prelude::*;

verus! {

/// Sample rate of every buffered sample.
pub const CANONICAL_SAMPLE_RATE_HZ: u32 = 16_000;

/// Longest audio the buffer keeps, in milliseconds.
pub const MAX_BUFFER_MS: u64 = 30_000;

/// Samples in `ms` milliseconds at the canonical rate (rounding down).
pub open spec fn ms_to_samples_spec(ms: int) -> int {
    ms * 16_000 / 1000
}

/// Milliseconds covered by `n` samples at the canonical rate (rounding
/// down).
pub open spec fn samples_to_ms_spec(n: int) -> int {
    n * 1000 / 16_000
}

/// Number of samples in `ms` milliseconds at 16 kHz.
pub fn ms_to_samples(ms: u64) -> (r: usize)
    requires
        ms * 16_000 <= usize::MAX,
    ensures
        r == ms_to_samples_spec(ms as int),
{
    assert(ms * 16_000 <= usize::MAX);
    let product: u64 = ms * (CANONICAL_SAMPLE_RATE_HZ as u64);
    (product / 1000) as usize
}

/// Milliseconds covered by `n` samples at 16 kHz.
pub fn samples_to_ms(n: usize) -> (r: u64)
    requires
        n * 1000 <= u64::MAX,
    ensures
        r == samples_to_ms_spec(n as int),
{
    ((n as u64) * 1000) / (CANONICAL_SAMPLE_RATE_HZ as u64)
}

/// At 16 kHz a millisecond is a whole number of samples, so converting
/// to samples and back gives the same time.
pub proof fn law_ms_round_trip(ms: int)
    requires
        ms >= 0,
    ensures
        samples_to_ms_spec(ms_to_samples_spec(ms)) == ms,
{
    assert(ms * 16_000 / 1000 == ms * 16) by (nonlinear_arith)
        requires
            ms >= 0,
    ;
    assert(ms * 16 * 1000 / 16_000 == ms) by (nonlinear_arith)
        requires
            ms >= 0,
    ;
}

/// Capacity of the buffer in samples.
pub open spec fn max_samples() -> int {
    ms_to_samples_spec(MAX_BUFFER_MS as int)
}

/// The index range of the buffer that a session-time slice covers: times
/// before the dropped horizon clamp to the front, the end clamps to the
/// buffer's length, and an empty or reversed range is none.
pub open spec fn slice_spec(len: int, dropped_ms: int, start_ms: int, end_ms: int) -> Option<(int, int)> {
    if end_ms <= start_ms {
        None
    } else {
        let rs = if start_ms < dropped_ms { 0 } else { start_ms - dropped_ms };
        let re = if end_ms < dropped_ms { 0 } else { end_ms - dropped_ms };
        if re <= rs {
            None
        } else {
            let a = ms_to_samples_spec(rs);
            let b0 = ms_to_samples_spec(re);
            let b = if b0 < len { b0 } else { len };
            if b <= a {
                None
            } else {
                Some((a, b))
            }
        }
    }
}

/// Length and dropped-time bookkeeping of a rolling buffer.
#[derive(Debug, Clone, Copy, PartialEq, Eq)]
pub struct RollingIndex {
    len: usize,
    dropped_ms: u64,
}

impl RollingIndex {
    /// Number of samples buffered.
    pub closed spec fn len_spec(&self) -> int {
        self.len as int
    }

    /// Milliseconds dropped from the front so far.
    pub closed spec fn dropped_spec(&self) -> int {
        self.dropped_ms as int
    }

    /// The buffer never exceeds its capacity.
    pub closed spec fn wf(&self) -> bool {
        self.len <= max_samples()
    }

    /// An empty buffer with nothing dropped.
    pub fn new() -> (r: Self)
        ensures
            r.wf(),
            r.len_spec() == 0,
            r.dropped_spec() == 0,
    {
        RollingIndex { len: 0, dropped_ms: 0 }
    }

    /// Number of samples buffered.
    pub fn len(&self) -> (r: usize)
        ensures
            r == self.len_spec(),
    {
        self.len
    }

    /// Milliseconds dropped from the front so far.
    pub fn dropped_ms(&self) -> (r: u64)
        ensures
            r == self.dropped_spec(),
    {
        self.dropped_ms
    }

    /// Records that `added` canonical samples were appended and returns
    /// how many of the oldest samples must now be dropped so the buffer
    /// keeps at most 30 s; the dropped time accumulates (saturating).
    pub fn on_append(&mut self, added: usize) -> (drop: usize)
        requires
            old(self).wf(),
            old(self).len_spec() + added <= usize::MAX,
            (old(self).len_spec() + added) * 1000 <= u64::MAX,
        ensures
            final(self).wf(),
            old(self).len_spec() + added <= max_samples() ==> drop == 0 && final(self).len_spec()
                == old(self).len_spec() + added && final(self).dropped_spec() == old(self).dropped_spec(),
            old(self).len_spec() + added > max_samples() ==> drop == old(self).len_spec() + added
                - max_samples() && final(self).len_spec() == max_samples() && final(self).dropped_spec()
                == (if old(self).dropped_spec() + samples_to_ms_spec(drop as int) > u64::MAX {
                u64::MAX as int
            } else {
                old(self).dropped_spec() + samples_to_ms_spec(drop as int)
            }),
    {
        let cap: usize = 480_000;
        assert(max_samples() == 480_000);
        let total: usize = self.len + added;
        if total > cap {
            let drop = total - cap;
            self.len = cap;
            self.dropped_ms = self.dropped_ms.saturating_add(samples_to_ms(drop));
            drop
        } else {
            self.len = total;
            0
        }
    }

    /// The sample range covering session times `[start_ms, end_ms)` (see
    /// [`slice_spec`]).
    pub fn slice_range(&self, start_ms: u64, end_ms: u64) -> (r: Option<(usize, usize)>)
        requires
            end_ms * 16_000 <= usize::MAX,
        ensures
            match slice_spec(self.len_spec(), self.dropped_spec(), start_ms as int, end_ms as int) {
                Some((a, b)) => r matches Some((x, y)) && x == a && y == b,
                None => r is None,
            },
    {
        if end_ms <= start_ms {
            return None;
        }
        let rel_start = start_ms.saturating_sub(self.dropped_ms);
        let rel_end = end_ms.saturating_sub(self.dropped_ms);
        if rel_end <= rel_start {
            return None;
        }
        let a = ms_to_samples(rel_start);
        let b0 = ms_to_samples(rel_end);
        let b = if b0 < self.len { b0 } else { self.len };
        if b <= a {
            return None;
        }
        Some((a, b))
    }
}

} // verus!

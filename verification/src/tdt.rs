//! Greedy Token-and-Duration Transducer decoding: the frame-advance rules
//! and the anti-hang guards. The caller evaluates the joint network and
//! reduces its output to a token and a duration index; this state machine
//! decides what is emitted, where decoding continues, and when it stops.

use vstd::prelude::*;

use crate::vocab::{BLANK_ID, VOCAB_SIZE};

verus! {

/// Emissions allowed against one encoder frame before a forced advance.
pub const MAX_SYMBOLS_PER_FRAME: usize = 10;

/// Ceiling on joint evaluations, per encoder frame.
pub const MAX_TOTAL_STEPS_PER_FRAME: usize = 4;

/// Number of duration classes the joint predicts.
pub const NUM_DURATIONS: usize = 5;

/// Frames advanced for duration class `idx`.
pub open spec fn duration_of(idx: nat) -> nat {
    idx
}

/// Frames advanced for duration class `idx` (classes are 0..=4 frames).
pub fn duration_for(idx: usize) -> (r: usize)
    requires
        idx < NUM_DURATIONS,
    ensures
        r == duration_of(idx as nat),
{
    idx
}

/// Whether a joint output of `len` values holds a score for every
/// vocabulary token and every duration class; a shorter output is an error.
pub fn joint_width_ok(len: usize) -> (r: bool)
    ensures
        r == (len >= VOCAB_SIZE + NUM_DURATIONS),
{
    len >= VOCAB_SIZE + NUM_DURATIONS
}

/// Mathematical view of the decoder.
pub struct TdtView {
    pub num_frames: nat,
    pub t: nat,
    pub last_token: i32,
    pub symbols_at_t: nat,
    pub total_steps: nat,
    pub max_total_steps: nat,
    pub tokens: Seq<i32>,
}

/// `a * b`, saturating at `usize::MAX`.
pub open spec fn sat_mul(a: nat, b: nat) -> nat {
    if a * b > usize::MAX { usize::MAX as nat } else { a * b }
}

/// Whether another joint evaluation is due.
pub open spec fn tdt_running(v: TdtView) -> bool {
    v.t < v.num_frames && v.total_steps < v.max_total_steps
}

/// The decoder state after the joint chose `token` and duration class
/// `didx`: a blank emits nothing, keeps the predictor input and advances
/// at least one frame; a real token is emitted and becomes the predictor
/// input, then a positive duration advances that far, while a zero
/// duration stays on the frame until the per-frame cap forces one step.
pub open spec fn tdt_advance(v: TdtView, token: nat, didx: nat) -> TdtView {
    let v1 = TdtView { total_steps: v.total_steps + 1, ..v };
    let d = duration_of(didx);
    if token == BLANK_ID {
        TdtView { t: v1.t + (if d == 0 { 1 } else { d }), symbols_at_t: 0, ..v1 }
    } else {
        let v2 = TdtView {
            tokens: v1.tokens.push(token as i32),
            last_token: token as i32,
            symbols_at_t: v1.symbols_at_t + 1,
            ..v1
        };
        if d == 0 {
            if v2.symbols_at_t >= MAX_SYMBOLS_PER_FRAME {
                TdtView { t: v2.t + 1, symbols_at_t: 0, ..v2 }
            } else {
                v2
            }
        } else {
            TdtView { t: v2.t + d, symbols_at_t: 0, ..v2 }
        }
    }
}

/// The decoder before the first step over `num_frames` frames.
pub open spec fn tdt_initial(num_frames: nat) -> TdtView {
    TdtView {
        num_frames,
        t: 0,
        last_token: BLANK_ID,
        symbols_at_t: 0,
        total_steps: 0,
        max_total_steps: sat_mul(num_frames, MAX_TOTAL_STEPS_PER_FRAME as nat),
        tokens: seq![],
    }
}

/// The decoder after offering the joint's choices `cs` (token, duration
/// class) in order; a choice offered once decoding has stopped changes
/// nothing.
pub open spec fn tdt_run(v: TdtView, cs: Seq<(nat, nat)>) -> TdtView
    decreases cs.len(),
{
    if cs.len() == 0 {
        v
    } else {
        let w = tdt_run(v, cs.drop_last());
        if tdt_running(w) {
            tdt_advance(w, cs.last().0, cs.last().1)
        } else {
            w
        }
    }
}

/// Whether every choice names a vocabulary token and a duration class.
pub open spec fn valid_choices(cs: Seq<(nat, nat)>) -> bool {
    forall|i: int| 0 <= i < cs.len() ==> (#[trigger] cs[i]).0 < VOCAB_SIZE && cs[i].1 < NUM_DURATIONS
}

/// Greedy TDT decoder state.
pub struct TdtDecoder {
    num_frames: usize,
    t: usize,
    last_token: i32,
    symbols_at_t: usize,
    total_steps: usize,
    max_total_steps: usize,
    tokens: Vec<i32>,
}

impl View for TdtDecoder {
    type V = TdtView;

    closed spec fn view(&self) -> TdtView {
        TdtView {
            num_frames: self.num_frames as nat,
            t: self.t as nat,
            last_token: self.last_token,
            symbols_at_t: self.symbols_at_t as nat,
            total_steps: self.total_steps as nat,
            max_total_steps: self.max_total_steps as nat,
            tokens: self.tokens@,
        }
    }
}

/// Invariant of the decoder: the step count never passes its ceiling,
/// emissions per frame stay under the cap, and every emitted token is a
/// real (non-blank) vocabulary entry.
pub open spec fn tdt_wf(v: TdtView) -> bool {
    &&& v.total_steps <= v.max_total_steps
    &&& v.max_total_steps == sat_mul(v.num_frames, MAX_TOTAL_STEPS_PER_FRAME as nat)
    &&& v.symbols_at_t < MAX_SYMBOLS_PER_FRAME
    &&& v.tokens.len() <= v.total_steps
    &&& forall|i: int|
        0 <= i < v.tokens.len() ==> 0 <= #[trigger] v.tokens[i] < VOCAB_SIZE && v.tokens[i]
            != BLANK_ID
}

impl TdtDecoder {
    /// The decoder before the first step: frame 0, blank as the predictor
    /// input, and a step ceiling of four per frame.
    pub fn new(num_frames: usize) -> (r: Self)
        ensures
            tdt_wf(r@),
            r@.num_frames == num_frames,
            r@.t == 0,
            r@.last_token == BLANK_ID,
            r@.symbols_at_t == 0,
            r@.total_steps == 0,
            r@.tokens.len() == 0,
            r@ == tdt_initial(num_frames as nat),
    {
        let max_total_steps = if num_frames > usize::MAX / MAX_TOTAL_STEPS_PER_FRAME {
            usize::MAX
        } else {
            num_frames * MAX_TOTAL_STEPS_PER_FRAME
        };
        TdtDecoder {
            num_frames,
            t: 0,
            last_token: BLANK_ID,
            symbols_at_t: 0,
            total_steps: 0,
            max_total_steps,
            tokens: Vec::new(),
        }
    }

    /// The next joint evaluation to run, as `(frame, previous token)`, or
    /// `None` once the frames are exhausted or the step ceiling is hit.
    pub fn next_step(&self) -> (r: Option<(usize, i32)>)
        requires
            tdt_wf(self@),
        ensures
            tdt_running(self@) ==> r == Some((self@.t as usize, self@.last_token)),
            !tdt_running(self@) ==> r is None,
    {
        if self.t < self.num_frames && self.total_steps < self.max_total_steps {
            Some((self.t, self.last_token))
        } else {
            None
        }
    }

    /// Applies the joint's choice of `token` and duration class
    /// `duration_idx` (see [`tdt_advance`]). Returns whether the caller
    /// adopts the predictor state the step produced (only for real tokens).
    pub fn advance(&mut self, token: usize, duration_idx: usize) -> (adopt: bool)
        requires
            tdt_wf(old(self)@),
            tdt_running(old(self)@),
            token < VOCAB_SIZE,
            duration_idx < NUM_DURATIONS,
            old(self)@.t + NUM_DURATIONS <= usize::MAX,
        ensures
            tdt_wf(final(self)@),
            final(self)@ == tdt_advance(old(self)@, token as nat, duration_idx as nat),
            adopt == (token != BLANK_ID),
    {
        self.total_steps = self.total_steps + 1;
        let duration = duration_for(duration_idx);
        if token == 8192 {
            self.t = self.t + if duration == 0 {
                1
            } else {
                duration
            };
            self.symbols_at_t = 0;
            return false;
        }
        let ghost before = self.tokens@;
        self.tokens.push(token as i32);
        self.last_token = token as i32;
        self.symbols_at_t = self.symbols_at_t + 1;
        if duration == 0 {
            if self.symbols_at_t >= MAX_SYMBOLS_PER_FRAME {
                self.t = self.t + 1;
                self.symbols_at_t = 0;
            }
        } else {
            self.t = self.t + duration;
            self.symbols_at_t = 0;
        }
        assert forall|i: int| 0 <= i < self.tokens@.len() implies 0 <= #[trigger] self.tokens@[i]
            < VOCAB_SIZE && self.tokens@[i] != BLANK_ID by {
            if i < before.len() {
                assert(self.tokens@[i] == before[i]);
            }
        }
        true
    }

    /// The tokens emitted so far, blanks excluded.
    pub fn into_tokens(self) -> (r: Vec<i32>)
        ensures
            r@ == self@.tokens,
    {
        self.tokens
    }
}

/// Decoding always ends: every step raises the step count by one, the
/// count never passes `4 × frames`, and so at most that many joint
/// evaluations run; no more tokens than steps are ever emitted.
pub proof fn law_decode_bounded(v: TdtView, token: nat, didx: nat)
    requires
        tdt_wf(v),
        tdt_running(v),
        token < VOCAB_SIZE,
        didx < NUM_DURATIONS,
    ensures
        tdt_advance(v, token, didx).total_steps == v.total_steps + 1,
        tdt_advance(v, token, didx).total_steps <= v.max_total_steps,
        tdt_advance(v, token, didx).tokens.len() <= tdt_advance(v, token, didx).total_steps,
        tdt_advance(v, token, didx).t >= v.t,
{
}

/// A blank never stalls: it always moves at least one frame forward.
pub proof fn law_blank_advances(v: TdtView, didx: nat)
    ensures
        tdt_advance(v, BLANK_ID as nat, didx).t >= v.t + 1,
        tdt_advance(v, BLANK_ID as nat, didx).tokens == v.tokens,
{
}

proof fn lemma_advance_wf(v: TdtView, token: nat, didx: nat)
    requires
        tdt_wf(v),
        tdt_running(v),
        token < VOCAB_SIZE,
        didx < NUM_DURATIONS,
    ensures
        tdt_wf(tdt_advance(v, token, didx)),
        tdt_advance(v, token, didx).total_steps == v.total_steps + 1,
{
    let w = tdt_advance(v, token, didx);
    assert forall|i: int| 0 <= i < w.tokens.len() implies 0 <= #[trigger] w.tokens[i] < VOCAB_SIZE
        && w.tokens[i] != BLANK_ID by {
        if i < v.tokens.len() {
            assert(w.tokens[i] == v.tokens[i]);
        }
    }
}

proof fn lemma_run_steps(v: TdtView, cs: Seq<(nat, nat)>)
    requires
        tdt_wf(v),
        valid_choices(cs),
    ensures
        tdt_wf(tdt_run(v, cs)),
        tdt_run(v, cs).total_steps <= v.total_steps + cs.len(),
        tdt_running(tdt_run(v, cs)) ==> tdt_run(v, cs).total_steps == v.total_steps + cs.len(),
        tdt_run(v, cs).num_frames == v.num_frames,
        tdt_run(v, cs).max_total_steps == v.max_total_steps,
    decreases cs.len(),
{
    if cs.len() > 0 {
        let pre = cs.drop_last();
        assert(valid_choices(pre)) by {
            assert forall|i: int| 0 <= i < pre.len() implies (#[trigger] pre[i]).0 < VOCAB_SIZE
                && pre[i].1 < NUM_DURATIONS by {
                assert(pre[i] == cs[i]);
            }
        }
        lemma_run_steps(v, pre);
        let w = tdt_run(v, pre);
        assert(cs.last() == cs[cs.len() - 1]);
        if tdt_running(w) {
            lemma_advance_wf(w, cs.last().0, cs.last().1);
        }
    }
}

/// Decoding always terminates within its step ceiling: over `num_frames`
/// frames, whatever the joint chooses, at most `4 × num_frames` joint
/// evaluations run (saturating), so after that many choices the decoder
/// has stopped; with no frames it never asks for a step, and otherwise its
/// first step is frame 0 with the blank as predictor input. Emitted tokens
/// are never the blank.
pub proof fn law_decode_terminates(num_frames: nat, cs: Seq<(nat, nat)>)
    requires
        valid_choices(cs),
    ensures
        ({
            let v0 = tdt_initial(num_frames);
            let end = tdt_run(v0, cs);
            &&& num_frames == 0 ==> !tdt_running(v0)
            &&& num_frames > 0 ==> tdt_running(v0) && v0.t == 0 && v0.last_token == BLANK_ID
            &&& end.total_steps <= sat_mul(num_frames, MAX_TOTAL_STEPS_PER_FRAME as nat)
            &&& end.total_steps <= cs.len()
            &&& cs.len() >= sat_mul(num_frames, MAX_TOTAL_STEPS_PER_FRAME as nat) ==> !tdt_running(end)
            &&& forall|i: int| 0 <= i < end.tokens.len() ==> #[trigger] end.tokens[i] != BLANK_ID
        }),
{
    let v0 = tdt_initial(num_frames);
    assert(tdt_wf(v0));
    lemma_run_steps(v0, cs);
    if num_frames > 0 {
        assert(sat_mul(num_frames, 4) > 0) by (nonlinear_arith)
            requires
                num_frames > 0,
        ;
    }
}

/// One joint step moves the decoder by the predicted duration class `d`:
/// a blank emits nothing, keeps the predictor input and advances
/// `max(d, 1)` frames; a real token is emitted and becomes the predictor
/// input, then advances exactly `d` frames when `d > 0`, while `d == 0`
/// stays on the frame until the per-frame cap of emissions forces a
/// one-frame step. Every step counts once toward the step ceiling.
pub proof fn law_advance_by_duration(v: TdtView, token: nat, d: nat)
    requires
        d < NUM_DURATIONS,
    ensures
        ({
            let w = tdt_advance(v, token, d);
            &&& w.total_steps == v.total_steps + 1
            &&& w.num_frames == v.num_frames
            &&& token == BLANK_ID ==> {
                &&& w.t == v.t + (if d == 0 { 1 } else { d })
                &&& w.tokens == v.tokens
                &&& w.last_token == v.last_token
                &&& w.symbols_at_t == 0
            }
            &&& token != BLANK_ID ==> {
                &&& w.tokens == v.tokens.push(token as i32)
                &&& w.last_token == token as i32
                &&& d > 0 ==> w.t == v.t + d && w.symbols_at_t == 0
                &&& d == 0 && v.symbols_at_t + 1 >= MAX_SYMBOLS_PER_FRAME ==> w.t == v.t + 1
                    && w.symbols_at_t == 0
                &&& d == 0 && v.symbols_at_t + 1 < MAX_SYMBOLS_PER_FRAME ==> w.t == v.t
                    && w.symbols_at_t == v.symbols_at_t + 1
            }
        }),
{
}

} // verus!

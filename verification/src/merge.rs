//! Merging one tick's per-source utterance batches into a single
//! chronological sequence (so a diarizer sees the conversation in order),
//! and splitting the labelled sequence back per source.
//!
//! An utterance is tagged by `(bucket, index)`. The chronological order
//! sorts tags by start time; ties keep the order in which the buckets were
//! assembled (bucket first, then index), so simultaneous utterances never
//! swap places from one tick to the next.

use vstd::prelude::*;

use crate::streaming::{utts_view, Utterance, UtteranceView};

verus! {

/// The start times of every bucket's utterances.
pub open spec fn starts_view(buckets: Seq<Vec<Utterance>>) -> Seq<Seq<u64>> {
    buckets.map_values(|b: Vec<Utterance>| b@.map_values(|u: Utterance| u.started_at_ms))
}

/// `t` names an utterance of `starts`.
pub open spec fn valid_tag(starts: Seq<Seq<u64>>, t: (usize, usize)) -> bool {
    t.0 < starts.len() && t.1 < starts[t.0 as int].len()
}

/// Assembly order: by bucket, then by index within the bucket.
pub open spec fn assembled_before(x: (usize, usize), y: (usize, usize)) -> bool {
    x.0 < y.0 || (x.0 == y.0 && x.1 < y.1)
}

/// Chronological order: by start time, ties in assembly order.
pub open spec fn tag_before(starts: Seq<Seq<u64>>, x: (usize, usize), y: (usize, usize)) -> bool {
    let sx = starts[x.0 as int][x.1 as int];
    let sy = starts[y.0 as int][y.1 as int];
    sx < sy || (sx == sy && assembled_before(x, y))
}

/// `order` lists every utterance of `starts` exactly once, chronologically.
pub open spec fn is_chronological_order(starts: Seq<Seq<u64>>, order: Seq<(usize, usize)>) -> bool {
    &&& forall|k: int| 0 <= k < order.len() ==> valid_tag(starts, #[trigger] order[k])
    &&& forall|j: int, k: int|
        0 <= j < k < order.len() ==> tag_before(starts, #[trigger] order[j], #[trigger] order[k])
    &&& forall|t: (usize, usize)| valid_tag(starts, t) ==> order.contains(t)
}

fn tag_before_exec(buckets: &Vec<Vec<Utterance>>, x: (usize, usize), y: (usize, usize)) -> (r: bool)
    requires
        valid_tag(starts_view(buckets@), x),
        valid_tag(starts_view(buckets@), y),
    ensures
        r == tag_before(starts_view(buckets@), x, y),
{
    let sx = buckets[x.0][x.1].started_at_ms;
    let sy = buckets[y.0][y.1].started_at_ms;
    proof {
        assert(starts_view(buckets@)[x.0 as int] == buckets@[x.0 as int]@.map_values(
            |u: Utterance| u.started_at_ms,
        ));
        assert(starts_view(buckets@)[y.0 as int] == buckets@[y.0 as int]@.map_values(
            |u: Utterance| u.started_at_ms,
        ));
    }
    sx < sy || (sx == sy && (x.0 < y.0 || (x.0 == y.0 && x.1 < y.1)))
}

/// The chronological order of all utterances in `buckets` (see
/// [`is_chronological_order`]).
pub fn chronological_order(buckets: &Vec<Vec<Utterance>>) -> (r: Vec<(usize, usize)>)
    ensures
        is_chronological_order(starts_view(buckets@), r@),
{
    let ghost st = starts_view(buckets@);
    let mut out: Vec<(usize, usize)> = Vec::new();
    let mut b: usize = 0;
    while b < buckets.len()
        invariant
            st == starts_view(buckets@),
            b <= buckets@.len(),
            forall|k: int| 0 <= k < out@.len() ==> valid_tag(st, #[trigger] out@[k]),
            forall|k: int| 0 <= k < out@.len() ==> (#[trigger] out@[k]).0 < b,
            forall|j: int, k: int|
                0 <= j < k < out@.len() ==> tag_before(st, #[trigger] out@[j], #[trigger] out@[k]),
            forall|t: (usize, usize)| valid_tag(st, t) && t.0 < b ==> out@.contains(t),
        decreases buckets@.len() - b,
    {
        let n = buckets[b].len();
        assert(st[b as int].len() == n);
        let mut i: usize = 0;
        while i < n
            invariant
                st == starts_view(buckets@),
                b < buckets@.len(),
                n == st[b as int].len(),
                i <= n,
                forall|k: int| 0 <= k < out@.len() ==> valid_tag(st, #[trigger] out@[k]),
                forall|k: int| 0 <= k < out@.len() ==> assembled_before(#[trigger] out@[k], (b, i)),
                forall|j: int, k: int|
                    0 <= j < k < out@.len() ==> tag_before(st, #[trigger] out@[j], #[trigger] out@[k]),
                forall|t: (usize, usize)|
                    valid_tag(st, t) && assembled_before(t, (b, i)) ==> out@.contains(t),
            decreases n - i,
        {
            let x: (usize, usize) = (b, i);
            let mut p: usize = out.len();
            while p > 0 && tag_before_exec(buckets, x, out[p - 1])
                invariant
                    st == starts_view(buckets@),
                    valid_tag(st, x),
                    p <= out@.len(),
                    forall|k: int| 0 <= k < out@.len() ==> valid_tag(st, #[trigger] out@[k]),
                    forall|k: int| p <= k < out@.len() ==> tag_before(st, x, #[trigger] out@[k]),
                decreases p,
            {
                p = p - 1;
            }
            let ghost o0 = out@;
            out.insert(p, x);
            proof {
                assert(out@ =~= o0.insert(p as int, x));
                if p > 0 {
                    let y = o0[p - 1];
                    assert(assembled_before(y, x));
                    assert(!tag_before(st, x, y));
                    assert(tag_before(st, y, x));
                }
                assert forall|j: int, k: int|
                    0 <= j < k < out@.len() implies tag_before(st, #[trigger] out@[j], #[trigger] out@[k]) by {
                    if k < p {
                        assert(out@[j] == o0[j] && out@[k] == o0[k]);
                    } else if k == p {
                        assert(out@[j] == o0[j]);
                        if j < p - 1 {
                            assert(tag_before(st, o0[j], o0[p - 1]));
                        }
                    } else if j < p {
                        assert(out@[j] == o0[j] && out@[k] == o0[k - 1]);
                    } else if j == p {
                        assert(out@[k] == o0[k - 1]);
                    } else {
                        assert(out@[j] == o0[j - 1] && out@[k] == o0[k - 1]);
                    }
                }
                assert forall|k: int| 0 <= k < out@.len() implies assembled_before(
                    #[trigger] out@[k],
                    (b, (i + 1) as usize),
                ) by {
                    if k < p {
                        assert(out@[k] == o0[k]);
                    } else if k > p {
                        assert(out@[k] == o0[k - 1]);
                    }
                }
                assert forall|t: (usize, usize)|
                    valid_tag(st, t) && assembled_before(t, (b, (i + 1) as usize)) implies out@.contains(t) by {
                    if t == x {
                        assert(out@[p as int] == x);
                    } else {
                        assert(assembled_before(t, (b, i)));
                        assert(o0.contains(t));
                        let k = choose|k: int| 0 <= k < o0.len() && o0[k] == t;
                        if k < p {
                            assert(out@[k] == t);
                        } else {
                            assert(out@[k + 1] == t);
                        }
                    }
                }
                assert forall|k: int| 0 <= k < out@.len() implies valid_tag(st, #[trigger] out@[k]) by {
                    if k < p {
                        assert(out@[k] == o0[k]);
                    } else if k > p {
                        assert(out@[k] == o0[k - 1]);
                    }
                }
            }
            i = i + 1;
        }
        proof {
            assert forall|t: (usize, usize)| valid_tag(st, t) && t.0 < b + 1 implies out@.contains(t) by {
                if t.0 < b {
                    assert(assembled_before(t, (b, i)));
                } else {
                    assert(t.1 < n);
                    assert(assembled_before(t, (b, i)));
                }
            }
        }
        b = b + 1;
    }
    out
}

/// Every utterance of a tick is handed on exactly once: a chronological
/// order holds each valid tag at exactly one position.
pub proof fn law_each_utterance_once(starts: Seq<Seq<u64>>, order: Seq<(usize, usize)>, t: (usize, usize))
    requires
        is_chronological_order(starts, order),
        valid_tag(starts, t),
    ensures
        exists|k: int| 0 <= k < order.len() && order[k] == t,
        forall|j: int, k: int| 0 <= j < order.len() && 0 <= k < order.len() && order[j] == t && order[k] == t ==> j == k,
{
    assert(order.contains(t));
    assert forall|j: int, k: int| 0 <= j < order.len() && 0 <= k < order.len() && order[j] == t && order[k] == t implies j == k by {
        if j < k {
            assert(tag_before(starts, order[j], order[k]));
        } else if k < j {
            assert(tag_before(starts, order[k], order[j]));
        }
    }
}

/// The utterances named by `order`, in that order.
pub fn gather(buckets: &Vec<Vec<Utterance>>, order: &Vec<(usize, usize)>) -> (r: Vec<Utterance>)
    requires
        forall|k: int| 0 <= k < order@.len() ==> valid_tag(starts_view(buckets@), #[trigger] order@[k]),
    ensures
        r@.len() == order@.len(),
        forall|k: int|
            0 <= k < order@.len() ==> (#[trigger] r@[k])@ == buckets@[order@[k].0 as int]@[order@[k].1 as int]@,
{
    let mut out: Vec<Utterance> = Vec::new();
    let mut k: usize = 0;
    while k < order.len()
        invariant
            k <= order@.len(),
            out@.len() == k,
            forall|q: int| 0 <= q < order@.len() ==> valid_tag(starts_view(buckets@), #[trigger] order@[q]),
            forall|q: int|
                0 <= q < k ==> (#[trigger] out@[q])@ == buckets@[order@[q].0 as int]@[order@[q].1 as int]@,
        decreases order@.len() - k,
    {
        let t = order[k];
        proof {
            assert(valid_tag(starts_view(buckets@), order@[k as int]));
            assert(starts_view(buckets@)[t.0 as int].len() == buckets@[t.0 as int]@.len());
        }
        out.push(buckets[t.0][t.1].duplicate());
        k = k + 1;
    }
    out
}

/// Positions of the finals in `s`, in increasing order.
pub open spec fn final_positions_spec(s: Seq<UtteranceView>) -> Seq<int>
    decreases s.len(),
{
    if s.len() == 0 {
        seq![]
    } else if s.last().is_final {
        final_positions_spec(s.drop_last()).push(s.len() - 1)
    } else {
        final_positions_spec(s.drop_last())
    }
}

/// Positions of the finals among `utts`: only finals go to the diarizer.
pub fn final_positions(utts: &Vec<Utterance>) -> (r: Vec<usize>)
    ensures
        r@.map_values(|p: usize| p as int) == final_positions_spec(utts_view(utts@)),
{
    let mut out: Vec<usize> = Vec::new();
    let mut k: usize = 0;
    while k < utts.len()
        invariant
            k <= utts@.len(),
            out@.map_values(|p: usize| p as int) == final_positions_spec(utts_view(utts@.take(k as int))),
        decreases utts@.len() - k,
    {
        let ghost before = out@;
        if utts[k].is_final {
            out.push(k);
        }
        proof {
            let tk = utts_view(utts@.take(k + 1));
            assert(tk.drop_last() =~= utts_view(utts@.take(k as int)));
            assert(tk.last() == utts@[k as int]@);
            if utts@[k as int].is_final {
                assert(out@ == before.push(k));
                assert(out@.map_values(|p: usize| p as int) =~= before.map_values(|p: usize| p as int).push(k as int));
            }
        }
        k = k + 1;
    }
    proof {
        assert(utts@.take(utts@.len() as int) =~= utts@);
    }
    out
}

/// The entries of `chron` whose tag lies in bucket `b`, in order.
pub open spec fn bucket_part(order: Seq<(usize, usize)>, chron: Seq<UtteranceView>, b: usize) -> Seq<UtteranceView>
    decreases order.len(),
{
    if order.len() == 0 || chron.len() != order.len() {
        seq![]
    } else if order.last().0 == b {
        bucket_part(order.drop_last(), chron.drop_last(), b).push(chron.last())
    } else {
        bucket_part(order.drop_last(), chron.drop_last(), b)
    }
}

/// Splits the chronological sequence back into `n` per-bucket sequences,
/// each keeping the chronological order.
pub fn split_by_bucket(order: &Vec<(usize, usize)>, chron: &Vec<Utterance>, n: usize) -> (r: Vec<Vec<Utterance>>)
    requires
        order@.len() == chron@.len(),
    ensures
        r@.len() == n,
        forall|b: int| 0 <= b < n ==> utts_view((#[trigger] r@[b])@) == bucket_part(order@, utts_view(chron@), b as usize),
{
    let mut out: Vec<Vec<Utterance>> = Vec::new();
    let mut b: usize = 0;
    while b < n
        invariant
            b <= n,
            order@.len() == chron@.len(),
            out@.len() == b,
            forall|q: int| 0 <= q < b ==> utts_view((#[trigger] out@[q])@) == bucket_part(order@, utts_view(chron@), q as usize),
        decreases n - b,
    {
        let mut v: Vec<Utterance> = Vec::new();
        let mut k: usize = 0;
        while k < order.len()
            invariant
                k <= order@.len(),
                order@.len() == chron@.len(),
                utts_view(v@) == bucket_part(order@.take(k as int), utts_view(chron@).take(k as int), b),
            decreases order@.len() - k,
        {
            let ghost before = v@;
            if order[k].0 == b {
                v.push(chron[k].duplicate());
            }
            proof {
                let o1 = order@.take(k + 1);
                let c1 = utts_view(chron@).take(k + 1);
                assert(o1.drop_last() =~= order@.take(k as int));
                assert(c1.drop_last() =~= utts_view(chron@).take(k as int));
                assert(o1.last() == order@[k as int]);
                assert(c1.last() == chron@[k as int]@);
                if order@[k as int].0 == b {
                    assert(utts_view(v@) =~= utts_view(before).push(chron@[k as int]@));
                }
            }
            k = k + 1;
        }
        proof {
            assert(order@.take(order@.len() as int) =~= order@);
            assert(utts_view(chron@).take(chron@.len() as int) =~= utts_view(chron@));
        }
        out.push(v);
        b = b + 1;
    }
    out
}

/// Indices, in order of appearance, of the tags of bucket `b` in `order`.
pub open spec fn tags_of(order: Seq<(usize, usize)>, b: usize) -> Seq<usize>
    decreases order.len(),
{
    if order.len() == 0 {
        seq![]
    } else if order.last().0 == b {
        tags_of(order.drop_last(), b).push(order.last().1)
    } else {
        tags_of(order.drop_last(), b)
    }
}

proof fn lemma_tags_of_members(order: Seq<(usize, usize)>, b: usize)
    ensures
        forall|q: int| 0 <= q < tags_of(order, b).len() ==> exists|k: int|
            0 <= k < order.len() && order[k] == (b, #[trigger] tags_of(order, b)[q]),
        forall|k: int| 0 <= k < order.len() && (#[trigger] order[k]).0 == b ==> tags_of(order, b).contains(order[k].1),
    decreases order.len(),
{
    if order.len() > 0 {
        let o1 = order.drop_last();
        lemma_tags_of_members(o1, b);
        let t = tags_of(order, b);
        let t1 = tags_of(o1, b);
        assert forall|q: int| 0 <= q < t.len() implies exists|k: int|
            0 <= k < order.len() && order[k] == (b, #[trigger] t[q]) by {
            if q < t1.len() {
                assert(t[q] == t1[q]);
                let k = choose|k: int| 0 <= k < o1.len() && o1[k] == (b, t1[q]);
                assert(order[k] == o1[k]);
            } else {
                assert(order.last().0 == b);
                assert(order[order.len() - 1] == (b, t[q]));
            }
        }
        assert forall|k: int| 0 <= k < order.len() && (#[trigger] order[k]).0 == b implies t.contains(order[k].1) by {
            if k < order.len() - 1 {
                assert(o1[k] == order[k]);
                assert(t1.contains(order[k].1));
                let q = choose|q: int| 0 <= q < t1.len() && t1[q] == order[k].1;
                if order.last().0 == b {
                    assert(t[q] == t1[q]);
                } else {
                    assert(t == t1);
                }
            } else {
                assert(t[t.len() - 1] == order[k].1);
            }
        }
    }
}

proof fn lemma_tags_of_sorted(starts: Seq<Seq<u64>>, order: Seq<(usize, usize)>, b: usize)
    requires
        forall|j: int, k: int| 0 <= j < k < order.len() ==> tag_before(starts, #[trigger] order[j], #[trigger] order[k]),
    ensures
        forall|j: int, k: int|
            0 <= j < k < tags_of(order, b).len() ==> tag_before(
                starts,
                (b, #[trigger] tags_of(order, b)[j]),
                (b, #[trigger] tags_of(order, b)[k]),
            ),
    decreases order.len(),
{
    if order.len() > 0 {
        let o1 = order.drop_last();
        assert forall|j: int, k: int| 0 <= j < k < o1.len() implies tag_before(starts, #[trigger] o1[j], #[trigger] o1[k]) by {
            assert(o1[j] == order[j] && o1[k] == order[k]);
        }
        lemma_tags_of_sorted(starts, o1, b);
        lemma_tags_of_members(o1, b);
        let t = tags_of(order, b);
        let t1 = tags_of(o1, b);
        if order.last().0 == b {
            assert forall|j: int, k: int| 0 <= j < k < t.len() implies tag_before(
                starts,
                (b, #[trigger] t[j]),
                (b, #[trigger] t[k]),
            ) by {
                if k < t1.len() {
                    assert(t[j] == t1[j] && t[k] == t1[k]);
                } else {
                    assert(t[j] == t1[j]);
                    let m = choose|m: int| 0 <= m < o1.len() && o1[m] == (b, t1[j]);
                    assert(order[m] == o1[m]);
                    assert(tag_before(starts, order[m], order[order.len() - 1]));
                }
            }
        }
    }
}

proof fn lemma_bucket_part_is_tags(
    buckets: Seq<Vec<Utterance>>,
    order: Seq<(usize, usize)>,
    chron: Seq<UtteranceView>,
    b: usize,
)
    requires
        chron.len() == order.len(),
        forall|k: int| 0 <= k < order.len() ==> (#[trigger] chron[k]) == buckets[order[k].0 as int]@[order[k].1 as int]@,
    ensures
        bucket_part(order, chron, b) == tags_of(order, b).map_values(|i: usize| buckets[b as int]@[i as int]@),
    decreases order.len(),
{
    if order.len() > 0 {
        let o1 = order.drop_last();
        let c1 = chron.drop_last();
        assert forall|k: int| 0 <= k < o1.len() implies (#[trigger] c1[k]) == buckets[o1[k].0 as int]@[o1[k].1 as int]@ by {
            assert(c1[k] == chron[k] && o1[k] == order[k]);
        }
        lemma_bucket_part_is_tags(buckets, o1, c1, b);
        let f = |i: usize| buckets[b as int]@[i as int]@;
        if order.last().0 == b {
            assert(tags_of(order, b).map_values(f) =~= tags_of(o1, b).map_values(f).push(f(order.last().1)));
        }
    }
}

/// Splitting gives every source exactly its own utterances, each once, in
/// chronological order (by start time, then by arrival): the part of
/// bucket `b` is bucket `b`'s utterances at the indices [`tags_of`] lists,
/// and those indices cover the bucket once each, sorted.
pub proof fn law_split_keeps_each_source(
    buckets: Seq<Vec<Utterance>>,
    order: Seq<(usize, usize)>,
    chron: Seq<UtteranceView>,
    b: usize,
)
    requires
        is_chronological_order(starts_view(buckets), order),
        chron.len() == order.len(),
        forall|k: int| 0 <= k < order.len() ==> (#[trigger] chron[k]) == buckets[order[k].0 as int]@[order[k].1 as int]@,
        b < buckets.len(),
    ensures
        bucket_part(order, chron, b) == tags_of(order, b).map_values(|i: usize| buckets[b as int]@[i as int]@),
        forall|i: usize| i < buckets[b as int]@.len() ==> tags_of(order, b).contains(i),
        forall|q: int| 0 <= q < tags_of(order, b).len() ==> (#[trigger] tags_of(order, b)[q]) < buckets[b as int]@.len(),
        forall|j: int, k: int|
            0 <= j < k < tags_of(order, b).len() ==> tag_before(
                starts_view(buckets),
                (b, #[trigger] tags_of(order, b)[j]),
                (b, #[trigger] tags_of(order, b)[k]),
            ),
{
    let st = starts_view(buckets);
    lemma_bucket_part_is_tags(buckets, order, chron, b);
    lemma_tags_of_members(order, b);
    lemma_tags_of_sorted(st, order, b);
    assert(st[b as int].len() == buckets[b as int]@.len());
    assert forall|i: usize| i < buckets[b as int]@.len() implies tags_of(order, b).contains(i) by {
        assert(valid_tag(st, (b, i)));
        assert(order.contains((b, i)));
        let k = choose|k: int| 0 <= k < order.len() && order[k] == (b, i);
        assert(order[k].0 == b);
    }
    assert forall|q: int| 0 <= q < tags_of(order, b).len() implies (#[trigger] tags_of(order, b)[q]) < buckets[b as int]@.len() by {
        let k = choose|k: int| 0 <= k < order.len() && order[k] == (b, tags_of(order, b)[q]);
        assert(valid_tag(st, order[k]));
    }
}

} // verus!

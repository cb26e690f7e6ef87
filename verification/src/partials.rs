//! In-flight partial utterances of live sessions, and the routing of a
//! streaming session's output: partials replace the source's in-flight
//! slot, finals clear it and go to storage.

use vstd::prelude::*;
use vstd::seq_lib::to_multiset_insert;

use crate::streaming::{opt_str_view, Utterance, UtteranceView};
use crate::text::{str_eq, str_to_chars, trim, trim_str};

verus! {

broadcast use vstd::multiset::group_multiset_axioms;

/// `a` sorts before or equal to `b`, comparing characters in order.
pub open spec fn lex_le(a: Seq<char>, b: Seq<char>) -> bool
    decreases a.len(),
{
    if a.len() == 0 {
        true
    } else if b.len() == 0 {
        false
    } else if a[0] != b[0] {
        a[0] < b[0]
    } else {
        lex_le(a.drop_first(), b.drop_first())
    }
}

proof fn lemma_lex_total(a: Seq<char>, b: Seq<char>)
    ensures
        lex_le(a, b) || lex_le(b, a),
    decreases a.len(),
{
    if a.len() > 0 && b.len() > 0 && a[0] == b[0] {
        lemma_lex_total(a.drop_first(), b.drop_first());
    }
}

proof fn lemma_lex_trans(a: Seq<char>, b: Seq<char>, c: Seq<char>)
    requires
        lex_le(a, b),
        lex_le(b, c),
    ensures
        lex_le(a, c),
    decreases a.len(),
{
    if a.len() > 0 && b.len() > 0 && c.len() > 0 && a[0] == b[0] && b[0] == c[0] {
        lemma_lex_trans(a.drop_first(), b.drop_first(), c.drop_first());
    }
}

/// Whether `a` sorts before or equal to `b`.
fn lex_le_exec(a: &str, b: &str) -> (r: bool)
    ensures
        r == lex_le(a@, b@),
{
    let x = str_to_chars(a);
    let y = str_to_chars(b);
    let mut i: usize = 0;
    assert(a@.skip(0) =~= a@);
    assert(b@.skip(0) =~= b@);
    while i < x.len() && i < y.len() && x[i] == y[i]
        invariant
            i <= x@.len(),
            i <= y@.len(),
            x@ == a@,
            y@ == b@,
            lex_le(a@, b@) == lex_le(a@.skip(i as int), b@.skip(i as int)),
        decreases x@.len() - i,
    {
        proof {
            assert(a@.skip(i as int).drop_first() =~= a@.skip(i + 1));
            assert(b@.skip(i as int).drop_first() =~= b@.skip(i + 1));
        }
        i = i + 1;
    }
    if i == x.len() {
        true
    } else if i == y.len() {
        false
    } else {
        x[i] < y[i]
    }
}

/// The sort key of a partial: its speaker label, or empty.
pub open spec fn label_key(u: UtteranceView) -> Seq<char> {
    match u.speaker_label {
        Some(l) => l,
        None => seq![],
    }
}

/// One in-flight partial: the latest revision for a session and source.
pub struct PartialEntry {
    pub session_id: i64,
    pub source_label: String,
    pub utterance: Utterance,
}

/// Mathematical view of the store's entries.
pub type EntriesView = Seq<(i64, Seq<char>, UtteranceView)>;

/// The view of the entries.
pub open spec fn entries_view(v: Seq<PartialEntry>) -> EntriesView {
    v.map_values(|e: PartialEntry| (e.session_id, e.source_label@, e.utterance@))
}

/// The partial stored for `(session, label)`, if any.
pub open spec fn lookup_partial(es: EntriesView, session: i64, label: Seq<char>) -> Option<UtteranceView>
    decreases es.len(),
{
    if es.len() == 0 {
        None
    } else if es.last().0 == session && es.last().1 == label {
        Some(es.last().2)
    } else {
        lookup_partial(es.drop_last(), session, label)
    }
}

/// At most one entry per `(session, label)`.
pub open spec fn keys_unique(es: EntriesView) -> bool {
    forall|i: int, j: int|
        0 <= i < j < es.len() ==> !((#[trigger] es[i]).0 == (#[trigger] es[j]).0 && es[i].1 == es[j].1)
}

/// The partials of `session`, in entry order.
pub open spec fn session_partials(es: EntriesView, session: i64) -> Seq<UtteranceView>
    decreases es.len(),
{
    if es.len() == 0 {
        seq![]
    } else if es.last().0 == session {
        session_partials(es.drop_last(), session).push(es.last().2)
    } else {
        session_partials(es.drop_last(), session)
    }
}

/// Sorted by label, in non-decreasing order.
pub open spec fn sorted_by_label(s: Seq<UtteranceView>) -> bool {
    forall|i: int, j: int| 0 <= i < j < s.len() ==> lex_le(label_key(#[trigger] s[i]), label_key(#[trigger] s[j]))
}

/// In-flight partials of all live sessions, one per `(session, source)`,
/// and the sessions that have had a partial since they were last cleared.
pub struct PartialsStore {
    entries: Vec<PartialEntry>,
    live: Vec<i64>,
}

impl View for PartialsStore {
    type V = EntriesView;

    closed spec fn view(&self) -> EntriesView {
        entries_view(self.entries@)
    }
}

proof fn lemma_lookup_absent(es: EntriesView, session: i64, label: Seq<char>)
    requires
        forall|i: int| 0 <= i < es.len() ==> !((#[trigger] es[i]).0 == session && es[i].1 == label),
    ensures
        lookup_partial(es, session, label) is None,
    decreases es.len(),
{
    if es.len() > 0 {
        lemma_lookup_absent(es.drop_last(), session, label);
    }
}

proof fn lemma_lookup_at(es: EntriesView, k: int)
    requires
        keys_unique(es),
        0 <= k < es.len(),
    ensures
        lookup_partial(es, es[k].0, es[k].1) == Some(es[k].2),
    decreases es.len(),
{
    if k < es.len() - 1 {
        assert(es.drop_last()[k] == es[k]);
        assert(keys_unique(es.drop_last()));
        lemma_lookup_at(es.drop_last(), k);
    }
}

proof fn lemma_lookup_update(es: EntriesView, k: int, u: UtteranceView, session: i64, label: Seq<char>)
    requires
        0 <= k < es.len(),
        !(es[k].0 == session && es[k].1 == label),
    ensures
        lookup_partial(es.update(k, (es[k].0, es[k].1, u)), session, label) == lookup_partial(es, session, label),
    decreases es.len(),
{
    if k < es.len() - 1 {
        assert(es.update(k, (es[k].0, es[k].1, u)).drop_last() =~= es.drop_last().update(k, (es[k].0, es[k].1, u)));
        lemma_lookup_update(es.drop_last(), k, u, session, label);
    } else {
        assert(es.update(k, (es[k].0, es[k].1, u)).drop_last() =~= es.drop_last());
    }
}

proof fn lemma_lookup_remove(es: EntriesView, k: int, session: i64, label: Seq<char>)
    requires
        0 <= k < es.len(),
        !(es[k].0 == session && es[k].1 == label),
    ensures
        lookup_partial(es.remove(k), session, label) == lookup_partial(es, session, label),
    decreases es.len(),
{
    if k < es.len() - 1 {
        assert(es.remove(k).drop_last() =~= es.drop_last().remove(k));
        assert(es.remove(k).last() == es.last());
        lemma_lookup_remove(es.drop_last(), k, session, label);
    } else {
        assert(es.remove(k) =~= es.drop_last());
    }
}

impl PartialsStore {
    /// Whether `session_id` has had a partial stored since the store was
    /// made or the session was last cleared.
    pub closed spec fn has_session(&self, session_id: i64) -> bool {
        self.live@.contains(session_id)
    }

    /// One entry per `(session, source)`.
    pub open spec fn wf(&self) -> bool {
        keys_unique(self@)
    }

    /// An empty store.
    pub fn new() -> (r: Self)
        ensures
            r.wf(),
            r@.len() == 0,
            forall|s: i64| !r.has_session(s),
    {
        PartialsStore { entries: Vec::new(), live: Vec::new() }
    }

    fn mark_live(&mut self, session_id: i64)
        ensures
            final(self)@ == old(self)@,
            final(self).has_session(session_id),
            forall|s: i64| s != session_id ==> final(self).has_session(s) == old(self).has_session(s),
    {
        let mut i: usize = 0;
        while i < self.live.len()
            invariant
                i <= self.live@.len(),
                forall|j: int| 0 <= j < i ==> self.live@[j] != session_id,
            decreases self.live@.len() - i,
        {
            if self.live[i] == session_id {
                proof {
                    assert(self.live@.contains(session_id));
                }
                return;
            }
            i = i + 1;
        }
        let ghost before = self.live@;
        self.live.push(session_id);
        proof {
            assert(self.live@.last() == session_id);
            assert forall|s: i64| s != session_id implies self.live@.contains(s) == before.contains(s) by {
                if before.contains(s) {
                    let k = before.index_of(s);
                    assert(self.live@[k] == s);
                }
                if self.live@.contains(s) {
                    let k = self.live@.index_of(s);
                    assert(before[k] == s);
                }
            }
        }
    }

    fn unmark_live(&mut self, session_id: i64)
        ensures
            final(self)@ == old(self)@,
            !final(self).has_session(session_id),
            forall|s: i64| s != session_id ==> final(self).has_session(s) == old(self).has_session(s),
    {
        let ghost orig = self.live@;
        let mut kept: Vec<i64> = Vec::new();
        let mut i: usize = 0;
        while i < self.live.len()
            invariant
                i <= self.live@.len(),
                self.live@ == orig,
                forall|j: int| 0 <= j < kept@.len() ==> kept@[j] != session_id,
                forall|s: i64| s != session_id ==> (kept@.contains(s) <==> orig.take(i as int).contains(s)),
            decreases self.live@.len() - i,
        {
            let x = self.live[i];
            let ghost before = kept@;
            if x != session_id {
                kept.push(x);
            }
            proof {
                let t0 = orig.take(i as int);
                let t1 = orig.take(i + 1);
                assert forall|s: i64| s != session_id implies (kept@.contains(s) <==> t1.contains(s)) by {
                    if kept@.contains(s) {
                        let k = kept@.index_of(s);
                        if k < before.len() {
                            assert(before[k] == s);
                            assert(before.contains(s));
                            let k2 = t0.index_of(s);
                            assert(t1[k2] == t0[k2]);
                        } else {
                            assert(t1[i as int] == x);
                        }
                        assert(t1.contains(s));
                    }
                    if t1.contains(s) {
                        let k = t1.index_of(s);
                        if k < i {
                            assert(t0[k] == t1[k]);
                            assert(t0.contains(s));
                            assert(before.contains(s));
                            let m = before.index_of(s);
                            assert(0 <= m < before.len() && before[m] == s);
                            assert(kept@[m] == before[m]);
                        } else {
                            assert(x == s);
                            assert(kept@[kept@.len() - 1] == x);
                        }
                        assert(kept@.contains(s));
                    }
                }
            }
            i = i + 1;
        }
        proof {
            assert(orig.take(orig.len() as int) =~= orig);
        }
        self.live = kept;
    }

    fn find(&self, session_id: i64, label: &str) -> (r: Option<usize>)
        requires
            self.wf(),
        ensures
            r matches Some(k) ==> k < self@.len() && self@[k as int].0 == session_id && self@[k as int].1
                == label@,
            r is None ==> forall|i: int|
                0 <= i < self@.len() ==> !((#[trigger] self@[i]).0 == session_id && self@[i].1 == label@),
    {
        let mut i: usize = 0;
        while i < self.entries.len()
            invariant
                i <= self@.len(),
                self@.len() == self.entries@.len(),
                forall|j: int|
                    0 <= j < i ==> !((#[trigger] self@[j]).0 == session_id && self@[j].1 == label@),
            decreases self.entries@.len() - i,
        {
            let e = &self.entries[i];
            if e.session_id == session_id && str_eq(e.source_label.as_str(), label) {
                return Some(i);
            }
            i = i + 1;
        }
        None
    }

    /// Stores `u` as the in-flight partial of `(session_id, label)`,
    /// replacing the previous one; every other partial is kept.
    pub fn set_partial(&mut self, session_id: i64, label: &str, u: Utterance)
        requires
            old(self).wf(),
        ensures
            final(self).wf(),
            lookup_partial(final(self)@, session_id, label@) == Some(u@),
            forall|s: i64, l: Seq<char>|
                !(s == session_id && l == label@) ==> lookup_partial(final(self)@, s, l)
                    == lookup_partial(old(self)@, s, l),
            final(self).has_session(session_id),
            forall|s: i64| s != session_id ==> final(self).has_session(s) == old(self).has_session(s),
    {
        self.mark_live(session_id);
        let ghost old_es = self@;
        match self.find(session_id, label) {
            Some(k) => {
                let ghost uv = u@;
                self.entries.set(k, PartialEntry { session_id, source_label: label.to_owned(), utterance: u });
                proof {
                    assert(self@ =~= old_es.update(k as int, (old_es[k as int].0, old_es[k as int].1, uv)));
                    assert(keys_unique(self@));
                    lemma_lookup_at(self@, k as int);
                    assert forall|s: i64, l: Seq<char>|
                        !(s == session_id && l == label@) implies lookup_partial(self@, s, l)
                        == lookup_partial(old_es, s, l) by {
                        lemma_lookup_update(old_es, k as int, uv, s, l);
                    }
                }
            },
            None => {
                let ghost uv = u@;
                self.entries.push(PartialEntry { session_id, source_label: label.to_owned(), utterance: u });
                proof {
                    assert(self@ =~= old_es.push((session_id, label@, uv)));
                    assert(self@.drop_last() =~= old_es);
                    assert forall|s: i64, l: Seq<char>|
                        !(s == session_id && l == label@) implies lookup_partial(self@, s, l)
                        == lookup_partial(old_es, s, l) by {}
                }
            },
        }
    }

    /// Removes the in-flight partial of `(session_id, label)`, if any;
    /// every other partial is kept.
    pub fn clear_partial(&mut self, session_id: i64, label: &str)
        requires
            old(self).wf(),
        ensures
            final(self).wf(),
            lookup_partial(final(self)@, session_id, label@) is None,
            forall|s: i64, l: Seq<char>|
                !(s == session_id && l == label@) ==> lookup_partial(final(self)@, s, l)
                    == lookup_partial(old(self)@, s, l),
            forall|s: i64| final(self).has_session(s) == old(self).has_session(s),
    {
        let ghost old_es = self@;
        match self.find(session_id, label) {
            Some(k) => {
                self.entries.remove(k);
                proof {
                    assert(self@ =~= old_es.remove(k as int));
                    assert forall|i: int| 0 <= i < self@.len() implies !((#[trigger] self@[i]).0
                        == session_id && self@[i].1 == label@) by {
                        if i < k {
                            assert(self@[i] == old_es[i]);
                        } else {
                            assert(self@[i] == old_es[i + 1]);
                        }
                    }
                    lemma_lookup_absent(self@, session_id, label@);
                    assert forall|s: i64, l: Seq<char>|
                        !(s == session_id && l == label@) implies lookup_partial(self@, s, l)
                        == lookup_partial(old_es, s, l) by {
                        lemma_lookup_remove(old_es, k as int, s, l);
                    }
                }
            },
            None => {
                proof {
                    lemma_lookup_absent(self@, session_id, label@);
                }
            },
        }
    }

    /// Removes every partial of `session_id`; other sessions keep theirs.
    pub fn clear_session(&mut self, session_id: i64)
        requires
            old(self).wf(),
        ensures
            final(self).wf(),
            forall|l: Seq<char>| lookup_partial(final(self)@, session_id, l) is None,
            forall|s: i64, l: Seq<char>|
                s != session_id ==> lookup_partial(final(self)@, s, l) == lookup_partial(old(self)@, s, l),
            !final(self).has_session(session_id),
            forall|s: i64| s != session_id ==> final(self).has_session(s) == old(self).has_session(s),
    {
        let ghost old_es = self@;
        let ghost live0 = self.live@;
        let mut i: usize = 0;
        while i < self.entries.len()
            invariant
                i <= self@.len(),
                self@.len() == self.entries@.len(),
                self.live@ == live0,
                keys_unique(self@),
                forall|j: int| 0 <= j < i ==> (#[trigger] self@[j]).0 != session_id,
                forall|s: i64, l: Seq<char>|
                    s != session_id ==> lookup_partial(self@, s, l) == lookup_partial(old_es, s, l),
            decreases self.entries@.len() - i,
        {
            if self.entries[i].session_id == session_id {
                let ghost before = self@;
                self.entries.remove(i);
                proof {
                    assert(self@ =~= before.remove(i as int));
                    assert forall|s: i64, l: Seq<char>| s != session_id implies lookup_partial(self@, s, l)
                        == lookup_partial(old_es, s, l) by {
                        lemma_lookup_remove(before, i as int, s, l);
                    }
                    assert forall|a: int, b: int|
                        0 <= a < b < self@.len() implies !((#[trigger] self@[a]).0 == (#[trigger] self@[b]).0
                        && self@[a].1 == self@[b].1) by {
                        let a0 = if a < i { a } else { a + 1 };
                        let b0 = if b < i { b } else { b + 1 };
                        assert(self@[a] == before[a0]);
                        assert(self@[b] == before[b0]);
                    }
                    assert forall|j: int| 0 <= j < i implies (#[trigger] self@[j]).0 != session_id by {
                        assert(self@[j] == before[j]);
                    }
                }
            } else {
                i = i + 1;
            }
        }
        proof {
            assert forall|l: Seq<char>| lookup_partial(self@, session_id, l) is None by {
                lemma_lookup_absent(self@, session_id, l);
            }
        }
        self.unmark_live(session_id);
    }

    /// Puts back the partial `u` of `(session_id, label)` after its final
    /// could not be stored, but only while the session still holds its
    /// partials (it has not been cleared since); otherwise nothing changes.
    pub fn restore_partial(&mut self, session_id: i64, label: &str, u: Utterance)
        requires
            old(self).wf(),
        ensures
            final(self).wf(),
            forall|s: i64| final(self).has_session(s) == old(self).has_session(s),
            old(self).has_session(session_id) ==> lookup_partial(final(self)@, session_id, label@)
                == Some(u@),
            old(self).has_session(session_id) ==> forall|s: i64, l: Seq<char>|
                !(s == session_id && l == label@) ==> lookup_partial(final(self)@, s, l)
                    == lookup_partial(old(self)@, s, l),
            !old(self).has_session(session_id) ==> final(self)@ == old(self)@,
    {
        if self.session_is_live(session_id) {
            self.set_partial(session_id, label, u);
        }
    }

    fn session_is_live(&self, session_id: i64) -> (r: bool)
        ensures
            r == self.has_session(session_id),
    {
        let mut i: usize = 0;
        while i < self.live.len()
            invariant
                i <= self.live@.len(),
                forall|j: int| 0 <= j < i ==> self.live@[j] != session_id,
            decreases self.live@.len() - i,
        {
            if self.live[i] == session_id {
                proof {
                    assert(self.live@.contains(session_id));
                }
                return true;
            }
            i = i + 1;
        }
        false
    }

    /// The in-flight partials of `session_id`, ordered by speaker label
    /// (missing labels sort as empty).
    pub fn current_partials_for(&self, session_id: i64) -> (r: Vec<Utterance>)
        requires
            self.wf(),
        ensures
            crate::streaming::utts_view(r@).to_multiset() == session_partials(self@, session_id).to_multiset(),
            sorted_by_label(crate::streaming::utts_view(r@)),
    {
        let mut out: Vec<Utterance> = Vec::new();
        let mut i: usize = 0;
        proof {
            assert(self@.take(0) =~= Seq::<(i64, Seq<char>, UtteranceView)>::empty());
            assert(crate::streaming::utts_view(out@) =~= Seq::<UtteranceView>::empty());
        }
        while i < self.entries.len()
            invariant
                i <= self@.len(),
                self@.len() == self.entries@.len(),
                crate::streaming::utts_view(out@).to_multiset() == session_partials(
                    self@.take(i as int),
                    session_id,
                ).to_multiset(),
                sorted_by_label(crate::streaming::utts_view(out@)),
            decreases self.entries@.len() - i,
        {
            proof {
                assert(self@.take(i + 1).drop_last() =~= self@.take(i as int));
                assert(self@.take(i + 1).last() == self@[i as int]);
            }
            let e = &self.entries[i];
            if e.session_id == session_id {
                let u = e.utterance.duplicate();
                insert_sorted(&mut out, u);
                proof {
                    assert(session_partials(self@.take(i + 1), session_id) =~= session_partials(
                        self@.take(i as int),
                        session_id,
                    ).push(self@[i as int].2));
                    vstd::seq_lib::to_multiset_build(session_partials(self@.take(i as int), session_id), self@[i as int].2);
                }
            }
            i = i + 1;
        }
        proof {
            assert(self@.take(i as int) =~= self@);
        }
        out
    }
}

/// The label of an utterance as a string slice, empty when absent.
fn label_str(u: &Utterance) -> (r: &str)
    ensures
        r@ == label_key(u@),
{
    match &u.speaker_label {
        Some(l) => l.as_str(),
        None => {
            proof {
                reveal_strlit("");
            }
            ""
        },
    }
}

/// Inserts `u` after every element whose label sorts at or before its own.
fn insert_sorted(out: &mut Vec<Utterance>, u: Utterance)
    requires
        sorted_by_label(crate::streaming::utts_view(old(out)@)),
    ensures
        sorted_by_label(crate::streaming::utts_view(final(out)@)),
        crate::streaming::utts_view(final(out)@).to_multiset() == crate::streaming::utts_view(
            old(out)@,
        ).to_multiset().insert(u@),
{
    let ghost v0 = crate::streaming::utts_view(out@);
    let mut p: usize = out.len();
    while p > 0 && !lex_le_exec(label_str(&out[p - 1]), label_str(&u))
        invariant
            p <= out@.len(),
            v0 == crate::streaming::utts_view(out@),
            forall|k: int| p <= k < out@.len() ==> !lex_le(label_key(#[trigger] v0[k]), label_key(u@)),
        decreases p,
    {
        p = p - 1;
    }
    let ghost uv = u@;
    out.insert(p, u);
    proof {
        let v1 = crate::streaming::utts_view(out@);
        assert(v1 =~= v0.insert(p as int, uv));
        to_multiset_insert(v0, p as int, uv);
        assert forall|i: int, j: int| 0 <= i < j < v1.len() implies lex_le(
            label_key(#[trigger] v1[i]),
            label_key(#[trigger] v1[j]),
        ) by {
            if i < p && j < p {
                assert(v1[i] == v0[i] && v1[j] == v0[j]);
            } else if i < p && j == p {
                assert(v1[i] == v0[i]);
                assert(lex_le(label_key(v0[p - 1]), label_key(uv)));
                if i < p - 1 {
                    lemma_lex_trans(label_key(v0[i]), label_key(v0[p - 1]), label_key(uv));
                }
            } else if i < p && j > p {
                assert(v1[i] == v0[i] && v1[j] == v0[j - 1]);
            } else if i == p {
                assert(v1[j] == v0[j - 1]);
                assert(!lex_le(label_key(v0[j - 1]), label_key(uv)));
                lemma_lex_total(label_key(v0[j - 1]), label_key(uv));
            } else {
                assert(v1[i] == v0[i - 1] && v1[j] == v0[j - 1]);
            }
        }
    }
}

/// A final headed for storage, with the labelled utterance kept so the
/// caller can restore it as the partial if storing fails.
pub struct PersistRequest {
    pub session_id: i64,
    pub started_at_ms: i64,
    pub ended_at_ms: i64,
    pub speaker_label: Option<String>,
    pub text: String,
    pub utterance: Utterance,
}

/// The utterance with the source label filled in when it has none.
pub open spec fn labelled(u: UtteranceView, source: Seq<char>) -> UtteranceView {
    match u.speaker_label {
        Some(_) => u,
        None => UtteranceView { speaker_label: Some(source), ..u },
    }
}

/// Routes one utterance of `source_label`: it gets the source label when
/// unlabelled; a partial replaces the source's in-flight slot; a final with
/// blank text is dropped; any other final clears the slot and is returned
/// for storage with trimmed text.
pub fn dispatch_one(store: &mut PartialsStore, session_id: i64, source_label: &str, u: Utterance) -> (r: Option<PersistRequest>)
    requires
        old(store).wf(),
    ensures
        final(store).wf(),
        ({
            let lu = labelled(u@, source_label@);
            if !u.is_final {
                &&& r is None
                &&& lookup_partial(final(store)@, session_id, source_label@) == Some(lu)
                &&& forall|s: i64, l: Seq<char>|
                    !(s == session_id && l == source_label@) ==> lookup_partial(final(store)@, s, l)
                        == lookup_partial(old(store)@, s, l)
            } else if trim(u.text@).len() == 0 {
                &&& r is None
                &&& final(store)@ == old(store)@
            } else {
                &&& r matches Some(req) && req.session_id == session_id && req.started_at_ms
                    == u.started_at_ms as i64 && req.ended_at_ms == u.ended_at_ms as i64
                    && opt_str_view(req.speaker_label) == lu.speaker_label && req.text@ == trim(
                    u.text@,
                ) && req.utterance@ == lu
                &&& lookup_partial(final(store)@, session_id, source_label@) is None
                &&& forall|s: i64, l: Seq<char>|
                    !(s == session_id && l == source_label@) ==> lookup_partial(final(store)@, s, l)
                        == lookup_partial(old(store)@, s, l)
            }
        }),
        !u.is_final ==> final(store).has_session(session_id),
        forall|s: i64|
            (u.is_final || s != session_id) ==> final(store).has_session(s) == old(store).has_session(s),
{
    let mut u = u;
    if u.speaker_label.is_none() {
        u.speaker_label = Some(source_label.to_owned());
    }
    if u.is_final {
        let trimmed = trim_str(u.text.as_str());
        if trimmed.is_empty() {
            return None;
        }
        let text = trimmed.to_owned();
        store.clear_partial(session_id, source_label);
        let label = u.speaker_label.clone();
        Some(PersistRequest {
            session_id,
            started_at_ms: u.started_at_ms as i64,
            ended_at_ms: u.ended_at_ms as i64,
            speaker_label: label,
            text,
            utterance: u,
        })
    } else {
        store.set_partial(session_id, source_label, u);
        None
    }
}

} // verus!

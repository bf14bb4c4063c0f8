//! The registry of active sources: what the user has recently looked at,
//! each with a relevance that decays as time passes.

use vstd::prelude::*;
use crate::host::now_millis;
use crate::relevance::{relevance, relevance_at, FULL_RELEVANCE, MIN_RELEVANCE_THRESHOLD};
use crate::text::same_text;
use crate::types::SourceType;
use crate::vecs::{copy_where, lemma_filter_keeps_pairwise, retain_by};

verus! {

/// The most sources the registry tracks at once.
pub const MAX_ACTIVE_SOURCES: usize = 30;

/// One tracked source. `relevance` is a cache, in hundredths, of the decay
/// model's value at the last instant the registry recomputed it.
#[derive(Clone, Debug)]
pub struct ActiveSourceEntry {
    pub source_type: SourceType,
    pub source_id: String,
    pub title: Option<String>,
    pub activated_at: i64,
    pub relevance: u64,
}

/// The mean of `count` relevances whose sum is `total` hundredths. With no
/// relevance to average the mean is zero.
#[derive(Clone, Copy, Debug, PartialEq, Eq, Structural)]
pub struct MeanRelevance {
    pub total: u128,
    pub count: usize,
}

impl MeanRelevance {
    /// The mean is zero.
    pub open spec fn is_zero(self) -> bool {
        self.count == 0 || self.total == 0
    }

    /// The mean lies between `0.0` and `1.0`.
    pub open spec fn in_unit_range(self) -> bool {
        self.total <= FULL_RELEVANCE * self.count
    }
}

/// `e` with its cached relevance recomputed for the instant `now`.
pub open spec fn refreshed(e: ActiveSourceEntry, now: int) -> ActiveSourceEntry {
    ActiveSourceEntry { relevance: relevance_at(e.activated_at as int, now) as u64, ..e }
}

/// Every entry of `s` with its cached relevance recomputed for `now`.
pub open spec fn decayed(s: Seq<ActiveSourceEntry>, now: int) -> Seq<ActiveSourceEntry> {
    Seq::new(s.len(), |i: int| refreshed(s[i], now))
}

/// `e` as it is after a renewed activation at `now` under `title`.
pub open spec fn reactivated(e: ActiveSourceEntry, title: Option<String>, now: i64) -> ActiveSourceEntry {
    ActiveSourceEntry { relevance: FULL_RELEVANCE, activated_at: now, title, ..e }
}

/// Whether `s` tracks a source named `id`.
pub open spec fn tracks(s: Seq<ActiveSourceEntry>, id: Seq<char>) -> bool {
    exists|i: int| 0 <= i < s.len() && (#[trigger] s[i]).source_id@ == id
}

/// Whether `i` is the first place in `s` that holds a source named `id`.
pub open spec fn first_at(s: Seq<ActiveSourceEntry>, id: Seq<char>, i: int) -> bool {
    &&& 0 <= i < s.len()
    &&& s[i].source_id@ == id
    &&& forall|j: int| 0 <= j < i ==> (#[trigger] s[j]).source_id@ != id
}

/// No two entries of `s` name the same source.
pub open spec fn distinct_ids(s: Seq<ActiveSourceEntry>) -> bool {
    forall|i: int, j: int|
        0 <= i < j < s.len() ==> (#[trigger] s[i]).source_id@ != (#[trigger] s[j]).source_id@
}

/// Whether `a` is to leave before `b`: it is less relevant, or as relevant
/// and activated earlier.
pub open spec fn leaves_before(a: ActiveSourceEntry, b: ActiveSourceEntry) -> bool {
    a.relevance < b.relevance || (a.relevance == b.relevance && a.activated_at < b.activated_at)
}

/// Whether `k` is the place of the entry that is evicted from `s`: no entry
/// is to leave before it, and it is the first of which that is true.
pub open spec fn is_victim(s: Seq<ActiveSourceEntry>, k: int) -> bool {
    &&& 0 <= k < s.len()
    &&& forall|j: int| 0 <= j < s.len() ==> !leaves_before(#[trigger] s[j], s[k])
    &&& forall|j: int| 0 <= j < k ==> leaves_before(s[k], #[trigger] s[j])
}

/// The test "at least `min` hundredths relevant".
pub open spec fn at_least(min: u64) -> spec_fn(ActiveSourceEntry) -> bool {
    |e: ActiveSourceEntry| e.relevance >= min
}

/// The test "names a source other than `id`".
pub open spec fn other_than(id: Seq<char>) -> spec_fn(ActiveSourceEntry) -> bool {
    |e: ActiveSourceEntry| e.source_id@ != id
}

/// The sum of the cached relevances of `s`.
pub open spec fn total_relevance(s: Seq<ActiveSourceEntry>) -> nat
    decreases s.len(),
{
    if s.len() == 0 {
        0
    } else {
        total_relevance(s.drop_last()) + s.last().relevance as nat
    }
}

/// What `s` is after the source `(source_type, source_id, title)` has been
/// activated at `now`, where `fin` is the outcome: a tracked source is
/// renewed in place; a new one is appended, after the entry that `is_victim`
/// names has left if `s` was full.
pub open spec fn activated(
    s: Seq<ActiveSourceEntry>,
    source_type: SourceType,
    source_id: String,
    title: Option<String>,
    now: i64,
    fin: Seq<ActiveSourceEntry>,
) -> bool {
    let fresh = ActiveSourceEntry {
        source_type,
        source_id,
        title,
        activated_at: now,
        relevance: FULL_RELEVANCE,
    };
    if tracks(s, source_id@) {
        exists|i: int| #[trigger]
            first_at(s, source_id@, i) && fin == s.update(i, reactivated(s[i], title, now))
    } else if s.len() < MAX_ACTIVE_SOURCES {
        fin == s.push(fresh)
    } else {
        exists|k: int| #[trigger]
            is_victim(decayed(s, now as int), k) && fin == decayed(s, now as int).remove(
                k,
            ).push(fresh)
    }
}

/// A copy of `e`, equal to it field by field.
pub fn copy_entry(e: &ActiveSourceEntry) -> (r: ActiveSourceEntry)
    ensures
        r == *e,
{
    let title = match &e.title {
        Some(t) => Some(t.clone()),
        None => None,
    };
    ActiveSourceEntry {
        source_type: e.source_type,
        source_id: e.source_id.clone(),
        title,
        activated_at: e.activated_at,
        relevance: e.relevance,
    }
}

/// The mean of the cached relevances of `entries`.
pub fn mean_of(entries: &Vec<ActiveSourceEntry>) -> (m: MeanRelevance)
    ensures
        m.count == entries@.len(),
        m.total == total_relevance(entries@),
{
    let n = entries.len();
    let mut total: u128 = 0;
    let mut i: usize = 0;
    proof {
        assert(entries@.take(0) =~= Seq::<ActiveSourceEntry>::empty());
    }
    while i < n
        invariant
            i <= n,
            n == entries@.len(),
            total == total_relevance(entries@.take(i as int)),
            total <= i * 0xffff_ffff_ffff_ffff,
        decreases n - i,
    {
        proof {
            assert(entries@.take(i + 1).drop_last() =~= entries@.take(i as int));
            assert(i * 0xffff_ffff_ffff_ffff + 0xffff_ffff_ffff_ffff <= 0xffff_ffff_ffff_ffff
                * 0xffff_ffff_ffff_ffff + 0xffff_ffff_ffff_ffff) by (nonlinear_arith)
                requires
                    i <= 0xffff_ffff_ffff_ffff,
            ;
        }
        total = total + entries[i].relevance as u128;
        i += 1;
        proof {
            assert(total <= i * 0xffff_ffff_ffff_ffff) by (nonlinear_arith)
                requires
                    total <= (i - 1) * 0xffff_ffff_ffff_ffff + 0xffff_ffff_ffff_ffff,
            ;
        }
    }
    proof {
        assert(entries@.take(n as int) =~= entries@);
    }
    MeanRelevance { total, count: n }
}

/// Dropping entries from a sequence that names no source twice leaves one
/// that names no source twice.
pub proof fn lemma_filter_keeps_distinct(s: Seq<ActiveSourceEntry>, p: spec_fn(ActiveSourceEntry) -> bool)
    requires
        distinct_ids(s),
    ensures
        distinct_ids(s.filter(p)),
{
    let apart = |a: ActiveSourceEntry, b: ActiveSourceEntry| a.source_id@ != b.source_id@;
    let kept = s.filter(p);
    assert forall|i: int, j: int| 0 <= i < j < s.len() implies #[trigger] apart(s[i], s[j]) by {}
    lemma_filter_keeps_pairwise(s, p, apart);
    assert forall|i: int, j: int| 0 <= i < j < kept.len() implies (#[trigger] kept[i]).source_id@ != (
    #[trigger] kept[j]).source_id@ by {
        assert(apart(kept[i], kept[j]));
    }
}

/// Bounded registry of active sources; the view is its entries in the order
/// in which they were first activated.
pub struct ActiveSourceTracker {
    sources: Vec<ActiveSourceEntry>,
}

impl View for ActiveSourceTracker {
    type V = Seq<ActiveSourceEntry>;

    closed spec fn view(&self) -> Seq<ActiveSourceEntry> {
        self.sources@
    }
}

impl ActiveSourceTracker {
    /// At most `MAX_ACTIVE_SOURCES` entries, no source named twice.
    pub open spec fn wf(&self) -> bool {
        self@.len() <= MAX_ACTIVE_SOURCES && distinct_ids(self@)
    }

    pub fn new() -> (r: Self)
        ensures
            r@ == Seq::<ActiveSourceEntry>::empty(),
            r.wf(),
    {
        ActiveSourceTracker { sources: Vec::new() }
    }

    /// Recomputes every cached relevance for the instant `now`.
    fn apply_decay_internal(&mut self, now: i64)
        ensures
            final(self)@ == decayed(old(self)@, now as int),
    {
        let n = self.sources.len();
        let mut i: usize = 0;
        while i < n
            invariant
                i <= n,
                n == self.sources@.len(),
                n == old(self)@.len(),
                forall|j: int| 0 <= j < i ==> self.sources@[j] == refreshed(old(self)@[j], now as int),
                forall|j: int| i <= j < n ==> self.sources@[j] == old(self)@[j],
            decreases n - i,
        {
            let r = relevance(self.sources[i].activated_at, now);
            self.sources[i].relevance = r;
            i += 1;
        }
        assert(self.sources@ =~= decayed(old(self)@, now as int));
    }

    /// The place of the entry to evict from a registry that is not empty.
    fn find_victim(&self) -> (k: usize)
        requires
            self@.len() > 0,
        ensures
            is_victim(self@, k as int),
    {
        let n = self.sources.len();
        let mut k: usize = 0;
        let mut i: usize = 1;
        while i < n
            invariant
                1 <= i <= n,
                n == self.sources@.len(),
                k < i,
                forall|j: int| 0 <= j < i ==> !leaves_before(#[trigger] self.sources@[j], self.sources@[k as int]),
                forall|j: int| 0 <= j < k ==> leaves_before(self.sources@[k as int], #[trigger] self.sources@[j]),
            decreases n - i,
        {
            let better = self.sources[i].relevance < self.sources[k].relevance || (
            self.sources[i].relevance == self.sources[k].relevance && self.sources[i].activated_at
                < self.sources[k].activated_at);
            if better {
                k = i;
            }
            i += 1;
        }
        k
    }

    /// Activates a source at the instant `now`, or renews it if it is
    /// tracked already: its relevance is full again, its activation is `now`
    /// and its title is replaced. A new source joins at the end; if the
    /// registry is full, every relevance is first recomputed for `now` and
    /// the least relevant entry leaves, the oldest of them if several are
    /// equally relevant.
    pub fn activate_source_at(
        &mut self,
        source_type: SourceType,
        source_id: String,
        title: Option<String>,
        now: i64,
    )
        ensures
            activated(old(self)@, source_type, source_id, title, now, final(self)@),
            old(self).wf() ==> final(self).wf(),
    {
        let n = self.sources.len();
        let mut i: usize = 0;
        while i < n
            invariant
                i <= n,
                n == self.sources@.len(),
                self.sources@ == old(self)@,
                forall|j: int| 0 <= j < i ==> (#[trigger] self.sources@[j]).source_id@ != source_id@,
            decreases n - i,
        {
            if self.sources[i].source_id == source_id {
                self.sources[i].relevance = FULL_RELEVANCE;
                self.sources[i].activated_at = now;
                self.sources[i].title = title;
                proof {
                    let s = old(self)@;
                    assert(first_at(s, source_id@, i as int));
                    assert(self.sources@ =~= s.update(i as int, reactivated(s[i as int], title, now)));
                    assert(tracks(s, source_id@));
                    if old(self).wf() {
                        assert(distinct_ids(self.sources@));
                    }
                }
                return ;
            }
            i += 1;
        }
        assert(!tracks(old(self)@, source_id@));
        let entry = ActiveSourceEntry {
            source_type,
            source_id,
            title,
            activated_at: now,
            relevance: FULL_RELEVANCE,
        };
        if self.sources.len() >= MAX_ACTIVE_SOURCES {
            self.apply_decay_internal(now);
            let k = self.find_victim();
            let _ = self.sources.remove(k);
        }
        self.sources.push(entry);
        proof {
            let s = old(self)@;
            if old(self).wf() {
                let d = decayed(s, now as int);
                assert(forall|j: int| 0 <= j < s.len() ==> (#[trigger] d[j]).source_id == s[j].source_id);
                assert(distinct_ids(self.sources@));
            }
        }
    }

    /// Activates or renews a source at the instant the clock gives.
    pub fn activate_source(&mut self, source_type: SourceType, source_id: String, title: Option<String>)
        ensures
            exists|now: i64| activated(old(self)@, source_type, source_id, title, now, final(self)@),
            old(self).wf() ==> final(self).wf(),
    {
        let now = now_millis();
        self.activate_source_at(source_type, source_id, title, now);
    }

    /// Stops tracking the source named `source_id`; nothing happens if it is
    /// not tracked.
    pub fn deactivate_source(&mut self, source_id: &str)
        ensures
            final(self)@ == old(self)@.filter(other_than(source_id@)),
            old(self).wf() ==> final(self).wf(),
    {
        let other = |e: &ActiveSourceEntry| -> (r: bool)
            ensures
                r == (e.source_id@ != source_id@),
            { !same_text(e.source_id.as_str(), source_id) };
        retain_by(&mut self.sources, other, Ghost(other_than(source_id@)));
        proof {
            if old(self).wf() {
                lemma_filter_keeps_distinct(old(self)@, other_than(source_id@));
                old(self)@.lemma_filter_len(other_than(source_id@));
            }
        }
    }

    /// Recomputes every relevance for the instant `now` and hands out a copy
    /// of each entry that is at least `min_relevance` hundredths relevant
    /// (`MIN_RELEVANCE_THRESHOLD` where none is given), in registry order.
    pub fn get_active_sources_at(&mut self, min_relevance: Option<u64>, now: i64) -> (out: Vec<
        ActiveSourceEntry,
    >)
        ensures
            final(self)@ == decayed(old(self)@, now as int),
            out@ == final(self)@.filter(
                at_least(
                    match min_relevance {
                        Some(m) => m,
                        None => MIN_RELEVANCE_THRESHOLD,
                    },
                ),
            ),
            old(self).wf() ==> final(self).wf(),
    {
        let threshold = match min_relevance {
            Some(m) => m,
            None => MIN_RELEVANCE_THRESHOLD,
        };
        self.apply_decay_internal(now);
        proof {
            if old(self).wf() {
                let o = old(self)@;
                let d = self.sources@;
                assert(forall|j: int| 0 <= j < o.len() ==> (#[trigger] d[j]).source_id == o[j].source_id);
            }
        }
        let relevant = |e: &ActiveSourceEntry| -> (r: bool)
            ensures
                r == (e.relevance >= threshold),
            { e.relevance >= threshold };
        let dup = |e: &ActiveSourceEntry| -> (r: ActiveSourceEntry)
            ensures
                r == *e,
            { copy_entry(e) };
        copy_where(&self.sources, relevant, dup, Ghost(at_least(threshold)))
    }

    /// `get_active_sources_at` for the instant the clock gives.
    pub fn get_active_sources(&mut self, min_relevance: Option<u64>) -> (out: Vec<ActiveSourceEntry>)
        ensures
            exists|now: i64|
                {
                    &&& final(self)@ == decayed(old(self)@, now as int)
                    &&& out@ == final(self)@.filter(
                        at_least(
                            match min_relevance {
                                Some(m) => m,
                                None => MIN_RELEVANCE_THRESHOLD,
                            },
                        ),
                    )
                },
            old(self).wf() ==> final(self).wf(),
    {
        let now = now_millis();
        self.get_active_sources_at(min_relevance, now)
    }

    /// Recomputes every relevance for the instant `now` and drops each entry
    /// that has fallen below `MIN_RELEVANCE_THRESHOLD`.
    pub fn apply_decay_at(&mut self, now: i64)
        ensures
            final(self)@ == decayed(old(self)@, now as int).filter(at_least(MIN_RELEVANCE_THRESHOLD)),
            old(self).wf() ==> final(self).wf(),
    {
        self.apply_decay_internal(now);
        let ghost d = self.sources@;
        let relevant = |e: &ActiveSourceEntry| -> (r: bool)
            ensures
                r == (e.relevance >= MIN_RELEVANCE_THRESHOLD),
            { e.relevance >= MIN_RELEVANCE_THRESHOLD };
        retain_by(&mut self.sources, relevant, Ghost(at_least(MIN_RELEVANCE_THRESHOLD)));
        proof {
            if old(self).wf() {
                let o = old(self)@;
                assert(forall|j: int| 0 <= j < o.len() ==> (#[trigger] d[j]).source_id == o[j].source_id);
                assert(distinct_ids(d));
                lemma_filter_keeps_distinct(d, at_least(MIN_RELEVANCE_THRESHOLD));
                d.lemma_filter_len(at_least(MIN_RELEVANCE_THRESHOLD));
            }
        }
    }

    /// `apply_decay_at` for the instant the clock gives.
    pub fn apply_decay(&mut self)
        ensures
            exists|now: i64|
                final(self)@ == decayed(old(self)@, now as int).filter(
                    at_least(MIN_RELEVANCE_THRESHOLD),
                ),
            old(self).wf() ==> final(self).wf(),
    {
        let now = now_millis();
        self.apply_decay_at(now);
    }

    /// The mean of the cached relevances, as they were last recomputed.
    pub fn average_relevance(&self) -> (m: MeanRelevance)
        ensures
            m.count == self@.len(),
            m.total == total_relevance(self@),
    {
        mean_of(&self.sources)
    }

    pub fn count(&self) -> (n: usize)
        ensures
            n == self@.len(),
    {
        self.sources.len()
    }

    pub fn clear(&mut self)
        ensures
            final(self)@ == Seq::<ActiveSourceEntry>::empty(),
            final(self).wf(),
    {
        self.sources.clear();
    }
}

impl Default for ActiveSourceTracker {
    fn default() -> (r: Self)
        ensures
            r@ == Seq::<ActiveSourceEntry>::empty(),
            r.wf(),
    {
        ActiveSourceTracker::new()
    }
}

/// Activating a source that is tracked already leaves it tracked, with full
/// relevance at the instant of the activation.
pub proof fn lemma_refresh_resets(
    s: Seq<ActiveSourceEntry>,
    source_type: SourceType,
    source_id: String,
    title: Option<String>,
    now: i64,
    fin: Seq<ActiveSourceEntry>,
)
    requires
        tracks(s, source_id@),
        activated(s, source_type, source_id, title, now, fin),
    ensures
        fin.len() == s.len(),
        exists|i: int|
            {
                &&& #[trigger] first_at(fin, source_id@, i)
                &&& fin[i].relevance == FULL_RELEVANCE
                &&& relevance_at(fin[i].activated_at as int, now as int) == FULL_RELEVANCE
            },
{
    let i = choose|i: int| #[trigger]
        first_at(s, source_id@, i) && fin == s.update(i, reactivated(s[i], title, now));
    assert(first_at(fin, source_id@, i));
}

/// When a new source is activated on a full registry, the entry that leaves
/// is, with every relevance recomputed for that instant, no more relevant
/// than any entry that stays; the registry is as long as before and the new
/// entry stands last, with full relevance.
pub proof fn lemma_eviction_takes_least(
    s: Seq<ActiveSourceEntry>,
    source_type: SourceType,
    source_id: String,
    title: Option<String>,
    now: i64,
    fin: Seq<ActiveSourceEntry>,
)
    requires
        !tracks(s, source_id@),
        s.len() >= MAX_ACTIVE_SOURCES,
        activated(s, source_type, source_id, title, now, fin),
    ensures
        fin.len() == s.len(),
        fin.last().source_id == source_id,
        fin.last().relevance == FULL_RELEVANCE,
        exists|k: int|
            {
                &&& 0 <= k < s.len()
                &&& fin.drop_last() == decayed(s, now as int).remove(k)
                &&& forall|j: int|
                    0 <= j < fin.len() - 1 ==> decayed(s, now as int)[k].relevance <= (#[trigger] fin[j]).relevance
            },
{
    let d = decayed(s, now as int);
    let k = choose|k: int| #[trigger]
        is_victim(d, k) && fin == d.remove(k).push(
            ActiveSourceEntry {
                source_type,
                source_id,
                title,
                activated_at: now,
                relevance: FULL_RELEVANCE,
            },
        );
    assert(fin.drop_last() =~= d.remove(k));
    assert forall|j: int| 0 <= j < fin.len() - 1 implies d[k].relevance <= (#[trigger] fin[j]).relevance by {
        if j < k {
            assert(fin[j] == d[j]);
            assert(!leaves_before(d[j], d[k]));
        } else {
            assert(fin[j] == d[j + 1]);
            assert(!leaves_before(d[j + 1], d[k]));
        }
    }
}

/// Decay applied to a registry that tracks nothing leaves it tracking
/// nothing, so applying it twice is the same as applying it once.
pub proof fn lemma_decay_of_nothing(now: int)
    ensures
        decayed(Seq::<ActiveSourceEntry>::empty(), now).filter(at_least(MIN_RELEVANCE_THRESHOLD))
            == Seq::<ActiveSourceEntry>::empty(),
{
    let d = decayed(Seq::<ActiveSourceEntry>::empty(), now);
    d.lemma_filter_len(at_least(MIN_RELEVANCE_THRESHOLD));
    assert(d.filter(at_least(MIN_RELEVANCE_THRESHOLD)) =~= Seq::<ActiveSourceEntry>::empty());
}

} // verus!

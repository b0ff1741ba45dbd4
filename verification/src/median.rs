//! The aggregator's venue cache: the latest tick per venue, and staleness
//! filtering relative to the freshest tick.
//!
//! The cache is generic in the price payload, which the verifier does not
//! inspect: validating and averaging prices is the caller's numeric work.
//! What is proved here is the cache discipline the aggregator relies on —
//! one entry per venue, a newer tick is never overwritten by an older one,
//! and the staleness filter keeps exactly the ticks within the window of the
//! freshest timestamp.

use vstd::prelude::*;

verus! {

/// Why the aggregator's runtime parameters were rejected: the staleness
/// window must be positive, and the outlier band finite and non-negative.
/// The band check itself is numeric work outside the library.
#[derive(Debug, Clone, Copy, PartialEq, Eq, Structural)]
pub enum MedianAggregatorConfigError {
    InvalidStalenessMs,
    InvalidOutlierBps,
}

/// One venue's most recent tick: the venue name, an opaque price payload,
/// and its timestamp.
#[derive(Debug, Clone, PartialEq, Eq)]
pub struct VenueTick<P> {
    pub venue: String,
    pub px: P,
    pub ts: u64,
}

/// Venue names are unique in a cache table.
spec fn cache_unique<P>(s: Seq<VenueTick<P>>) -> bool {
    forall|i: int, j: int| 0 <= i < j < s.len() ==> s[i].venue@ != s[j].venue@
}

/// Whether the table holds an entry for this venue.
spec fn cache_has<P>(s: Seq<VenueTick<P>>, venue: Seq<char>) -> bool {
    exists|i: int| 0 <= i < s.len() && s[i].venue@ == venue
}

/// The entry recorded for this venue (meaningful only when `cache_has`
/// holds).
spec fn cache_entry<P>(s: Seq<VenueTick<P>>, venue: Seq<char>) -> VenueTick<P> {
    s[choose|i: int| 0 <= i < s.len() && s[i].venue@ == venue]
}

/// Latest-per-venue tick cache.
#[derive(Debug, Clone)]
pub struct VenueCache<P> {
    ticks: Vec<VenueTick<P>>,
}

impl<P> VenueCache<P> {
    /// Well-formedness: one entry per venue.
    pub closed spec fn wf(&self) -> bool {
        cache_unique(self.ticks@)
    }

    /// Whether a venue is tracked.
    pub closed spec fn has_venue(&self, venue: Seq<char>) -> bool {
        cache_has(self.ticks@, venue)
    }

    /// The entry tracked for a venue (meaningful only when `has_venue`
    /// holds).
    pub closed spec fn entry_of(&self, venue: Seq<char>) -> VenueTick<P> {
        cache_entry(self.ticks@, venue)
    }

    /// The tracked entries, in insertion order.
    pub closed spec fn entries(&self) -> Seq<VenueTick<P>> {
        self.ticks@
    }

    pub fn new() -> (r: VenueCache<P>)
        ensures
            r.wf(),
            forall|v: Seq<char>| !r.has_venue(v),
            r.entries() == Seq::<VenueTick<P>>::empty(),
    {
        VenueCache { ticks: Vec::new() }
    }

    /// How many venues are tracked.
    pub fn venue_count(&self) -> (r: usize)
        ensures
            r == self.entries().len(),
    {
        self.ticks.len()
    }

    /// The tracked entry at a cache position.
    pub fn entry_at(&self, index: usize) -> (r: &VenueTick<P>)
        requires
            index < self.entries().len(),
        ensures
            *r == self.entries()[index as int],
    {
        &self.ticks[index]
    }

    /// Ingests a tick: the cache keeps only the most recent tick per venue
    /// and never replaces a newer tick with an older one. The caller has
    /// already validated the payload.
    pub fn ingest(&mut self, tick: VenueTick<P>)
        requires
            old(self).wf(),
        ensures
            final(self).wf(),
            final(self).has_venue(tick.venue@),
            old(self).has_venue(tick.venue@) && old(self).entry_of(tick.venue@).ts > tick.ts
                ==> *final(self) == *old(self),
            !(old(self).has_venue(tick.venue@) && old(self).entry_of(tick.venue@).ts > tick.ts)
                ==> final(self).entry_of(tick.venue@) == tick,
            forall|v: Seq<char>|
                v != tick.venue@ ==> final(self).has_venue(v) == old(self).has_venue(v),
            forall|v: Seq<char>|
                v != tick.venue@ && old(self).has_venue(v) ==> final(self).entry_of(v) == old(
                    self,
                ).entry_of(v),
    {
        let n = self.ticks.len();
        let mut i: usize = 0;
        while i < n
            invariant
                old(self).wf(),
                self == old(self),
                n == self.ticks@.len(),
                0 <= i <= n,
                forall|k: int| 0 <= k < i ==> self.ticks@[k].venue@ != tick.venue@,
            decreases n - i,
        {
            if self.ticks[i].venue.eq(&tick.venue) {
                assert(self.ticks@[i as int].venue@ == tick.venue@);
                proof {
                    lemma_cache_lookup(self.ticks@, tick.venue@, i as int);
                }
                if self.ticks[i].ts > tick.ts {
                    return ;
                }
                let ghost before = self.ticks@;
                let ghost entry = tick;
                self.ticks.set(i, tick);
                proof {
                    lemma_cache_update(before, self.ticks@, i as int, entry);
                }
                return ;
            }
            i = i + 1;
        }
        let ghost before = self.ticks@;
        self.ticks.push(tick);
        proof {
            lemma_cache_push(before, self.ticks@);
        }
    }

    /// The freshest timestamp across tracked venues, or `None` when nothing
    /// is tracked.
    pub fn latest_ts(&self) -> (r: Option<u64>)
        ensures
            r is Some <==> self.entries().len() > 0,
            r is Some ==> (forall|k: int|
                0 <= k < self.entries().len() ==> self.entries()[k].ts <= r->Some_0),
            r is Some ==> (exists|k: int|
                0 <= k < self.entries().len() && self.entries()[k].ts == r->Some_0),
    {
        let n = self.ticks.len();
        if n == 0 {
            return None;
        }
        let mut best: u64 = self.ticks[0].ts;
        let mut i: usize = 1;
        while i < n
            invariant
                1 <= i <= n,
                n == self.ticks@.len(),
                forall|k: int| 0 <= k < i ==> self.ticks@[k].ts <= best,
                exists|k: int| 0 <= k < i && self.ticks@[k].ts == best,
            decreases n - i,
        {
            if self.ticks[i].ts > best {
                best = self.ticks[i].ts;
            }
            i = i + 1;
        }
        proof {
            let w = choose|k: int| 0 <= k < self.ticks@.len() && self.ticks@[k].ts == best;
            assert(self.entries()[w].ts == best);
        }
        Some(best)
    }
}

impl<P> VenueCache<P> {
    /// The positions of the tracked ticks no older than `staleness_ms`
    /// before the freshest timestamp, in increasing order; empty when
    /// nothing is tracked. The caller reads the priced entries out by index.
    pub fn fresh_indices(&self, staleness_ms: u64) -> (r: Vec<usize>)
        ensures
            forall|j: int|
                0 <= j < r@.len() ==> r@[j] < self.entries().len() && is_fresh(
                    self.entries(),
                    self.entries()[r@[j] as int].ts,
                    staleness_ms,
                ),
            forall|j1: int, j2: int| 0 <= j1 < j2 < r@.len() ==> r@[j1] < r@[j2],
            forall|k: int|
                0 <= k < self.entries().len() && is_fresh(
                    self.entries(),
                    self.entries()[k].ts,
                    staleness_ms,
                ) ==> r@.contains(k as usize),
    {
        let mut out: Vec<usize> = Vec::new();
        let latest = match self.latest_ts() {
            Some(ts) => ts,
            None => {
                return out;
            }
        };
        proof {
            lemma_latest_is_max(self.ticks@, latest);
        }
        let n = self.ticks.len();
        let mut i: usize = 0;
        while i < n
            invariant
                0 <= i <= n,
                n == self.ticks@.len(),
                n > 0,
                max_ts(self.ticks@) == latest,
                forall|j: int|
                    0 <= j < out@.len() ==> out@[j] < i && is_fresh(
                        self.ticks@,
                        self.ticks@[out@[j] as int].ts,
                        staleness_ms,
                    ),
                forall|j1: int, j2: int| 0 <= j1 < j2 < out@.len() ==> out@[j1] < out@[j2],
                forall|k: int|
                    0 <= k < i && is_fresh(self.ticks@, self.ticks@[k].ts, staleness_ms)
                        ==> out@.contains(k as usize),
            decreases n - i,
        {
            let ts = self.ticks[i].ts;
            proof {
                lemma_max_ts_bounds(self.ticks@);
                assert(self.ticks@[i as int].ts <= latest);
            }
            if latest - ts <= staleness_ms {
                let ghost before = out@;
                out.push(i);
                proof {
                    assert(out@.last() == i);
                    assert forall|k: int|
                        0 <= k < i + 1 && is_fresh(
                            self.ticks@,
                            self.ticks@[k].ts,
                            staleness_ms,
                        ) implies out@.contains(k as usize) by {
                        if k < i {
                            let w = choose|j: int|
                                0 <= j < before.len() && before[j] == k as usize;
                            assert(out@[w] == k as usize);
                        } else {
                            assert(out@[out@.len() - 1] == k as usize);
                        }
                    }
                }
            } else {
                proof {
                    assert(!is_fresh(self.ticks@, self.ticks@[i as int].ts, staleness_ms));
                }
            }
            i = i + 1;
        }
        out
    }
}

/// A timestamp is fresh when it lies within the staleness window of the
/// freshest tracked timestamp.
pub open spec fn is_fresh<P>(entries: Seq<VenueTick<P>>, ts: u64, staleness_ms: u64) -> bool {
    max_ts(entries) - ts <= staleness_ms
}

/// The largest timestamp among the entries (zero when there are none).
pub open spec fn max_ts<P>(entries: Seq<VenueTick<P>>) -> int
    decreases entries.len(),
{
    if entries.len() == 0 {
        0
    } else if entries[0].ts >= max_ts(entries.drop_first()) {
        entries[0].ts as int
    } else {
        max_ts(entries.drop_first())
    }
}

/// The scanned maximum is the spec-level maximum.
proof fn lemma_latest_is_max<P>(entries: Seq<VenueTick<P>>, latest: u64)
    requires
        entries.len() > 0,
        forall|k: int| 0 <= k < entries.len() ==> entries[k].ts <= latest,
        exists|k: int| 0 <= k < entries.len() && entries[k].ts == latest,
    ensures
        max_ts(entries) == latest,
{
    lemma_max_ts_bounds(entries);
    let w = choose|k: int| 0 <= k < entries.len() && entries[k].ts == latest;
    assert(max_ts(entries) >= entries[w].ts);
}

/// The maximum bounds every entry and is attained by one of them.
proof fn lemma_max_ts_bounds<P>(entries: Seq<VenueTick<P>>)
    requires
        entries.len() > 0,
    ensures
        forall|k: int| 0 <= k < entries.len() ==> entries[k].ts <= max_ts(entries),
        exists|k: int| 0 <= k < entries.len() && entries[k].ts == max_ts(entries),
    decreases entries.len(),
{
    if entries.len() == 1 {
        assert(entries.drop_first().len() == 0);
        assert(max_ts(entries.drop_first()) == 0);
        assert(entries[0].ts == max_ts(entries));
    } else {
        lemma_max_ts_bounds(entries.drop_first());
        assert(forall|k: int|
            1 <= k < entries.len() ==> entries[k] == entries.drop_first()[k - 1]);
        if entries[0].ts >= max_ts(entries.drop_first()) {
            assert(entries[0].ts == max_ts(entries));
        } else {
            let w = choose|k: int|
                0 <= k < entries.drop_first().len() && entries.drop_first()[k].ts == max_ts(
                    entries.drop_first(),
                );
            assert(entries[w + 1].ts == max_ts(entries));
        }
    }
}

/// In a unique cache, the witness `choose` picks for a venue is the index
/// where the venue was found.
proof fn lemma_cache_lookup<P>(s: Seq<VenueTick<P>>, venue: Seq<char>, at: int)
    requires
        cache_unique(s),
        0 <= at < s.len(),
        s[at].venue@ == venue,
    ensures
        cache_has(s, venue),
        cache_entry(s, venue) == s[at],
{
    assert(cache_has(s, venue));
    let w = choose|i: int| 0 <= i < s.len() && s[i].venue@ == venue;
    if w != at {
        assert(s[w].venue@ != s[at].venue@);
    }
}

/// After replacing the entry at a unique index with one for the same venue,
/// membership is unchanged and only that venue's entry moved.
proof fn lemma_cache_update<P>(
    before: Seq<VenueTick<P>>,
    after: Seq<VenueTick<P>>,
    at: int,
    entry: VenueTick<P>,
)
    requires
        0 <= at < before.len(),
        after == before.update(at, entry),
        entry.venue@ == before[at].venue@,
        cache_unique(before),
    ensures
        cache_unique(after),
        forall|v: Seq<char>| cache_has(after, v) == cache_has(before, v),
        forall|v: Seq<char>|
            v != after[at].venue@ && cache_has(before, v) ==> cache_entry(after, v)
                == cache_entry(before, v),
        cache_entry(after, after[at].venue@) == after[at],
{
    assert forall|v: Seq<char>| cache_has(after, v) implies cache_has(before, v) by {
        let w = choose|i: int| 0 <= i < after.len() && after[i].venue@ == v;
        assert(before[w].venue@ == v || before[at].venue@ == v);
    }
    assert forall|v: Seq<char>| cache_has(before, v) implies cache_has(after, v) by {
        let w = choose|i: int| 0 <= i < before.len() && before[i].venue@ == v;
        assert(after[w].venue@ == v || after[at].venue@ == v);
    }
    assert forall|v: Seq<char>|
        v != after[at].venue@ && cache_has(before, v) implies cache_entry(after, v) == cache_entry(
        before,
        v,
    ) by {
        let wa = choose|i: int| 0 <= i < after.len() && after[i].venue@ == v;
        let wb = choose|i: int| 0 <= i < before.len() && before[i].venue@ == v;
        assert(cache_has(after, v));
        assert(before[wa].venue@ == v);
        assert(wa != at);
        if wa != wb {
            assert(before[wa].venue@ != before[wb].venue@);
        }
    }
    lemma_cache_lookup(after, after[at].venue@, at);
}

/// After pushing an entry for an absent venue, membership grows by exactly
/// that venue and no other entry moved.
proof fn lemma_cache_push<P>(before: Seq<VenueTick<P>>, after: Seq<VenueTick<P>>)
    requires
        before.len() < after.len(),
        after == before.push(after.last()),
        !cache_has(before, after.last().venue@),
        cache_unique(before),
    ensures
        cache_unique(after),
        cache_has(after, after.last().venue@),
        forall|v: Seq<char>|
            v != after.last().venue@ ==> cache_has(after, v) == cache_has(before, v),
        forall|v: Seq<char>|
            v != after.last().venue@ && cache_has(before, v) ==> cache_entry(after, v)
                == cache_entry(before, v),
        cache_entry(after, after.last().venue@) == after.last(),
{
    let entry = after.last();
    let last = before.len() as int;
    assert(after[last] == entry);
    assert forall|i: int, j: int|
        0 <= i < j < after.len() implies after[i].venue@ != after[j].venue@ by {
        if j == last {
            if after[i].venue@ == entry.venue@ {
                assert(before[i].venue@ == entry.venue@);
                assert(cache_has(before, entry.venue@));
            }
        }
    }
    assert forall|v: Seq<char>|
        v != entry.venue@ && cache_has(after, v) implies cache_has(before, v) by {
        let w = choose|i: int| 0 <= i < after.len() && after[i].venue@ == v;
        assert(w < last);
        assert(before[w].venue@ == v);
    }
    assert forall|v: Seq<char>|
        v != entry.venue@ && cache_has(before, v) implies cache_has(after, v) by {
        let w = choose|i: int| 0 <= i < before.len() && before[i].venue@ == v;
        assert(after[w].venue@ == v);
    }
    assert forall|v: Seq<char>|
        v != entry.venue@ && cache_has(before, v) implies cache_entry(after, v) == cache_entry(
        before,
        v,
    ) by {
        let wb = choose|i: int| 0 <= i < before.len() && before[i].venue@ == v;
        lemma_cache_lookup(after, v, wb);
        let wb2 = choose|i: int| 0 <= i < before.len() && before[i].venue@ == v;
        if wb2 != wb {
            assert(before[wb2].venue@ != before[wb].venue@);
        }
    }
    lemma_cache_lookup(after, entry.venue@, last);
}

} // verus!

//! Decision-latency instrumentation: recorded samples and nearest-rank
//! percentile queries over their sorted order.

use vstd::prelude::*;
use vstd::relations::sorted_by;
use vstd::seq_lib::lemma_multiset_commutative;
use vstd::seq_lib::lemma_sorted_unique;

verus! {

/// The recorded samples in ascending order.
pub open spec fn sorted_samples(s: Seq<u64>) -> Seq<u64> {
    s.sort_by(|x: u64, y: u64| x <= y)
}

/// Index selected by the nearest-rank rule for percentile `p` over `count`
/// samples: the rank is `p * count / 100` rounded up, and the index is one
/// below it. Meaningful for `1 <= p <= 100` and `count >= 1`.
pub open spec fn rank_index(p: int, count: int) -> int {
    (p * count + 99) / 100 - 1
}

/// The sample at the nearest-rank position for percentile `p`.
pub open spec fn nearest_rank(s: Seq<u64>, p: int) -> u64 {
    sorted_samples(s)[rank_index(p, s.len() as int)]
}

/// Nearest-rank report at the standard percentiles.
#[derive(Debug, Clone, PartialEq, Eq, Structural)]
pub struct LatencyPercentiles {
    pub count: usize,
    pub p50_micros: u64,
    pub p90_micros: u64,
    pub p95_micros: u64,
    pub p99_micros: u64,
    pub max_micros: u64,
}

/// Per-decision latency samples, unit-agnostic (recorded here in microseconds).
#[derive(Debug, Clone)]
pub struct DecisionLatencyMetrics {
    latencies_micros: Vec<u64>,
}

impl DecisionLatencyMetrics {
    /// The samples recorded so far, in recording order.
    pub closed spec fn samples(&self) -> Seq<u64> {
        self.latencies_micros@
    }

    pub fn new() -> (r: DecisionLatencyMetrics)
        ensures
            r.samples() == Seq::<u64>::empty(),
    {
        DecisionLatencyMetrics { latencies_micros: Vec::new() }
    }

    pub fn record_latency_micros(&mut self, latency_micros: u64)
        ensures
            final(self).samples() == old(self).samples().push(latency_micros),
    {
        self.latencies_micros.push(latency_micros);
    }

    /// Reports the standard percentiles, or `None` when no sample was
    /// recorded.
    pub fn percentiles(&self) -> (r: Option<LatencyPercentiles>)
        ensures
            r is Some <==> self.samples().len() > 0,
            r is Some ==> r->Some_0 == (LatencyPercentiles {
                count: self.samples().len() as usize,
                p50_micros: nearest_rank(self.samples(), 50),
                p90_micros: nearest_rank(self.samples(), 90),
                p95_micros: nearest_rank(self.samples(), 95),
                p99_micros: nearest_rank(self.samples(), 99),
                max_micros: sorted_samples(self.samples()).last(),
            }),
    {
        if self.latencies_micros.len() == 0 {
            return None;
        }

        let sorted = sorted_copy(&self.latencies_micros);
        let count = sorted.len();
        let p50 = rank_sample(&sorted, 50);
        let p90 = rank_sample(&sorted, 90);
        let p95 = rank_sample(&sorted, 95);
        let p99 = rank_sample(&sorted, 99);
        Some(
            LatencyPercentiles {
                count,
                p50_micros: p50,
                p90_micros: p90,
                p95_micros: p95,
                p99_micros: p99,
                max_micros: sorted[count - 1],
            },
        )
    }

    /// Answers an arbitrary integer percentile query; `None` on an empty
    /// record or a percentile outside `[1, 100]`.
    pub fn percentile_micros(&self, percentile: usize) -> (r: Option<u64>)
        ensures
            r is Some <==> self.samples().len() > 0 && 1 <= percentile <= 100,
            r is Some ==> r->Some_0 == nearest_rank(self.samples(), percentile as int),
    {
        if self.latencies_micros.len() == 0 {
            return None;
        }
        if percentile < 1 || percentile > 100 {
            return None;
        }

        let sorted = sorted_copy(&self.latencies_micros);
        Some(rank_sample(&sorted, percentile))
    }
}

impl Default for DecisionLatencyMetrics {
    fn default() -> (r: DecisionLatencyMetrics)
        ensures
            r.samples() == Seq::<u64>::empty(),
    {
        DecisionLatencyMetrics::new()
    }
}

/// Picks the nearest-rank element of an already sorted sample vector.
fn rank_sample(sorted: &Vec<u64>, percentile: usize) -> (r: u64)
    requires
        sorted@.len() > 0,
        1 <= percentile <= 100,
    ensures
        r == sorted@[rank_index(percentile as int, sorted@.len() as int)],
{
    let count = sorted.len();
    let pw: u128 = percentile as u128;
    let cw: u128 = count as u128;
    proof {
        assert(pw * cw >= 1 * cw) by (nonlinear_arith)
            requires pw >= 1 && cw >= 1;
        assert(pw * cw <= 100 * cw) by (nonlinear_arith)
            requires pw <= 100 && cw >= 1;
    }
    let rank_wide: u128 = (pw * cw + 99) / 100;
    proof {
        assert((pw * cw + 99) / 100 >= 1);
        assert((100 * cw + 99) / 100 == cw);
        assert((pw * cw + 99) / 100 <= (100 * cw + 99) / 100);
    }
    let idx: usize = (rank_wide - 1) as usize;
    sorted[idx]
}

/// Copies the samples into ascending order.
fn sorted_copy(v: &Vec<u64>) -> (r: Vec<u64>)
    ensures
        r@ == sorted_samples(v@),
        r@.len() == v@.len(),
{
    let ghost leq = |x: u64, y: u64| x <= y;
    let mut out: Vec<u64> = Vec::new();
    proof {
        assert(v@.subrange(0, 0) =~= Seq::<u64>::empty());
        assert(out@ =~= Seq::<u64>::empty());
    }
    let mut idx: usize = 0;
    while idx < v.len()
        invariant
            0 <= idx <= v@.len(),
            out@.len() == idx,
            out@.to_multiset() == v@.subrange(0, idx as int).to_multiset(),
            sorted_by(out@, leq),
            leq == (|x: u64, y: u64| x <= y),
        decreases v@.len() - idx,
    {
        let x = v[idx];
        let mut j: usize = 0;
        while j < out.len() && out[j] <= x
            invariant
                0 <= j <= out@.len(),
                forall|k: int| 0 <= k < j ==> out@[k] <= x,
            decreases out@.len() - j,
        {
            j = j + 1;
        }
        proof {
            lemma_insert_keeps_sorted(out@, j as int, x, leq);
            lemma_insert_multiset(out@, j as int, x);
            assert(v@.subrange(0, idx as int + 1) =~= v@.subrange(0, idx as int).push(x));
            v@.subrange(0, idx as int).to_multiset_ensures();
            assert(v@.subrange(0, idx as int + 1).to_multiset()
                =~= v@.subrange(0, idx as int).to_multiset().insert(x));
        }
        out.insert(j, x);
        idx = idx + 1;
    }
    proof {
        assert(v@.subrange(0, v@.len() as int) =~= v@);
        v@.lemma_sort_by_ensures(leq);
        lemma_sorted_unique(out@, v@.sort_by(leq), leq);
        assert(out@ =~= sorted_samples(v@));
    }
    out
}

/// Inserting at the boundary found by a linear scan keeps the order sorted.
proof fn lemma_insert_keeps_sorted(s: Seq<u64>, j: int, x: u64, leq: spec_fn(u64, u64) -> bool)
    requires
        0 <= j <= s.len(),
        sorted_by(s, leq),
        leq == (|x: u64, y: u64| x <= y),
        forall|k: int| 0 <= k < j ==> s[k] <= x,
        j < s.len() ==> s[j] > x,
    ensures
        sorted_by(s.insert(j, x), leq),
{
    let t = s.insert(j, x);
    s.insert_ensures(j, x);
    assert forall|a: int, b: int| 0 <= a < b < t.len() implies leq(t[a], t[b]) by {
        if a < j && b < j {
            assert(leq(s[a], s[b]));
        } else if a == j && b > j {
            assert(t[b] == s[b - 1]);
            if j < b - 1 {
                assert(leq(s[j], s[b - 1]));
            }
        } else if a < j && b == j {
            assert(t[a] == s[a]);
        } else if a > j && b > j {
            assert(t[a] == s[a - 1] && t[b] == s[b - 1]);
            assert(leq(s[a - 1], s[b - 1]));
        } else if a < j && b > j {
            assert(t[a] == s[a] && t[b] == s[b - 1]);
            if j < b - 1 {
                assert(leq(s[j], s[b - 1]));
            }
        }
    }
}

/// Inserting an element anywhere adds exactly that element to the multiset.
proof fn lemma_insert_multiset(s: Seq<u64>, j: int, x: u64)
    requires
        0 <= j <= s.len(),
    ensures
        s.insert(j, x).to_multiset() == s.to_multiset().insert(x),
{
    let s0 = s.subrange(0, j);
    let s1 = s.subrange(j, s.len() as int);
    assert(s =~= s0 + s1);
    lemma_multiset_commutative(s0, s1);
    lemma_multiset_commutative(s0.push(x), s1);
    s0.to_multiset_ensures();
    assert(s.insert(j, x) == s0.push(x) + s1);
    assert(s.insert(j, x).to_multiset() =~= s.to_multiset().insert(x));
}

} // verus!

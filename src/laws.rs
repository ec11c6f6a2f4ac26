use vstd::prelude::*;
use vstd::relations::{sorted_by, total_ordering};

use crate::aggregate::sum_multisets;
use crate::all_values::{exact_quantile, lemma_sorted_unique, sorted, sorted_of};
use crate::harness::{draws_for, drawn_from, drawn_union};
use crate::sample::{Quantile, Sample, order_index};

verus! {

/// Every sequence of keys has an ascending arrangement: `sorted_of` of its
/// multiset is one.
pub proof fn lemma_sorted_of_exists(s: Seq<u64>)
    ensures
        sorted(sorted_of(s.to_multiset())),
        sorted_of(s.to_multiset()).to_multiset() == s.to_multiset(),
{
    let leq = |a: u64, b: u64| a <= b;
    assert(total_ordering(leq));
    s.lemma_sort_by_ensures(leq);
    let t = s.sort_by(leq);
    assert(sorted_by(t, leq));
    assert forall|i: int, j: int| 0 <= i <= j < t.len() implies t[i] <= t[j] by {
        if i < j {
            assert(leq(t[i], t[j]));
        }
    }
    assert(sorted(t) && t.to_multiset() == s.to_multiset());
}

/// The exact answer after merging shards does not depend on how the samples
/// were split into shards nor on the order of insertion: it is the order
/// statistic of any ascending arrangement of all of them.
pub proof fn law_exact_merge_matches_single(
    shards: Seq<Seq<u64>>,
    single: Seq<u64>,
    arranged: Seq<u64>,
    q: Quantile,
)
    requires
        single.to_multiset() == sum_multisets(shards.map_values(|s: Seq<u64>| s.to_multiset())),
        sorted(arranged),
        arranged.to_multiset() == single.to_multiset(),
        single.len() > 0,
        q.spec_valid(),
    ensures
        exact_quantile(sum_multisets(shards.map_values(|s: Seq<u64>| s.to_multiset())), q)
            == arranged[order_index(single.len(), q)],
        exact_quantile(single.to_multiset(), q) == arranged[order_index(single.len(), q)],
{
    lemma_sorted_of_exists(single);
    lemma_sorted_unique(sorted_of(single.to_multiset()), arranged);
    single.to_multiset_ensures();
}

/// The exact answer to quantile 0 is at most every sample, and the one to
/// quantile 1 at least every sample.
pub proof fn law_exact_boundaries(samples: Seq<u64>, lo: Quantile, hi: Quantile)
    requires
        samples.len() > 0,
        lo.num == 0,
        lo.den > 0,
        hi.num == hi.den,
        hi.den > 0,
    ensures
        forall|i: int|
            0 <= i < samples.len() ==> exact_quantile(samples.to_multiset(), lo) <= #[trigger] samples[i]
                <= exact_quantile(samples.to_multiset(), hi),
{
    let m = samples.to_multiset();
    samples.to_multiset_ensures();
    lemma_sorted_of_exists(samples);
    let t = sorted_of(m);
    t.to_multiset_ensures();
    let n = samples.len();
    assert(order_index(n, lo) == 0) by (nonlinear_arith)
        requires
            lo.num == 0,
            lo.den > 0,
            n > 0,
    ;
    assert(order_index(n, hi) == n - 1) by (nonlinear_arith)
        requires
            hi.num == hi.den,
            hi.den > 0,
            n > 0,
    ;
    assert forall|i: int| 0 <= i < samples.len() implies t[0] <= #[trigger] samples[i] <= t[n - 1] by {
        assert(samples.contains(samples[i]));
        assert(m.count(samples[i]) > 0);
        assert(t.contains(samples[i]));
        let k = choose|k: int| 0 <= k < t.len() && t[k] == samples[i];
    }
}

/// With a sampler whose value depends on its index alone, any two runs over
/// the same shard counts draw the same samples, whichever schedule fed the
/// shards: their merged instances ingest the same multiset.
pub proof fn law_schedules_draw_alike<F: Fn(usize) -> Sample>(
    sampler: F,
    counts: Seq<usize>,
    first: Seq<Seq<u64>>,
    second: Seq<Seq<u64>>,
)
    requires
        forall|i: usize, a: Sample, b: Sample|
            call_ensures(sampler, (i,), a) && call_ensures(sampler, (i,), b) ==> a == b,
        draws_for(sampler, counts, first),
        draws_for(sampler, counts, second),
    ensures
        drawn_union(first) == drawn_union(second),
{
    assert forall|j: int| 0 <= j < first.len() implies #[trigger] first[j] == second[j] by {
        assert(first[j].len() == counts[j] && drawn_from(sampler, first[j]));
        assert(second[j].len() == counts[j] && drawn_from(sampler, second[j]));
        assert forall|i: int| 0 <= i < first[j].len() implies first[j][i] == second[j][i] by {
            assert(call_ensures(sampler, (i as usize,), Sample { key: first[j][i] }));
            assert(call_ensures(sampler, (i as usize,), Sample { key: second[j][i] }));
        }
        assert(first[j] =~= second[j]);
    }
    assert(first =~= second);
}

} // verus!

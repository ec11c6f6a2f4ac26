use vstd::multiset::Multiset;
use vstd::prelude::*;

use crate::aggregate::{Aggregate, Percentile, query_outcome, sum_multisets};
use crate::sample::{Quantile, Sample};

verus! {

/// An estimator that could not be built from its configuration.
#[derive(Clone, Debug)]
pub struct ConfigError {
    pub reason: String,
}

/// What the merge coordinator hands back.
pub enum MergeOutcome<A> {
    /// One instance that has ingested the samples of all shards.
    Merged(A),
    /// The kind cannot merge two or more instances.
    Unsupported,
}

/// The order in which the shards of one run draw their samples.
#[derive(Clone, Copy, PartialEq, Eq, Structural, Debug)]
pub enum Schedule {
    /// Each shard draws all of its samples before the next one starts.
    Sequential,
    /// The shards take turns, one sample each, as if ingesting at once.
    RoundRobin,
}

/// What one run of shards, merge and queries gives.
pub enum RunOutcome<A> {
    /// The merged instance and its estimate for each configured quantile.
    Measured { merged: A, percentiles: Vec<Percentile> },
    /// The kind cannot merge the shards: the run has no percentiles.
    Unsupported,
}

/// The sum of the counts in `s`.
pub open spec fn total_count(s: Seq<usize>) -> nat
    decreases s.len(),
{
    if s.len() == 0 {
        0
    } else {
        total_count(s.drop_last()) + (s.last() as nat)
    }
}

/// Whether `s` holds, at each index `i`, a value that `sampler` may return
/// for `i`.
pub open spec fn drawn_from<F: Fn(usize) -> Sample>(sampler: F, s: Seq<u64>) -> bool {
    forall|i: int| 0 <= i < s.len() ==> call_ensures(sampler, (i as usize,), Sample { key: #[trigger] s[i] })
}

/// Whether `a` is finalized and has ingested `count` samples that `sampler`
/// may have returned for the indices `0..count`.
pub open spec fn shard_filled<A: Aggregate, F: Fn(usize) -> Sample>(a: A, sampler: F, count: usize) -> bool {
    &&& a.finalized()
    &&& exists|s: Seq<u64>| s.len() == count && drawn_from(sampler, s) && a.ingested() == s.to_multiset()
}

/// Feeds `count` samples, drawn at indices `0..count`, into `agg`, then
/// finalizes it.
pub fn run_shard<A: Aggregate, F: Fn(usize) -> Sample>(agg: A, count: usize, sampler: &F) -> (r: A)
    requires
        !agg.finalized(),
        forall|i: usize| call_requires(*sampler, (i,)),
    ensures
        r.finalized(),
        exists|s: Seq<u64>|
            s.len() == count && drawn_from(*sampler, s) && r.ingested() == agg.ingested().add(
                s.to_multiset(),
            ),
{
    let mut agg = agg;
    let ghost start = agg.ingested();
    let ghost mut drawn: Seq<u64> = Seq::empty();
    let mut i: usize = 0;
    proof {
        drawn.to_multiset_ensures();
        assert(drawn.to_multiset() =~= Multiset::<u64>::empty());
        assert(start.add(drawn.to_multiset()) =~= start);
    }
    while i < count
        invariant
            !agg.finalized(),
            forall|i: usize| call_requires(*sampler, (i,)),
            i <= count,
            drawn.len() == i,
            drawn_from(*sampler, drawn),
            agg.ingested() == start.add(drawn.to_multiset()),
        decreases count - i,
    {
        let v = sampler(i);
        agg.insert(v);
        proof {
            drawn.to_multiset_ensures();
            assert(drawn.push(v.key).to_multiset() == drawn.to_multiset().insert(v.key));
            assert(agg.ingested() =~= start.add(drawn.push(v.key).to_multiset()));
            assert(drawn_from(*sampler, drawn.push(v.key)));
            drawn = drawn.push(v.key);
        }
        i = i + 1;
    }
    agg.finalize();
    agg
}

proof fn lemma_sum_len(ms: Seq<Multiset<u64>>, counts: Seq<usize>)
    requires
        ms.len() == counts.len(),
        forall|j: int| 0 <= j < ms.len() ==> (#[trigger] ms[j]).len() == counts[j],
    ensures
        sum_multisets(ms).len() == total_count(counts),
    decreases ms.len(),
{
    if ms.len() > 0 {
        lemma_sum_len(ms.drop_last(), counts.drop_last());
    }
}

/// Builds one instance per shard with `make` and runs each shard in turn,
/// shard `j` drawing `counts[j]` samples at indices `0..counts[j]`.
pub fn run_shards<A: Aggregate, M: Fn() -> Result<A, ConfigError>, F: Fn(usize) -> Sample>(
    counts: &Vec<usize>,
    make: &M,
    sampler: &F,
) -> (r: Result<Vec<A>, ConfigError>)
    requires
        call_requires(*make, ()),
        forall|a: Result<A, ConfigError>|
            call_ensures(*make, (), a) ==> (a matches Ok(x) ==> x.ingested() == Multiset::<
                u64,
            >::empty() && !x.finalized()),
        forall|i: usize| call_requires(*sampler, (i,)),
    ensures
        r matches Err(e) ==> call_ensures(*make, (), Err(e)),
        (forall|a: Result<A, ConfigError>| call_ensures(*make, (), a) ==> a is Ok) ==> r is Ok,
        r matches Ok(v) ==> {
            &&& v.len() == counts.len()
            &&& forall|j: int|
                0 <= j < v.len() ==> shard_filled(#[trigger] v@[j], *sampler, counts@[j])
        },
{
    let mut out: Vec<A> = Vec::new();
    let mut j: usize = 0;
    while j < counts.len()
        invariant
            call_requires(*make, ()),
            forall|a: Result<A, ConfigError>|
                call_ensures(*make, (), a) ==> (a matches Ok(x) ==> x.ingested() == Multiset::<
                    u64,
                >::empty() && !x.finalized()),
            forall|i: usize| call_requires(*sampler, (i,)),
            j <= counts.len(),
            out.len() == j,
            forall|k: int|
                0 <= k < j ==> shard_filled(#[trigger] out@[k], *sampler, counts@[k]),
        decreases counts.len() - j,
    {
        let fresh = make();
        match fresh {
            Err(e) => {
                return Err(e);
            },
            Ok(agg) => {
                let done = run_shard(agg, counts[j], sampler);
                let ghost s = choose|s: Seq<u64>|
                    s.len() == counts@[j as int] && drawn_from(*sampler, s) && done.ingested()
                        == agg.ingested().add(s.to_multiset());
                proof {
                    assert(done.ingested() =~= s.to_multiset());
                }
                let ghost prev = out@;
                out.push(done);
                proof {
                    assert(out@[j as int] == done);
                    assert(shard_filled(out@[j as int], *sampler, counts@[j as int]));
                    assert forall|k: int| 0 <= k < j implies shard_filled(
                        #[trigger] out@[k],
                        *sampler,
                        counts@[k],
                    ) by {
                        assert(out@[k] == prev[k]);
                    }
                }
                j = j + 1;
            },
        }
    }
    Ok(out)
}

/// Takes the instance at `j` out of `shards`; the last one fills the gap
/// until `put_at` puts it back.
fn take_at<A>(shards: &mut Vec<A>, j: usize) -> (r: A)
    requires
        j < old(shards).len(),
    ensures
        r == old(shards)@[j as int],
        final(shards)@.len() == old(shards)@.len() - 1,
        final(shards)@ == old(shards)@.update(j as int, old(shards)@.last()).drop_last(),
{
    shards.swap_remove(j)
}

/// Puts `a` back at `j` after `take_at(shards, j)`.
fn put_at<A>(shards: &mut Vec<A>, j: usize, a: A, ghost_before: Ghost<Seq<A>>)
    requires
        j < ghost_before@.len(),
        old(shards)@ == ghost_before@.update(j as int, ghost_before@.last()).drop_last(),
    ensures
        final(shards)@ == ghost_before@.update(j as int, a),
{
    shards.push(a);
    if j < shards.len() - 1 {
        let moved = shards.swap_remove(j);
        shards.push(moved);
    }
    proof {
        assert(final(shards)@ =~= ghost_before@.update(j as int, a));
    }
}

/// The smaller of `a` and `b`.
pub open spec fn min_nat(a: nat, b: nat) -> nat {
    if a < b {
        a
    } else {
        b
    }
}

/// Builds one instance per shard with `make`, then feeds the shards in
/// turns: in round `t` every shard with more than `t` samples to draw takes
/// the sample at index `t`. Each shard ends as it does when run alone.
pub fn run_shards_round_robin<A: Aggregate, M: Fn() -> Result<A, ConfigError>, F: Fn(usize) -> Sample>(
    counts: &Vec<usize>,
    make: &M,
    sampler: &F,
) -> (r: Result<Vec<A>, ConfigError>)
    requires
        call_requires(*make, ()),
        forall|a: Result<A, ConfigError>|
            call_ensures(*make, (), a) ==> (a matches Ok(x) ==> x.ingested() == Multiset::<
                u64,
            >::empty() && !x.finalized()),
        forall|i: usize| call_requires(*sampler, (i,)),
    ensures
        r matches Err(e) ==> call_ensures(*make, (), Err(e)),
        (forall|a: Result<A, ConfigError>| call_ensures(*make, (), a) ==> a is Ok) ==> r is Ok,
        r matches Ok(v) ==> {
            &&& v.len() == counts.len()
            &&& forall|j: int|
                0 <= j < v.len() ==> shard_filled(#[trigger] v@[j], *sampler, counts@[j])
        },
{
    let k = counts.len();
    let mut shards: Vec<A> = Vec::new();
    let mut longest: usize = 0;
    let mut j: usize = 0;
    while j < k
        invariant
            k == counts.len(),
            j <= k,
            shards.len() == j,
            call_requires(*make, ()),
            forall|a: Result<A, ConfigError>|
                call_ensures(*make, (), a) ==> (a matches Ok(x) ==> x.ingested() == Multiset::<
                    u64,
                >::empty() && !x.finalized()),
            forall|i: int|
                0 <= i < j ==> (#[trigger] shards@[i]).ingested() == Multiset::<u64>::empty()
                    && !shards@[i].finalized(),
            forall|i: int| 0 <= i < j ==> #[trigger] counts@[i] <= longest,
        decreases k - j,
    {
        match make() {
            Err(e) => {
                return Err(e);
            },
            Ok(a) => {
                shards.push(a);
            },
        }
        if counts[j] > longest {
            longest = counts[j];
        }
        j = j + 1;
    }
    let ghost mut drawn: Seq<Seq<u64>> = Seq::new(k as nat, |i: int| Seq::<u64>::empty());
    proof {
        assert forall|i: int| 0 <= i < k implies (#[trigger] drawn[i]).to_multiset()
            == shards@[i].ingested() by {
            drawn[i].to_multiset_ensures();
            assert(drawn[i].to_multiset() =~= Multiset::<u64>::empty());
        }
    }
    let mut t: usize = 0;
    while t < longest
        invariant
            k == counts.len(),
            shards.len() == k,
            drawn.len() == k,
            t <= longest,
            forall|i: usize| call_requires(*sampler, (i,)),
            forall|i: int| 0 <= i < k ==> #[trigger] counts@[i] <= longest,
            forall|i: int|
                0 <= i < k ==> {
                    &&& (#[trigger] drawn[i]).len() == min_nat(t as nat, counts@[i] as nat)
                    &&& drawn_from(*sampler, drawn[i])
                    &&& drawn[i].to_multiset() == shards@[i].ingested()
                    &&& !shards@[i].finalized()
                },
        decreases longest - t,
    {
        let mut j: usize = 0;
        while j < k
            invariant
                k == counts.len(),
                shards.len() == k,
                drawn.len() == k,
                t < longest,
                j <= k,
                forall|i: usize| call_requires(*sampler, (i,)),
                forall|i: int| 0 <= i < k ==> #[trigger] counts@[i] <= longest,
                forall|i: int|
                    0 <= i < k ==> {
                        &&& (#[trigger] drawn[i]).len() == (if i < j {
                            min_nat((t + 1) as nat, counts@[i] as nat)
                        } else {
                            min_nat(t as nat, counts@[i] as nat)
                        })
                        &&& drawn_from(*sampler, drawn[i])
                        &&& drawn[i].to_multiset() == shards@[i].ingested()
                        &&& !shards@[i].finalized()
                    },
            decreases k - j,
        {
            let ghost shards0 = shards@;
            let ghost drawn0 = drawn;
            proof {
                // Brings the loop invariant for shard `j` into view.
                assert(drawn[j as int].len() == min_nat(t as nat, counts@[j as int] as nat));
                assert(!shards@[j as int].finalized());
            }
            if t < counts[j] {
                let v = sampler(t);
                let mut a = take_at(&mut shards, j);
                a.insert(v);
                put_at(&mut shards, j, a, Ghost(shards0));
                proof {
                    let d = drawn[j as int];
                    d.to_multiset_ensures();
                    assert(d.push(v.key).to_multiset() == d.to_multiset().insert(v.key));
                    assert(d.len() == t);
                    assert(drawn_from(*sampler, d.push(v.key))) by {
                        assert forall|i: int| 0 <= i < d.push(v.key).len() implies call_ensures(
                            *sampler,
                            (i as usize,),
                            Sample { key: #[trigger] d.push(v.key)[i] },
                        ) by {
                            if i < d.len() {
                                assert(d.push(v.key)[i] == d[i]);
                            } else {
                                assert(v == Sample { key: v.key });
                            }
                        }
                    }
                    drawn = drawn.update(j as int, d.push(v.key));
                }
            }
            proof {
                assert forall|i: int| 0 <= i < k implies {
                    &&& (#[trigger] drawn[i]).len() == (if i < j + 1 {
                        min_nat((t + 1) as nat, counts@[i] as nat)
                    } else {
                        min_nat(t as nat, counts@[i] as nat)
                    })
                    &&& drawn_from(*sampler, drawn[i])
                    &&& drawn[i].to_multiset() == shards@[i].ingested()
                    &&& !shards@[i].finalized()
                } by {
                    if i != j {
                        assert(drawn[i] == drawn0[i]);
                        assert(shards@[i] == shards0[i]);
                    }
                }
            }
            j = j + 1;
        }
        t = t + 1;
    }
    let mut j: usize = 0;
    while j < k
        invariant
            k == counts.len(),
            shards.len() == k,
            drawn.len() == k,
            j <= k,
            forall|i: int| 0 <= i < k ==> #[trigger] counts@[i] <= longest,
            forall|i: int|
                0 <= i < k ==> {
                    &&& (#[trigger] drawn[i]).len() == counts@[i]
                    &&& drawn_from(*sampler, drawn[i])
                    &&& drawn[i].to_multiset() == shards@[i].ingested()
                    &&& (i < j ==> shards@[i].finalized())
                },
        decreases k - j,
    {
        let ghost before = shards@;
        proof {
            assert(drawn[j as int].len() == counts@[j as int]);
        }
        let mut a = take_at(&mut shards, j);
        a.finalize();
        put_at(&mut shards, j, a, Ghost(before));
        proof {
            assert forall|i: int| 0 <= i < k implies {
                &&& (#[trigger] drawn[i]).len() == counts@[i]
                &&& drawn_from(*sampler, drawn[i])
                &&& drawn[i].to_multiset() == shards@[i].ingested()
                &&& (i < j + 1 ==> shards@[i].finalized())
            } by {
                if i != j {
                    assert(shards@[i] == before[i]);
                }
            }
        }
        j = j + 1;
    }
    proof {
        assert forall|i: int| 0 <= i < k implies shard_filled(#[trigger] shards@[i], *sampler, counts@[i]) by {
            let s = drawn[i];
            assert(s.len() == counts@[i] && drawn_from(*sampler, s) && shards@[i].ingested()
                == s.to_multiset());
        }
    }
    Ok(shards)
}

/// Combines the finalized shard instances of one run through the kind's
/// merge. A single instance is handed back untouched.
pub fn merge_shards<A: Aggregate>(shards: Vec<A>) -> (r: MergeOutcome<A>)
    requires
        shards.len() >= 1,
        forall|i: int| 0 <= i < shards.len() ==> (#[trigger] shards@[i]).finalized(),
    ensures
        shards.len() == 1 ==> r == MergeOutcome::Merged(shards@[0]),
        shards.len() >= 2 ==> (r is Unsupported <==> !A::mergeable()),
        r matches MergeOutcome::Merged(m) ==> m.finalized() && m.ingested() == sum_multisets(
            shards@.map_values(|a: A| a.ingested()),
        ),
{
    match A::merge(shards) {
        Some(m) => MergeOutcome::Merged(m),
        None => MergeOutcome::Unsupported,
    }
}

/// Whether `ss` holds, for each shard `j`, the `counts[j]` samples that
/// `sampler` may have returned for the indices `0..counts[j]`.
pub open spec fn draws_for<F: Fn(usize) -> Sample>(sampler: F, counts: Seq<usize>, ss: Seq<Seq<u64>>) -> bool {
    &&& ss.len() == counts.len()
    &&& forall|j: int|
        0 <= j < ss.len() ==> (#[trigger] ss[j]).len() == counts[j] && drawn_from(sampler, ss[j])
}

/// The multiset of all samples of all shards.
pub open spec fn drawn_union(ss: Seq<Seq<u64>>) -> Multiset<u64> {
    sum_multisets(ss.map_values(|s: Seq<u64>| s.to_multiset()))
}

/// One run: builds and fills an instance per shard in the order that
/// `schedule` gives, merges them, and queries the merged instance for each of
/// `quantiles`, in order. What is stated of `A` holds for kinds whose impl
/// Verus has read; for another kind it holds only as far as its impl keeps
/// the contracts of `Aggregate`.
pub fn run_combination<A: Aggregate, M: Fn() -> Result<A, ConfigError>, F: Fn(usize) -> Sample>(
    counts: &Vec<usize>,
    make: &M,
    sampler: &F,
    quantiles: &Vec<Quantile>,
    schedule: Schedule,
) -> (r: Result<RunOutcome<A>, ConfigError>)
    requires
        counts.len() >= 1,
        call_requires(*make, ()),
        forall|a: Result<A, ConfigError>|
            call_ensures(*make, (), a) ==> (a matches Ok(x) ==> x.ingested() == Multiset::<
                u64,
            >::empty() && !x.finalized()),
        forall|i: usize| call_requires(*sampler, (i,)),
    ensures
        r matches Err(e) ==> call_ensures(*make, (), Err(e)),
        (forall|a: Result<A, ConfigError>| call_ensures(*make, (), a) ==> a is Ok) ==> r is Ok,
        r matches Ok(o) ==> (o is Unsupported <==> counts.len() >= 2 && !A::mergeable()),
        r matches Ok(RunOutcome::Measured { merged, percentiles }) ==> {
            &&& merged.finalized()
            &&& merged.ingested().len() == total_count(counts@)
            &&& exists|ss: Seq<Seq<u64>>|
                draws_for(*sampler, counts@, ss) && merged.ingested() == drawn_union(ss)
            &&& percentiles.len() == quantiles.len()
            &&& forall|j: int|
                0 <= j < percentiles.len() ==> {
                    &&& (#[trigger] percentiles@[j]).quantile == quantiles@[j]
                    &&& percentiles@[j].estimate == merged.estimate(quantiles@[j])
                    &&& query_outcome(merged.ingested(), quantiles@[j], percentiles@[j].estimate)
                    &&& (percentiles@[j].estimate matches Ok(v) ==> A::admissible(
                        merged.ingested(),
                        quantiles@[j],
                        v,
                    ))
                }
        },
{
    let filled = match schedule {
        Schedule::Sequential => run_shards(counts, make, sampler),
        Schedule::RoundRobin => run_shards_round_robin(counts, make, sampler),
    };
    let shards = match filled {
        Err(e) => {
            return Err(e);
        },
        Ok(v) => v,
    };
    proof {
        let ms = shards@.map_values(|a: A| a.ingested());
        assert forall|j: int| 0 <= j < ms.len() implies (#[trigger] ms[j]).len() == counts@[j] by {
            assert(shard_filled(shards@[j], *sampler, counts@[j]));
            let s = choose|s: Seq<u64>|
                s.len() == counts@[j] && drawn_from(*sampler, s) && shards@[j].ingested()
                    == s.to_multiset();
            s.to_multiset_ensures();
        }
        lemma_sum_len(ms, counts@);
    }
    let ghost ss = Seq::new(
        counts.len() as nat,
        |j: int|
            choose|s: Seq<u64>|
                s.len() == counts@[j] && drawn_from(*sampler, s) && shards@[j].ingested()
                    == s.to_multiset(),
    );
    proof {
        let ms = shards@.map_values(|a: A| a.ingested());
        assert forall|j: int| 0 <= j < ss.len() implies (#[trigger] ss[j]).len() == counts@[j]
            && drawn_from(*sampler, ss[j]) && ms[j] == ss[j].to_multiset() by {
            assert(shard_filled(shards@[j], *sampler, counts@[j]));
        }
        assert(ms =~= ss.map_values(|s: Seq<u64>| s.to_multiset()));
        assert(draws_for(*sampler, counts@, ss));
        assert(sum_multisets(ms) == drawn_union(ss));
    }
    match merge_shards(shards) {
        MergeOutcome::Unsupported => Ok(RunOutcome::Unsupported),
        MergeOutcome::Merged(m) => {
            assert(m.ingested() == drawn_union(ss));
            let mut merged = m;
            let percentiles = merged.get_percentiles(quantiles);
            Ok(RunOutcome::Measured { merged, percentiles })
        },
    }
}

/// How one combination of the benchmark ended.
pub enum Outcome {
    /// The estimate for each configured quantile.
    Measured(Vec<Percentile>),
    /// The kind cannot merge the shards: every percentile is shown as not a
    /// number.
    Unsupported,
    /// The estimator could not be built.
    Failed(ConfigError),
}

/// The record of one combination of distribution, shard counts and kind.
pub struct BenchmarkResult {
    pub name: String,
    pub elapsed_nanos: u64,
    pub peak_memory: usize,
    pub serialized_size: Option<usize>,
    pub outcome: Outcome,
}

/// Packages a run into its record. A measured run is named after the merged
/// instance's kind and carries its serialized size; a run without an
/// instance is named `label`.
pub fn package_result<A: Aggregate>(
    label: String,
    run: Result<RunOutcome<A>, ConfigError>,
    elapsed_nanos: u64,
    peak_memory: usize,
) -> (r: BenchmarkResult)
    ensures
        !(run is Ok && run->Ok_0 is Measured) ==> r.name == label,
        r.elapsed_nanos == elapsed_nanos,
        r.peak_memory == peak_memory,
        run is Err ==> r.serialized_size is None,
        run is Err ==> (r.outcome matches Outcome::Failed(e) && run == Err::<
            RunOutcome<A>,
            ConfigError,
        >(e)),
        run matches Ok(RunOutcome::Unsupported) ==> r.serialized_size is None
            && r.outcome is Unsupported,
        run matches Ok(RunOutcome::Measured { merged, percentiles }) ==> (r.outcome matches Outcome::Measured(p)
            && p == percentiles),
        run matches Ok(RunOutcome::Measured { merged, percentiles }) ==> r.serialized_size
            == merged.serialized() && r.name@ == merged.kind_name(),
{
    match run {
        Err(e) => BenchmarkResult {
            name: label,
            elapsed_nanos,
            peak_memory,
            serialized_size: None,
            outcome: Outcome::Failed(e),
        },
        Ok(RunOutcome::Unsupported) => BenchmarkResult {
            name: label,
            elapsed_nanos,
            peak_memory,
            serialized_size: None,
            outcome: Outcome::Unsupported,
        },
        Ok(RunOutcome::Measured { merged, percentiles }) => {
            let serialized_size = merged.serialize_size();
            let name = merged.name().to_owned();
            BenchmarkResult {
                name,
                elapsed_nanos,
                peak_memory,
                serialized_size,
                outcome: Outcome::Measured(percentiles),
            }
        },
    }
}

} // verus!

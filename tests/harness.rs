use std::cell::Cell;

use quantile_bench::aggregate::Aggregate;
use quantile_bench::all_values::AllValues;
use quantile_bench::harness::{
    merge_shards, package_result, run_combination, run_shards, run_shards_round_robin, ConfigError,
    MergeOutcome, Outcome, RunOutcome, Schedule,
};
use quantile_bench::sample::{Quantile, QueryError, Sample};

fn s(x: f64) -> Sample {
    Sample::from_bits(x.to_bits())
}

fn v(r: Result<Sample, QueryError>) -> f64 {
    f64::from_bits(r.unwrap().to_bits())
}

fn targets() -> Vec<Quantile> {
    [5000u64, 7500, 9000, 9500, 9900, 9990, 9999].iter().map(|n| Quantile::new(*n, 10000)).collect()
}

/// A kind that counts samples and has no merge.
struct CountOnly {
    n: usize,
    done: bool,
}

impl Aggregate for CountOnly {
    fn name(&self) -> &str {
        "CountOnly"
    }
    fn finalize(&mut self) {
        self.done = true;
    }
    fn get_quantil(&mut self, q: Quantile) -> Result<Sample, QueryError> {
        if !q.valid() {
            return Err(QueryError::OutOfRange);
        }
        if self.n == 0 {
            return Err(QueryError::Empty);
        }
        Ok(s(self.n as f64))
    }
    fn insert(&mut self, _value: Sample) {
        self.n += 1;
    }
    fn serialize_size(&self) -> Option<usize> {
        None
    }
    fn merge(mut other: Vec<Self>) -> Option<Self> {
        if other.len() == 1 {
            other.pop()
        } else {
            None
        }
    }
}

fn counting_sampler(next: &Cell<u64>) -> impl Fn(usize) -> Sample + '_ {
    move |_| {
        let x = next.get() + 1;
        next.set(x);
        s(x as f64)
    }
}

fn measured(r: Result<RunOutcome<AllValues>, ConfigError>) -> (AllValues, Vec<f64>) {
    match r {
        Ok(RunOutcome::Measured { merged, percentiles }) => {
            let vals = percentiles.iter().map(|p| v(p.estimate)).collect();
            (merged, vals)
        }
        _ => panic!("expected a measured run"),
    }
}

#[test]
fn sharded_three_million_matches_single_shard() {
    let qs = vec![Quantile::new(1, 2)];
    let next = Cell::new(0u64);
    let sharded = run_combination(
        &vec![1_000_000, 1_000_000, 1_000_000],
        &|| Ok(AllValues::new()),
        &counting_sampler(&next),
        &qs,
        Schedule::Sequential,
    );
    let next2 = Cell::new(0u64);
    let single = run_combination(&vec![3_000_000], &|| Ok(AllValues::new()), &counting_sampler(&next2), &qs, Schedule::Sequential);
    let (first_merged, first_pcts) = measured(sharded);
    let (second_merged, second_pcts) = measured(single);
    assert_eq!(first_merged.len(), 3_000_000);
    assert_eq!(second_merged.len(), 3_000_000);
    assert_eq!(first_pcts, second_pcts);
    assert_eq!(first_pcts[0], 1_500_001.0);
}

#[test]
fn single_shard_thousand_gives_exact_percentiles() {
    let next = Cell::new(0u64);
    let (_, p) = measured(run_combination(&vec![1000], &|| Ok(AllValues::new()), &counting_sampler(&next), &targets(), Schedule::Sequential));
    assert_eq!(p, vec![501.0, 751.0, 901.0, 951.0, 991.0, 1000.0, 1000.0]);
}

#[test]
fn singleton_merge_is_identity() {
    let mut a = AllValues::new();
    for x in [4.0, 1.0, 3.0] {
        a.insert(s(x));
    }
    a.finalize();
    let mut b = AllValues::new();
    for x in [4.0, 1.0, 3.0] {
        b.insert(s(x));
    }
    b.finalize();
    match merge_shards(vec![a]) {
        MergeOutcome::Merged(mut m) => {
            for q in targets() {
                assert_eq!(m.get_quantil(q), b.get_quantil(q));
            }
        }
        MergeOutcome::Unsupported => panic!("a single shard always merges"),
    }
    let c = CountOnly { n: 5, done: true };
    match merge_shards(vec![c]) {
        MergeOutcome::Merged(m) => assert_eq!(m.n, 5),
        MergeOutcome::Unsupported => panic!("a single shard always merges"),
    }
}

#[test]
fn unsupported_merge_gives_sentinel() {
    let sampler = |i: usize| s(i as f64);
    let make = || Ok(CountOnly { n: 0, done: false });
    let r = run_combination(&vec![10, 20], &make, &sampler, &targets(), Schedule::Sequential);
    assert!(matches!(r, Ok(RunOutcome::Unsupported)));
    let rec = package_result("CountOnly".to_string(), r, 5, 7);
    assert!(matches!(rec.outcome, Outcome::Unsupported));
    assert_eq!(rec.serialized_size, None);
    assert_eq!(rec.peak_memory, 7);
    let one = run_combination(&vec![10], &make, &sampler, &targets(), Schedule::Sequential);
    match one {
        Ok(RunOutcome::Measured { merged, percentiles }) => {
            assert_eq!(merged.n, 10);
            assert_eq!(percentiles.len(), 7);
            assert!(merged.done);
        }
        _ => panic!("one shard needs no merge"),
    }
}

#[test]
fn configuration_error_is_reported() {
    let sampler = |i: usize| s(i as f64);
    let make = || -> Result<AllValues, ConfigError> { Err(ConfigError { reason: "tolerance must be positive".to_string() }) };
    let r = run_combination(&vec![10], &make, &sampler, &targets(), Schedule::Sequential);
    let rec = package_result("AllValues".to_string(), r, 1, 2);
    match rec.outcome {
        Outcome::Failed(e) => assert_eq!(e.reason, "tolerance must be positive"),
        _ => panic!("expected a configuration error"),
    }
    assert_eq!(rec.name, "AllValues");
    assert_eq!(rec.elapsed_nanos, 1);
}

#[test]
fn measured_record_carries_size_and_percentiles() {
    let sampler = |i: usize| s((i % 10) as f64);
    let r = run_combination(&vec![50, 0, 50], &|| Ok(AllValues::new()), &sampler, &targets(), Schedule::Sequential);
    let rec = package_result("label".to_string(), r, 3, 4);
    assert_eq!(rec.name, "AllValues");
    assert_eq!(rec.serialized_size, Some(800));
    match rec.outcome {
        Outcome::Measured(p) => {
            assert_eq!(p.len(), 7);
            assert_eq!(v(p[0].estimate), 5.0);
            assert_eq!(v(p[6].estimate), 9.0);
        }
        _ => panic!("expected percentiles"),
    }
}

#[test]
fn empty_shards_give_empty_error() {
    let sampler = |i: usize| s(i as f64);
    let r = run_combination(&vec![0, 0], &|| Ok(AllValues::new()), &sampler, &targets(), Schedule::Sequential);
    match r {
        Ok(RunOutcome::Measured { percentiles, .. }) => {
            assert!(percentiles.iter().all(|p| p.estimate == Err(QueryError::Empty)));
        }
        _ => panic!("expected a measured run"),
    }
}

#[test]
fn shards_draw_from_index_zero() {
    let sampler = |i: usize| s(i as f64);
    let shards = run_shards(&vec![3, 5], &|| Ok(AllValues::new()), &sampler).unwrap();
    assert_eq!(shards.len(), 2);
    assert_eq!(shards[0].len(), 3);
    assert_eq!(shards[1].len(), 5);
    let mut second = shards.into_iter().nth(1).unwrap();
    assert_eq!(v(second.get_quantil(Quantile::new(1, 1))), 4.0);
}

#[test]
fn round_robin_matches_sequential_for_exact() {
    let counts = vec![1000, 10, 250, 0, 77];
    let next = Cell::new(0u64);
    let seq = run_combination(&counts, &|| Ok(AllValues::new()), &counting_sampler(&next), &targets(), Schedule::Sequential);
    let next2 = Cell::new(0u64);
    let rr = run_combination(&counts, &|| Ok(AllValues::new()), &counting_sampler(&next2), &targets(), Schedule::RoundRobin);
    let (first_merged, first_pcts) = measured(seq);
    let (second_merged, second_pcts) = measured(rr);
    assert_eq!(first_merged.len(), 1337);
    assert_eq!(second_merged.len(), 1337);
    assert_eq!(first_pcts, second_pcts);
    assert_eq!(first_pcts[0], 670.0);
}

#[test]
fn round_robin_shards_keep_their_order_and_indices() {
    let sampler = |i: usize| s(i as f64);
    let shards = run_shards_round_robin(&vec![2, 6, 4], &|| Ok(AllValues::new()), &sampler).unwrap();
    let lens: Vec<usize> = shards.iter().map(|a| a.len()).collect();
    assert_eq!(lens, vec![2, 6, 4]);
    let mut tops = Vec::new();
    for mut a in shards {
        tops.push(v(a.get_quantil(Quantile::new(1, 1))));
    }
    assert_eq!(tops, vec![1.0, 5.0, 3.0]);
}

#[test]
fn percentiles_twice_give_the_same_estimates() {
    let sampler = |i: usize| s(((i * 7) % 13) as f64);
    let r = run_combination(&vec![40, 25], &|| Ok(AllValues::new()), &sampler, &targets(), Schedule::RoundRobin);
    let (mut merged, first) = measured(r);
    let again: Vec<f64> = merged.get_percentiles(&targets()).iter().map(|p| v(p.estimate)).collect();
    assert_eq!(first, again);
}

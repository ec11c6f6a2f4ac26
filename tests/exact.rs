use quantile_bench::aggregate::{query_guard, Aggregate};
use quantile_bench::all_values::AllValues;
use quantile_bench::sample::{Quantile, QueryError, Sample};

fn s(x: f64) -> Sample {
    Sample::from_bits(x.to_bits())
}

fn v(r: Result<Sample, QueryError>) -> f64 {
    f64::from_bits(r.unwrap().to_bits())
}

fn filled(values: &[f64]) -> AllValues {
    let mut a = AllValues::new();
    for x in values {
        a.insert(s(*x));
    }
    a.finalize();
    a
}

#[test]
fn exact_thousand_pins_index_convention() {
    let values: Vec<f64> = (1..=1000).map(|i| i as f64).collect();
    let mut a = filled(&values);
    assert_eq!(v(a.get_quantil(Quantile::new(1, 2))), 501.0);
    assert_eq!(v(a.get_quantil(Quantile::new(99, 100))), 991.0);
    assert_eq!(v(a.get_quantil(Quantile::new(999, 1000))), 1000.0);
    assert_eq!(v(a.get_quantil(Quantile::new(0, 1))), 1.0);
    assert_eq!(v(a.get_quantil(Quantile::new(1, 1))), 1000.0);
}

#[test]
fn exact_out_of_range_and_empty() {
    let mut a = filled(&[3.0, 1.0]);
    assert_eq!(a.get_quantil(Quantile::new(3, 2)), Err(QueryError::OutOfRange));
    assert_eq!(a.get_quantil(Quantile::new(1, 0)), Err(QueryError::OutOfRange));
    let mut e = filled(&[]);
    assert_eq!(e.get_quantil(Quantile::new(1, 2)), Err(QueryError::Empty));
    assert_eq!(e.get_quantil(Quantile::new(2, 1)), Err(QueryError::OutOfRange));
}

#[test]
fn exact_boundaries_hold_min_and_max() {
    let values = [4.5, -3.25, 10.0, 0.0, -0.5, 7.0];
    let mut a = filled(&values);
    assert_eq!(v(a.get_quantil(Quantile::new(0, 5))), -3.25);
    assert_eq!(v(a.get_quantil(Quantile::new(5, 5))), 10.0);
}

#[test]
fn exact_orders_negative_values() {
    let mut a = filled(&[2.0, -1.0, -8.0, 0.5]);
    assert_eq!(v(a.get_quantil(Quantile::new(1, 4))), -1.0);
    assert_eq!(v(a.get_quantil(Quantile::new(1, 2))), 0.5);
}

#[test]
fn exact_finalize_twice_is_finalize_once() {
    let values = [9.0, 2.0, 7.0, 2.0, 5.0];
    let mut once = filled(&values);
    let mut twice = filled(&values);
    twice.finalize();
    for (n, d) in [(0u64, 1u64), (1, 3), (1, 2), (9, 10), (1, 1)] {
        let q = Quantile::new(n, d);
        assert_eq!(once.get_quantil(q), twice.get_quantil(q));
    }
}

#[test]
fn exact_merge_equals_concatenation() {
    let a = filled(&[5.0, 1.0, 9.0]);
    let b = filled(&[2.0, 8.0]);
    let c = filled(&[7.0, 3.0, 4.0, 6.0]);
    let mut merged = AllValues::merge(vec![a, b, c]).unwrap();
    let mut single = filled(&[1.0, 2.0, 3.0, 4.0, 5.0, 6.0, 7.0, 8.0, 9.0]);
    for (n, d) in [(0u64, 1u64), (1, 4), (1, 2), (3, 4), (99, 100), (1, 1)] {
        let q = Quantile::new(n, d);
        assert_eq!(merged.get_quantil(q), single.get_quantil(q));
    }
    assert_eq!(merged.len(), 9);
}

#[test]
fn exact_serialized_size_is_eight_bytes_per_sample() {
    let a = filled(&[1.0, 2.0, 3.0]);
    assert_eq!(a.serialize_size(), Some(24));
    assert_eq!(a.name(), "AllValues");
}

#[test]
fn exact_percentiles_follow_configured_order() {
    let values: Vec<f64> = (1..=100).map(|i| i as f64).collect();
    let mut a = AllValues::new();
    for x in &values {
        a.insert(s(*x));
    }
    let qs = vec![Quantile::new(1, 2), Quantile::new(9, 10), Quantile::new(2, 1)];
    let p = a.get_percentiles(&qs);
    assert_eq!(p.len(), 3);
    assert_eq!(p[0].quantile, Quantile::new(1, 2));
    assert_eq!(v(p[0].estimate), 51.0);
    assert_eq!(v(p[1].estimate), 91.0);
    assert_eq!(p[2].estimate, Err(QueryError::OutOfRange));
}

#[test]
fn sample_bits_round_trip_and_order() {
    for x in [0.0f64, -0.0, 1.5, -2.0, f64::MAX, f64::MIN, f64::INFINITY] {
        assert_eq!(Sample::from_bits(x.to_bits()).to_bits(), x.to_bits());
    }
    assert!(s(-1.0).key < s(-0.5).key);
    assert!(s(-0.5).key < s(0.0).key);
    assert!(s(0.0).key < s(1.0).key);
    assert!(s(1.0).key < s(1e300).key);
    assert_eq!(s(1.0).key, 1.0f64.to_bits() | (1u64 << 63));
}

#[test]
fn quantile_order_index_is_ceiling_clamped() {
    assert_eq!(Quantile::new(1, 2).order_index(1000), 500);
    assert_eq!(Quantile::new(1, 3).order_index(10), 4);
    assert_eq!(Quantile::new(1, 1).order_index(10), 9);
    assert_eq!(Quantile::new(0, 7).order_index(10), 0);
    assert!(Quantile::new(1, 1).valid());
    assert!(!Quantile::new(2, 1).valid());
    assert!(!Quantile::new(0, 0).valid());
}

#[test]
fn exact_merge_of_one_is_identity() {
    let mut alone = filled(&[3.0, 8.0, 1.0]);
    let mut merged = AllValues::merge(vec![filled(&[3.0, 8.0, 1.0])]).unwrap();
    for (n, d) in [(0u64, 1u64), (1, 2), (1, 1)] {
        let q = Quantile::new(n, d);
        assert_eq!(merged.get_quantil(q), alone.get_quantil(q));
    }
    assert_eq!(merged.len(), 3);
}

#[test]
fn query_guard_decides_errors() {
    assert_eq!(query_guard(Quantile::new(3, 2), 5), Err(QueryError::OutOfRange));
    assert_eq!(query_guard(Quantile::new(1, 0), 0), Err(QueryError::OutOfRange));
    assert_eq!(query_guard(Quantile::new(1, 2), 0), Err(QueryError::Empty));
    assert_eq!(query_guard(Quantile::new(1, 2), 5), Ok(()));
}

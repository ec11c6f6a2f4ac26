use quantile_bench::batch::SampleBatch;
use quantile_bench::sample::Sample;
use quantile_bench::source::Dataset;
use quantile_bench::text::{pretty_print_count, pretty_print_ser_size, separate_with_underscores};

#[test]
fn underscores_group_thousands() {
    assert_eq!(separate_with_underscores(0), "0");
    assert_eq!(separate_with_underscores(999), "999");
    assert_eq!(separate_with_underscores(1000), "1_000");
    assert_eq!(separate_with_underscores(1_234_567), "1_234_567");
    assert_eq!(separate_with_underscores(5_000_000), "5_000_000");
    assert_eq!(separate_with_underscores(1_000_001), "1_000_001");
}

#[test]
fn count_groups_are_shown() {
    assert_eq!(pretty_print_count(&[1000]), "[1_000]");
    assert_eq!(pretty_print_count(&[1000, 3_000_000, 1_000_000]), "[1_000, 3_000_000, 1_000_000]");
    assert_eq!(pretty_print_count(&vec![1000; 1000]), "[1000, 1000, ...x1000]");
    assert_eq!(pretty_print_count(&[5, 5, 5]), "[5, 5, 5]");
    assert_eq!(pretty_print_count(&[5, 5, 5, 6]), "[5, 5, 5, 6]");
    assert_eq!(pretty_print_count(&[]), "[]");
}

#[test]
fn serialized_sizes_are_shown() {
    assert_eq!(pretty_print_ser_size(0), "unavailable");
    assert_eq!(pretty_print_ser_size(1), "1");
    assert_eq!(pretty_print_ser_size(2000), "2000");
    assert_eq!(pretty_print_ser_size(2001), "1k");
    assert_eq!(pretty_print_ser_size(4096), "4k");
}

#[test]
fn dataset_wraps_around() {
    let vals = vec![Sample { key: 10 }, Sample { key: 20 }, Sample { key: 30 }];
    let d = Dataset::new(vals).unwrap();
    assert_eq!(d.len(), 3);
    assert_eq!(d.sample(0), Sample { key: 10 });
    assert_eq!(d.sample(4), Sample { key: 20 });
    assert_eq!(d.sample(8), Sample { key: 30 });
    assert!(Dataset::new(vec![]).is_none());
}

#[test]
fn batch_hands_out_sorted_when_full() {
    let mut b = SampleBatch::new(3);
    assert_eq!(b.push(5), None);
    assert_eq!(b.push(1), None);
    assert_eq!(b.push(3), None);
    assert_eq!(b.push(2), Some(vec![1, 3, 5]));
    assert_eq!(b.push(9), None);
    assert_eq!(b.drain_sorted(), vec![2, 9]);
    assert_eq!(b.drain_sorted(), Vec::<u64>::new());
}

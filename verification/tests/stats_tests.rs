use cross_encode_rs::stats::{sort_ascending, Stats};

#[test]
fn stats_of_a_small_sample() {
    let s = Stats::from_values(vec![50, 10, 40, 20, 30]);
    assert_eq!(s.count, 5);
    assert_eq!(s.min, 10);
    // ranks: p50 = round(4 * 0.5) = 2, p90 = round(3.6) = 4, p99 = round(3.96) = 4
    assert_eq!(s.p50, 30);
    assert_eq!(s.p90, 50);
    assert_eq!(s.p99, 50);
    assert_eq!(s.max, 50);
}

#[test]
fn stats_round_halves_up() {
    // n = 2: p50 rank = round(0.5) = 1
    let s = Stats::from_values(vec![7, 3]);
    assert_eq!((s.min, s.p50, s.p90, s.p99, s.max), (3, 7, 7, 7, 7));
    // n = 11: p90 rank = round(9.0) = 9, p99 rank = round(9.9) = 10
    let s = Stats::from_values((0..11).rev().collect());
    assert_eq!((s.p50, s.p90, s.p99), (5, 9, 10));
    // n = 51: p99 rank = round(49.5) = 50
    let s = Stats::from_values((100..151).collect());
    assert_eq!(s.p99, 150);
    assert_eq!(s.p50, 125);
}

#[test]
fn stats_of_one_value() {
    let s = Stats::from_values(vec![42]);
    assert_eq!((s.count, s.min, s.p50, s.p90, s.p99, s.max), (1, 42, 42, 42, 42, 42));
}

#[test]
fn sort_ascending_keeps_duplicates() {
    assert_eq!(sort_ascending(&vec![3, 1, 2, 1, 3]), vec![1, 1, 2, 3, 3]);
    assert_eq!(sort_ascending(&vec![]), Vec::<u64>::new());
}

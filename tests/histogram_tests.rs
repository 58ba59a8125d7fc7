use tiles_analyzer::histogram::{
    build_histogram, lin_histogram, log_histogram, partition_below, HistogramBucket,
    HistogramConfig,
};

fn spans(buckets: &[HistogramBucket]) -> Vec<(usize, usize, usize)> {
    buckets
        .iter()
        .map(|b| (b.count(), b.range().start, b.range().end))
        .collect()
}

#[test]
fn empty_counts_give_no_buckets() {
    let empty: Vec<usize> = vec![];
    assert!(lin_histogram(&empty, 5).is_empty());
    assert!(log_histogram(&empty, &vec![1, 2, 4]).is_empty());
    assert!(build_histogram(&empty, HistogramConfig::Linear(3), &vec![]).is_empty());
    assert!(build_histogram(&empty, HistogramConfig::Logarithmic(3), &vec![1, 2, 3, 4]).is_empty());
}

#[test]
fn zero_buckets_give_no_buckets() {
    assert!(lin_histogram(&vec![1, 2, 3], 0).is_empty());
}

#[test]
fn linear_buckets_round_boundaries() {
    let counts = vec![1, 2, 3, 10];
    let r = lin_histogram(&counts, 3);
    assert_eq!(spans(&r), vec![(3, 0, 4), (0, 4, 7), (1, 7, 11)]);
}

#[test]
fn linear_boundary_halves_round_up() {
    let counts = vec![0, 2, 3, 4];
    let r = lin_histogram(&counts, 2);
    assert_eq!(spans(&r), vec![(2, 0, 3), (2, 3, 5)]);
}

#[test]
fn linear_buckets_are_contiguous_and_cover_all_counts() {
    let counts = vec![0, 0, 5, 17, 17, 99, 250, 1000, 1001];
    for n in 1..20 {
        let r = lin_histogram(&counts, n);
        assert_eq!(r.len(), n);
        for i in 0..n - 1 {
            assert_eq!(r[i].range().end, r[i + 1].range().start);
        }
        assert_eq!(r[0].range().start, 0);
        assert_eq!(r[n - 1].range().end, 1002);
        assert_eq!(r.iter().map(|b| b.count()).sum::<usize>(), counts.len());
    }
}

#[test]
fn equal_counts_fill_one_bucket() {
    let counts = vec![7, 7, 7];
    let r = lin_histogram(&counts, 4);
    assert_eq!(spans(&r), vec![(0, 0, 2), (0, 2, 4), (0, 4, 6), (3, 6, 8)]);
}

#[test]
fn log_buckets_follow_given_boundaries() {
    let counts = vec![1, 2, 4, 8];
    let r = log_histogram(&counts, &vec![1, 3, 9]);
    assert_eq!(spans(&r), vec![(2, 1, 3), (2, 3, 9)]);
    let total: usize = r.iter().map(|b| b.count()).sum();
    assert_eq!(total, counts.len());
}

#[test]
fn build_histogram_dispatches_on_config() {
    let counts = vec![10, 20];
    let lin = build_histogram(&counts, HistogramConfig::Linear(1), &vec![]);
    assert_eq!(spans(&lin), vec![(2, 0, 21)]);
    let log = build_histogram(&counts, HistogramConfig::Logarithmic(2), &vec![1, 5, 21]);
    assert_eq!(spans(&log), vec![(0, 1, 5), (2, 5, 21)]);
}

#[test]
fn partition_point_of_sorted_counts() {
    let counts = vec![1, 3, 3, 5];
    assert_eq!(partition_below(&counts, 0), 0);
    assert_eq!(partition_below(&counts, 3), 1);
    assert_eq!(partition_below(&counts, 4), 3);
    assert_eq!(partition_below(&counts, 9), 4);
}

#[test]
fn bucket_accessors() {
    let b = HistogramBucket::new(1024, 50..100);
    assert_eq!(b.count(), 1024);
    assert_eq!(*b.range(), 50..100);
}

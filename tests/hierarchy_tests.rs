use tiles_analyzer::analyzer::{collect_results, AnalyzerError, AnalyzerResult};
use tiles_analyzer::hierarchy::{
    is_valid_record, node_point_counts, read_u32_le, sorted_counts, summarize_hierarchy,
    NODE_RECORD_SIZE,
};
use tiles_analyzer::histogram::lin_histogram;

fn record(tag: u8, flag: u8, points: u32) -> Vec<u8> {
    let mut r = vec![0u8; NODE_RECORD_SIZE];
    r[0] = tag;
    r[1] = flag;
    r[2..6].copy_from_slice(&points.to_le_bytes());
    r
}

#[test]
fn validity_rule() {
    assert!(is_valid_record(2, 0));
    assert!(!is_valid_record(2, 5));
    assert!(is_valid_record(0, 0));
    assert!(is_valid_record(0, 7));
    assert!(is_valid_record(1, 255));
}

#[test]
fn reads_little_endian_u32() {
    let bytes = vec![9, 0x78, 0x56, 0x34, 0x12];
    assert_eq!(read_u32_le(&bytes, 1), 0x1234_5678);
}

#[test]
fn two_valid_records() {
    let mut bytes = record(0, 0, 10);
    bytes.extend(record(0, 0, 20));
    assert_eq!(bytes.len(), 44);
    let summary = summarize_hierarchy(&bytes).unwrap();
    assert_eq!(summary.node_count, 2);
    assert_eq!(summary.point_counts, vec![10, 20]);
    let h = lin_histogram(&summary.point_counts, 1);
    assert_eq!(h.len(), 1);
    assert_eq!(h[0].count(), 2);
    assert_eq!(*h[0].range(), 0..21);
    let results = collect_results(true, summary.node_count, Some(h));
    assert_eq!(results.len(), 2);
    assert!(matches!(results[0], AnalyzerResult::NodeCount(2)));
    assert!(matches!(&results[1], AnalyzerResult::Histogram(b) if b.len() == 1));
}

#[test]
fn size_not_multiple_of_record() {
    let bytes = vec![0u8; 23];
    let e = summarize_hierarchy(&bytes).err().unwrap();
    assert_eq!(e, AnalyzerError::HierarchySize { record_size: 22 });
}

#[test]
fn empty_hierarchy_has_no_nodes() {
    let summary = summarize_hierarchy(&vec![]).unwrap();
    assert_eq!(summary.node_count, 0);
    assert!(summary.point_counts.is_empty());
}

#[test]
fn placeholders_are_excluded_and_counts_sorted() {
    let mut bytes = record(0, 0, 300);
    bytes.extend(record(2, 1, 999));
    bytes.extend(record(2, 0, 7));
    bytes.extend(record(1, 3, 70_000));
    assert_eq!(node_point_counts(&bytes), vec![300, 7, 70_000]);
    let summary = summarize_hierarchy(&bytes).unwrap();
    assert_eq!(summary.node_count, 3);
    assert_eq!(summary.point_counts, vec![7, 300, 70_000]);
}

#[test]
fn sorting_orders_counts() {
    assert_eq!(sorted_counts(vec![3, 1, 2, 1]), vec![1, 1, 2, 3]);
}

#[test]
fn results_come_in_order() {
    let none = collect_results(false, 5, None);
    assert!(none.is_empty());
    let only_count = collect_results(true, 5, None);
    assert_eq!(only_count.len(), 1);
    assert!(matches!(only_count[0], AnalyzerResult::NodeCount(5)));
    let only_hist = collect_results(false, 5, Some(vec![]));
    assert_eq!(only_hist.len(), 1);
    assert!(matches!(&only_hist[0], AnalyzerResult::Histogram(b) if b.is_empty()));
}

use range_lint::range::{ComparisonResult, ValueRange};

fn r(start: usize, end: usize) -> ValueRange {
    ValueRange::new(start, end)
}

#[test]
fn test_range_comparison() {
    assert_eq!(r(0, 5).compare(&r(7, 10)), ComparisonResult::AlwaysSmaller);
    assert_eq!(r(0, 8).compare(&r(7, 10)), ComparisonResult::Overlapping);
    assert_eq!(r(0, 60).compare(&r(7, 10)), ComparisonResult::Overlapping);
    assert_eq!(r(41, 60).compare(&r(1, 3)), ComparisonResult::AlwaysLarger);
    assert_eq!(r(5, 5).compare(&r(5, 5)), ComparisonResult::AlwaysEqual);
}

#[test]
fn compare_is_swap_consistent() {
    let pairs = [
        (r(0, 5), r(7, 10)),
        (r(0, 8), r(7, 10)),
        (r(41, 60), r(1, 3)),
        (r(5, 5), r(5, 5)),
        (r(5, 5), r(5, 10)),
        (r(10, 0), r(3, 4)),
        (r(3, 3), r(9, 9)),
    ];
    for (a, b) in pairs.iter() {
        let expected = match a.compare(b) {
            ComparisonResult::AlwaysLarger => ComparisonResult::AlwaysSmaller,
            ComparisonResult::AlwaysSmaller => ComparisonResult::AlwaysLarger,
            other => other,
        };
        assert_eq!(b.compare(a), expected);
    }
}

#[test]
fn single_point_equals_itself() {
    assert_eq!(r(0, 0).compare(&r(0, 0)), ComparisonResult::AlwaysEqual);
    assert_eq!(r(42, 42).compare(&r(42, 42)), ComparisonResult::AlwaysEqual);
    assert_eq!(r(usize::MAX, usize::MAX).compare(&r(usize::MAX, usize::MAX)), ComparisonResult::AlwaysEqual);
}

#[test]
fn distinct_single_points_are_ordered() {
    assert_eq!(r(3, 3).compare(&r(9, 9)), ComparisonResult::AlwaysSmaller);
    assert_eq!(r(9, 9).compare(&r(3, 3)), ComparisonResult::AlwaysLarger);
}

#[test]
fn disjoint_below_is_smaller() {
    assert_eq!(r(0, 5).compare(&r(5, 10)), ComparisonResult::AlwaysSmaller);
    assert_eq!(r(4, 4).compare(&r(5, 10)), ComparisonResult::AlwaysSmaller);
    assert_eq!(r(0, 5).compare(&r(5, 5)), ComparisonResult::AlwaysSmaller);
}

#[test]
fn shared_values_overlap() {
    assert_eq!(r(0, 8).compare(&r(7, 10)), ComparisonResult::Overlapping);
    assert_eq!(r(6, 6).compare(&r(5, 10)), ComparisonResult::Overlapping);
    assert_eq!(r(0, usize::MAX).compare(&r(0, usize::MAX)), ComparisonResult::Overlapping);
}

#[test]
fn identical_wide_ranges_overlap() {
    assert_eq!(r(2, 9).compare(&r(2, 9)), ComparisonResult::Overlapping);
}

#[test]
fn reversed_bounds_are_normalised() {
    assert_eq!(r(10, 0).compare(&r(20, 15)), ComparisonResult::AlwaysSmaller);
    assert_eq!(r(60, 41).compare(&r(3, 1)), ComparisonResult::AlwaysLarger);
    assert_eq!(r(8, 0).compare(&r(10, 7)), ComparisonResult::Overlapping);
}

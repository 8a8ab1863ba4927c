use abs_rand_module::stats::{get_num_classes, sort_u64, BenchmarkResult, Run};
use std::cmp::Ordering;

fn sample() -> BenchmarkResult {
    let mut r = BenchmarkResult::new();
    r.push(Run::new(300, 5));
    r.push(Run::new(100, 1));
    r.push(Run::new(250, 3));
    r.push(Run::new(120, 1));
    r
}

#[test]
fn run_points_and_order() {
    let a = Run::new(40, 2);
    let b = Run::new(10, 7);
    assert_eq!(a.to_point(), (2, 40));
    assert_eq!(a.cmp_num(&b), Ordering::Less);
    assert_eq!(b.cmp_num(&a), Ordering::Greater);
    assert_eq!(a.cmp_num(&Run::new(1, 2)), Ordering::Equal);
}

#[test]
fn extremes() {
    let r = sample();
    assert_eq!(r.size(), 4);
    assert_eq!(r.max_time(), Some(300));
    assert_eq!(r.min_time(), Some(100));
    assert_eq!(r.max_num(), Some(5));
    let e = BenchmarkResult::new();
    assert_eq!(e.max_time(), None);
    assert_eq!(e.min_time(), None);
    assert_eq!(e.max_num(), None);
    assert_eq!(e.median2(), None);
}

#[test]
fn sorting_is_stable_by_classes() {
    let mut r = sample();
    let pts = r.to_points();
    assert_eq!(pts, vec![(1, 100), (1, 120), (3, 250), (5, 300)]);
    assert!(r.is_sorted);
    let first = r.take(2);
    assert_eq!(first.runs, vec![Run::new(100, 1), Run::new(120, 1)]);
    let all = r.take(10);
    assert_eq!(all.size(), 4);
}

#[test]
fn totals_and_medians() {
    let r = sample();
    assert_eq!(r.total_time(), 770);
    assert_eq!(r.times(), vec![300, 100, 250, 120]);
    // sorted times 100, 120, 250, 300: the median is (120 + 250) / 2
    assert_eq!(r.median2(), Some(370));
    let mut odd = BenchmarkResult::new();
    odd.push(Run::new(9, 1));
    odd.push(Run::new(1, 2));
    odd.push(Run::new(5, 3));
    assert_eq!(odd.median2(), Some(10));
    assert_eq!(sort_u64(&vec![3, 1, 2, 1]), vec![1, 1, 2, 3]);
}

#[test]
fn format_lines() {
    let r = sample();
    assert_eq!(r.format(), "5 300\n1 100\n3 250\n1 120");
    assert_eq!(BenchmarkResult::new().format(), "");
}

#[test]
fn class_count_from_file_stem() {
    let chars = |s: &str| s.chars().collect::<Vec<char>>();
    assert_eq!(get_num_classes(&chars("generated-12")), Some(12));
    assert_eq!(get_num_classes(&chars("mod-0")), Some(0));
    assert_eq!(get_num_classes(&chars("loc-3-cb")), Some(3));
    assert_eq!(get_num_classes(&chars("nothing")), None);
    assert_eq!(get_num_classes(&chars("x99999999999")), None);
}

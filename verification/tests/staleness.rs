use purgit::age::age_days;
use purgit::branch::{BranchKind, BranchRecord};
use purgit::select::filter_stale;
use purgit::sort::sort_by_age_desc;

fn record(name: &str, kind: BranchKind, age_days: u64) -> BranchRecord {
    BranchRecord { name: String::from(name), kind, age_days }
}

#[test]
fn age_is_floor_of_day_quotient() {
    let now: u64 = 1_000_000_000;
    assert_eq!(age_days(now, now), 0);
    assert_eq!(age_days(now, now - 86_399), 0);
    assert_eq!(age_days(now, now - 86_400), 1);
    assert_eq!(age_days(now, now - 2 * 86_400 - 1), 2);
    assert_eq!(age_days(now, now - 45 * 86_400), 45);
}

#[test]
fn age_of_future_commit_is_clamped_to_zero() {
    let now: u64 = 1_000_000_000;
    assert_eq!(age_days(now, now + 1), 0);
    assert_eq!(age_days(0, u64::MAX), 0);
}

#[test]
fn age_grows_with_now() {
    let commit: u64 = 500_000_000;
    let mut previous: u64 = 0;
    for step in 0..10u64 {
        let age = age_days(commit + step * 40_000, commit);
        assert!(age >= previous);
        previous = age;
    }
}

#[test]
fn sort_is_descending_by_age() {
    let records = vec![
        record("a", BranchKind::Local, 3),
        record("b", BranchKind::Remote, 45),
        record("c", BranchKind::Local, 0),
        record("d", BranchKind::Local, 12),
    ];
    let sorted = sort_by_age_desc(records);
    let ages: Vec<u64> = sorted.iter().map(|r| r.age_days).collect();
    assert_eq!(ages, vec![45, 12, 3, 0]);
}

#[test]
fn sort_twice_changes_nothing() {
    let records = vec![
        record("a", BranchKind::Local, 3),
        record("b", BranchKind::Remote, 45),
        record("c", BranchKind::Local, 3),
        record("d", BranchKind::Local, 12),
    ];
    let once = sort_by_age_desc(records);
    let copy: Vec<BranchRecord> = once
        .iter()
        .map(|r| record(r.name.as_str(), r.kind, r.age_days))
        .collect();
    let twice = sort_by_age_desc(copy);
    assert_eq!(once, twice);
}

#[test]
fn sort_keeps_scan_order_among_ties() {
    let records = vec![
        record("first", BranchKind::Local, 7),
        record("second", BranchKind::Remote, 7),
        record("third", BranchKind::Local, 7),
        record("older", BranchKind::Local, 9),
    ];
    let sorted = sort_by_age_desc(records);
    let names: Vec<&str> = sorted.iter().map(|r| r.name.as_str()).collect();
    assert_eq!(names, vec!["older", "first", "second", "third"]);
}

#[test]
fn stale_filter_is_strict() {
    let records = vec![
        record("at_threshold", BranchKind::Local, 30),
        record("over", BranchKind::Local, 31),
        record("under", BranchKind::Local, 29),
        record("way_over", BranchKind::Remote, 100),
    ];
    let stale = filter_stale(records, 30);
    let names: Vec<&str> = stale.iter().map(|r| r.name.as_str()).collect();
    assert_eq!(names, vec!["over", "way_over"]);
}

#[test]
fn stale_filter_of_empty_is_empty() {
    let stale = filter_stale(Vec::new(), 30);
    assert!(stale.is_empty());
}

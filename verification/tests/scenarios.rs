use purgit::branch::{BranchKind, BranchRecord, ScannedBranch};
use purgit::pathname::repo_name_from_path;
use purgit::report::{clean_report, list_report, stale_branches};
use purgit::scan::scan_records;

const DAY: u64 = 86_400;

fn scanned(name: &str, kind: BranchKind, tip_seconds: Option<u64>) -> ScannedBranch {
    ScannedBranch { name: String::from(name), kind, tip_seconds }
}

fn two_branch_repo(now: u64) -> Vec<ScannedBranch> {
    vec![
        scanned("main", BranchKind::Local, Some(now - 2 * DAY - 30)),
        scanned("feature/x", BranchKind::Remote, Some(now - 45 * DAY - 30)),
    ]
}

#[test]
fn list_mode_sorts_oldest_first() {
    let now: u64 = 1_700_000_000;
    let records = scan_records(two_branch_repo(now), now);
    let lines = list_report(records);
    assert_eq!(lines.len(), 4);
    assert_eq!(lines[0], "Branch      Age (days)");
    assert_eq!(lines[1], "----------  ----------");
    assert_eq!(lines[2], "feature/x           45");
    assert_eq!(lines[3], "main                 2");
}

#[test]
fn clean_mode_selects_only_feature_x() {
    let now: u64 = 1_700_000_000;
    let records = scan_records(two_branch_repo(now), now);
    let stale = stale_branches(records, 30);
    assert_eq!(stale.len(), 1);
    assert_eq!(stale[0].name, "feature/x");
    assert_eq!(stale[0].age_days, 45);
    let lines = clean_report(&stale);
    assert_eq!(lines[0], "Found 1 stale branches.");
    assert_eq!(lines[1], "* feature/x     45d");
}

#[test]
fn unresolvable_tip_is_excluded_everywhere() {
    let now: u64 = 1_700_000_000;
    let mut branches = two_branch_repo(now);
    branches.push(scanned("broken", BranchKind::Local, None));
    let records = scan_records(branches, now);
    assert_eq!(records.len(), 2);
    assert!(records.iter().all(|r| r.name != "broken"));
    let lines = list_report(records);
    assert_eq!(lines.len(), 4);
    assert!(lines.iter().all(|l| !l.contains("broken")));
}

#[test]
fn scan_uses_one_shared_now() {
    let now: u64 = 1_700_000_000;
    let branches = vec![
        scanned("a", BranchKind::Local, Some(now - DAY)),
        scanned("b", BranchKind::Local, Some(now - DAY)),
    ];
    let records: Vec<BranchRecord> = scan_records(branches, now);
    assert_eq!(records[0].age_days, records[1].age_days);
}

#[test]
fn scan_clamps_future_commits() {
    let now: u64 = 1_700_000_000;
    let branches = vec![scanned("clock-skew", BranchKind::Local, Some(now + 500))];
    let records = scan_records(branches, now);
    assert_eq!(records[0].age_days, 0);
}

#[test]
fn repo_name_comes_from_parent_of_metadata_dir() {
    assert_eq!(repo_name_from_path("/home/user/myrepo/.git"), "myrepo");
    assert_eq!(repo_name_from_path("relative/.git"), "relative");
    assert_eq!(repo_name_from_path("/.git"), "Unknown");
    assert_eq!(repo_name_from_path("noslash"), "Unknown");
    assert_eq!(repo_name_from_path(""), "Unknown");
}

use purgit::branch::{BranchKind, BranchRecord};
use purgit::report::{clean_report, max_name_len, render_clean_line, render_table_row, summary_line};
use purgit::text::{pad_left, pad_right, u64_to_string};

fn record(name: &str, kind: BranchKind, age_days: u64) -> BranchRecord {
    BranchRecord { name: String::from(name), kind, age_days }
}

#[test]
fn decimal_rendering_is_exact() {
    assert_eq!(u64_to_string(0), "0");
    assert_eq!(u64_to_string(7), "7");
    assert_eq!(u64_to_string(10), "10");
    assert_eq!(u64_to_string(42), "42");
    assert_eq!(u64_to_string(1_234_567_890), "1234567890");
    assert_eq!(u64_to_string(u64::MAX), "18446744073709551615");
}

#[test]
fn padding_is_exact() {
    assert_eq!(pad_right("abc", 6), "abc   ");
    assert_eq!(pad_left("abc", 6), "   abc");
    assert_eq!(pad_right("abcdef", 6), "abcdef");
    assert_eq!(pad_left("abcdefgh", 6), "abcdefgh");
    assert_eq!(pad_right("", 3), "   ");
}

#[test]
fn name_column_width_has_floor_ten() {
    let short = vec![record("main", BranchKind::Local, 1)];
    assert_eq!(max_name_len(&short), 10);
    assert_eq!(max_name_len(&Vec::new()), 10);
    let long = vec![
        record("main", BranchKind::Local, 1),
        record("feature/very-long-name", BranchKind::Remote, 2),
    ];
    assert_eq!(max_name_len(&long), "feature/very-long-name".len());
}

#[test]
fn every_name_field_has_the_computed_width() {
    let records = vec![
        record("main", BranchKind::Local, 1),
        record("feature/very-long-name", BranchKind::Remote, 2),
        record("dev", BranchKind::Local, 3),
    ];
    let w = max_name_len(&records);
    for r in &records {
        let line = render_table_row(r.name.as_str(), r.age_days, w);
        assert_eq!(line, format!("{:<w$}  {:>10}", r.name, r.age_days));
        let field = &line[..w];
        assert_eq!(field.len(), w);
        assert!(field.trim_end() == r.name);
    }
}

#[test]
fn table_row_is_exact() {
    assert_eq!(render_table_row("feature/x", 45, 10), "feature/x           45");
    assert_eq!(render_table_row("main", 2, 10), "main                 2");
}

#[test]
fn clean_line_is_exact() {
    assert_eq!(render_clean_line("feature/x", 45, 10), "* feature/x     45d");
    assert_eq!(
        render_clean_line("feature/x", 45, 12),
        format!("* {:<12}    {}d", "feature/x", 45)
    );
}

#[test]
fn summary_line_counts() {
    assert_eq!(summary_line(0), "Found 0 stale branches.");
    assert_eq!(summary_line(1), "Found 1 stale branches.");
    assert_eq!(summary_line(12), "Found 12 stale branches.");
}

#[test]
fn clean_report_of_no_stale_branches() {
    let lines = clean_report(&Vec::new());
    assert_eq!(lines, vec![String::from("Found 0 stale branches.")]);
}

use manbo::logs::{
    files_dated_before, files_to_remove, filter_directive, is_before, log_date, oldest_kept,
    should_remove, LogLevel,
};

#[test]
fn prune_keeps_recent_files_and_unrelated_names() {
    let names: Vec<String> = [
        "manbo.log.2026-09-04",
        "manbo.log.2026-08-29",
        "manbo.log.2026-08-28",
        "manbo.log.bogus",
        "notes.txt",
    ]
    .iter()
    .map(|s| s.to_string())
    .collect();
    let removed = files_to_remove(&names, (2026, 9, 4));
    assert_eq!(removed, ["manbo.log.2026-08-28"]);
}

#[test]
fn dates_come_from_log_file_names() {
    assert_eq!(log_date("manbo.log.2026-09-04"), Some((2026, 9, 4)));
    assert_eq!(log_date("manbo.log.bogus"), None);
    assert_eq!(log_date("manbo.log2026-09-04"), None);
    assert_eq!(log_date("notes.txt"), None);
    assert_eq!(oldest_kept((2026, 9, 4)), Some((2026, 8, 29)));
    assert_eq!(oldest_kept((2026, 3, 2)), Some((2026, 2, 24)));
    assert!(should_remove("manbo.log.2025-12-31", (2026, 1, 1)));
    assert!(!should_remove("manbo.log.2026-01-01", (2026, 1, 1)));
}

#[test]
fn debug_keeps_network_libraries_at_info() {
    assert_eq!(filter_directive(LogLevel::Info), "info");
    assert!(filter_directive(LogLevel::Debug).starts_with("debug,hyper=info"));
}

#[test]
fn dates_compare_by_year_then_month_then_day() {
    assert!(is_before((2025, 12, 31), (2026, 1, 1)));
    assert!(is_before((2026, 1, 31), (2026, 2, 1)));
    assert!(is_before((2026, 2, 1), (2026, 2, 2)));
    assert!(!is_before((2026, 2, 2), (2026, 2, 2)));
    assert!(!is_before((2027, 1, 1), (2026, 12, 31)));
    let names: Vec<String> = ["manbo.log.2026-01-01", "x", "manbo.log.2025-06-30"].iter().map(|s| s.to_string()).collect();
    assert_eq!(files_dated_before(&names, (2026, 1, 1)), ["manbo.log.2025-06-30"]);
}

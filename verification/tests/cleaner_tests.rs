use mc::{
    collect_outcomes, schedule, CleanError, CleanItem, ItemType, ParallelCleaner, PatternCategory,
    PatternMatch, PatternSource, Statistics,
};

fn item(path: &str, size: u64, item_type: ItemType) -> CleanItem {
    CleanItem {
        path: path.to_string(),
        size,
        item_type,
        pattern: PatternMatch {
            pattern: "test".to_string(),
            priority: 0,
            source: PatternSource::BuiltIn,
            category: PatternCategory::Other,
        },
    }
}

#[test]
fn dry_run_totals_match_the_items() {
    let items = vec![
        item("/p/node_modules", 1000, ItemType::Directory),
        item("/p/app.log", 200, ItemType::File),
        item("/p/link", 8, ItemType::Symlink),
    ];
    let cleaner = ParallelCleaner::new(4).with_dry_run(true);
    let report = cleaner.dry_run_clean(&items);

    assert!(report.dry_run);
    assert_eq!(report.items_deleted, 3);
    assert_eq!(report.bytes_freed, 1208);
    assert_eq!(report.dirs_deleted, 1);
    assert_eq!(report.files_deleted, 2);
    assert!(report.errors.is_empty());
    assert!(report.scan_errors.is_empty());

    // The items are untouched: a dry run computes and mutates nothing.
    assert_eq!(items.len(), 3);
    assert_eq!(items[0].size, 1000);
}

#[test]
fn failure_isolation_in_collected_outcomes() {
    let n = 5;
    let mut outcomes = Vec::new();
    for i in 0..n {
        let it = item(&format!("/p/file{}", i), 10, ItemType::File);
        if i == 2 {
            let path = it.path.clone();
            outcomes.push((it, Some(CleanError::PermissionDenied { path })));
        } else {
            outcomes.push((it, None));
        }
    }
    let stats = collect_outcomes(outcomes);

    assert_eq!(stats.items_deleted, n - 1);
    assert_eq!(stats.bytes_freed, 40);
    assert_eq!(stats.errors.len(), 1);
    assert!(matches!(&stats.errors[0], CleanError::PermissionDenied { path } if path == "/p/file2"));
}

#[test]
fn schedule_orders_largest_first() {
    let items = vec![
        item("/p/small", 10, ItemType::File),
        item("/p/huge", 10_000, ItemType::Directory),
        item("/p/mid", 500, ItemType::Directory),
        item("/p/tiny", 1, ItemType::File),
    ];
    let ordered = schedule(items);
    let sizes: Vec<u64> = ordered.iter().map(|i| i.size).collect();
    assert_eq!(sizes, vec![10_000, 500, 10, 1]);
}

#[test]
fn schedule_is_stable_for_equal_sizes() {
    let items = vec![
        item("/p/a", 5, ItemType::File),
        item("/p/b", 5, ItemType::File),
        item("/p/c", 9, ItemType::File),
    ];
    let ordered = schedule(items);
    assert_eq!(ordered[0].path, "/p/c");
    assert_eq!(ordered[1].path, "/p/a");
    assert_eq!(ordered[2].path, "/p/b");
}

#[test]
fn statistics_record_and_merge() {
    let mut a = Statistics::new();
    a.record_success(&item("/p/x", 100, ItemType::File));
    a.record_success(&item("/p/y", 50, ItemType::Directory));

    let mut b = Statistics::new();
    b.record_failure(
        &item("/p/z", 7, ItemType::File),
        CleanError::IoError { path: "/p/z".to_string(), message: "busy".to_string() },
    );
    b.record_success(&item("/p/w", 8, ItemType::File));

    a.merge(b);
    assert_eq!(a.items_deleted, 3);
    assert_eq!(a.bytes_freed, 158);
    assert_eq!(a.errors.len(), 1);
}

#[test]
fn report_assembly_carries_statistics() {
    let mut stats = Statistics::new();
    stats.record_success(&item("/p/a", 30, ItemType::Directory));
    stats.record_failure(
        &item("/p/b", 5, ItemType::File),
        CleanError::PermissionDenied { path: "/p/b".to_string() },
    );

    let cleaner = ParallelCleaner::new(8);
    assert_eq!(cleaner.thread_count, 8);
    assert!(!cleaner.dry_run);

    let report = cleaner.report_from_stats(stats, 1, 0);
    assert_eq!(report.items_deleted, 1);
    assert_eq!(report.bytes_freed, 30);
    assert_eq!(report.errors.len(), 1);
    assert_eq!(report.dirs_deleted, 1);
    assert_eq!(report.files_deleted, 0);
    assert!(!report.dry_run);
}

#[test]
fn error_messages_render_path_and_cause() {
    let e = CleanError::PermissionDenied { path: "/p/a".to_string() };
    assert_eq!(e.message(), "Permission denied: /p/a");
    let e = CleanError::IoError { path: "/p/b".to_string(), message: "busy".to_string() };
    assert_eq!(e.message(), "IO error at /p/b: busy");
    let e = CleanError::PatternError("bad".to_string());
    assert_eq!(e.message(), "Pattern error: bad");

    let s = mc::ScanError::SymlinkCycle { path: "/p/c".to_string() };
    assert_eq!(s.message(), "Symbolic link cycle detected at /p/c");
    let s = mc::ScanError::IoError { path: "/p/d".to_string(), message: "gone".to_string() };
    assert_eq!(s.message(), "IO error at /p/d: gone");
}

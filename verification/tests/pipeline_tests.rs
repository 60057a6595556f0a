use mc::{
    collect_outcomes, prune_nested_items, CategoryTracker, Cleaner, Config, EntryMeta, ItemType,
    ParallelCleaner, PatternCategory, PatternConfig, PatternMatcher, Scanner, WalkEntry, WalkEvent,
};

fn entry(path: &str, kind: ItemType, size: u64) -> WalkEvent {
    WalkEvent::Entry(WalkEntry {
        path: path.to_string(),
        kind,
        meta: EntryMeta::Available { size, target_is_file: false },
    })
}

#[test]
fn end_to_end_scan_prune_clean() {
    let config = PatternConfig {
        directories: vec!["node_modules".to_string(), "dist".to_string()],
        files: vec!["*.log".to_string()],
        exclude: vec![],
    };
    let matcher = PatternMatcher::new(&config).unwrap();
    let scanner = Scanner::new("/r".to_string(), matcher);

    let events = vec![
        entry("/r", ItemType::Directory, 0),
        entry("/r/node_modules", ItemType::Directory, 0),
        entry("/r/node_modules/pkg", ItemType::Directory, 0),
        entry("/r/node_modules/pkg/dist", ItemType::Directory, 0),
        entry("/r/dist", ItemType::Directory, 0),
        entry("/r/dist/bundle.bin", ItemType::File, 200),
        entry("/r/app.log", ItemType::File, 10),
    ];
    let (items, errors, entries_scanned) = scanner.scan_events(events);

    // Four raw candidates: both directory matches, the nested empty
    // directory, and the log file.
    assert!(errors.is_empty());
    assert_eq!(entries_scanned, 7);
    assert_eq!(items.len(), 4);
    assert!(items.iter().any(|i| i.path == "/r/node_modules/pkg/dist"));

    // Pruning drops the nested match.
    let pruned = prune_nested_items(items);
    assert_eq!(pruned.len(), 3);
    assert!(pruned.iter().any(|i| i.path == "/r/node_modules"));
    assert!(pruned.iter().any(|i| i.path == "/r/dist"));
    assert!(pruned.iter().any(|i| i.path == "/r/app.log"));
    assert!(!pruned.iter().any(|i| i.path == "/r/node_modules/pkg/dist"));

    // A live batch in which every deletion succeeds.
    let scheduled = mc::schedule(pruned);
    let outcomes: Vec<_> = scheduled.into_iter().map(|i| (i, None)).collect();
    let stats = collect_outcomes(outcomes);
    assert_eq!(stats.items_deleted, 3);
    assert_eq!(stats.bytes_freed, 210);
    assert!(stats.errors.is_empty());

    let report = ParallelCleaner::new(2).report_from_stats(stats, 2, 1);
    assert_eq!(report.items_deleted, 3);
    assert_eq!(report.bytes_freed, 210);
}

#[test]
fn category_tracker_tallies_final_candidates() {
    let mut tracker = CategoryTracker::new();
    tracker.add_item(PatternCategory::Dependencies, 1000);
    tracker.add_item(PatternCategory::Dependencies, 500);
    tracker.add_item(PatternCategory::Logs, 10);

    assert_eq!(tracker.get_count(PatternCategory::Dependencies), 2);
    assert_eq!(tracker.get_size(PatternCategory::Dependencies), 1500);
    assert_eq!(tracker.get_count(PatternCategory::Logs), 1);
    assert_eq!(tracker.get_count(PatternCategory::Cache), 0);
    assert_eq!(tracker.total_count(), 3);
    assert_eq!(tracker.total_size(), 1510);
}

#[test]
fn cleaner_builders_set_modes() {
    let cleaner = Cleaner::new(Config::default())
        .with_dry_run(true)
        .with_quiet(false)
        .with_verbose(true);
    assert!(cleaner.dry_run);
    assert!(!cleaner.quiet);
    assert!(cleaner.verbose);
    assert_eq!(cleaner.config.safety.max_depth, 10);
}

#[test]
fn safety_guard_decisions() {
    let guard = mc::SafetyGuard::new(true, 10, 1_000_000_000);
    assert!(guard.has_sufficient_space(2_000_000_000));
    assert!(!guard.has_sufficient_space(999_999_999));
    assert!(guard.refuses_git_repo(true));
    assert!(!guard.refuses_git_repo(false));

    let lax = mc::SafetyGuard::new(false, 10, 0);
    assert!(!lax.refuses_git_repo(true));
    assert!(lax.has_sufficient_space(0));
}

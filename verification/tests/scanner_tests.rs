use mc::{
    CleanItem, EntryMeta, ItemType, PatternConfig, PatternMatcher, ScanAccumulator, Scanner,
    ScanError, WalkEntry, WalkEvent,
};

fn matcher(directories: Vec<&str>, files: Vec<&str>, exclude: Vec<&str>) -> PatternMatcher {
    let config = PatternConfig {
        directories: directories.into_iter().map(String::from).collect(),
        files: files.into_iter().map(String::from).collect(),
        exclude: exclude.into_iter().map(String::from).collect(),
    };
    PatternMatcher::new(&config).unwrap()
}

fn entry(path: &str, kind: ItemType, size: u64) -> WalkEvent {
    WalkEvent::Entry(WalkEntry {
        path: path.to_string(),
        kind,
        meta: EntryMeta::Available { size, target_is_file: false },
    })
}

fn sorted_paths(items: &[CleanItem]) -> Vec<String> {
    let mut v: Vec<String> = items.iter().map(|i| i.path.clone()).collect();
    v.sort();
    v
}

#[test]
fn scan_events_finds_matching_entries() {
    let m = matcher(vec!["node_modules", "target"], vec!["*.log"], vec![]);
    let scanner = Scanner::new("/r".to_string(), m);
    let events = vec![
        entry("/r", ItemType::Directory, 0),
        entry("/r/node_modules", ItemType::Directory, 0),
        entry("/r/node_modules/package", ItemType::Directory, 0),
        entry("/r/node_modules/package/index.js", ItemType::File, 7),
        entry("/r/target", ItemType::Directory, 0),
        entry("/r/target/debug", ItemType::Directory, 0),
        entry("/r/app.log", ItemType::File, 3),
        entry("/r/src", ItemType::Directory, 0),
        entry("/r/src/main.c", ItemType::File, 11),
    ];
    let n_events = events.len();
    let (items, errors, entries_scanned) = scanner.scan_events(events);

    assert_eq!(items.len(), 3);
    assert!(errors.is_empty());
    assert_eq!(entries_scanned, n_events);
    assert!(items.iter().any(|i| i.path.ends_with("node_modules")));
    assert!(items.iter().any(|i| i.path.ends_with("target")));
    assert!(items.iter().any(|i| i.path.ends_with("app.log")));
    // The root itself is never a candidate, even though "r" could match
    // nothing here; matching entries under it are.
    assert!(!items.iter().any(|i| i.path == "/r"));
}

#[test]
fn directory_sizes_aggregate_descendant_files() {
    let m = matcher(vec!["a"], vec![], vec![]);
    let scanner = Scanner::new("/root".to_string(), m);
    let events = vec![
        entry("/root", ItemType::Directory, 0),
        entry("/root/a", ItemType::Directory, 0),
        entry("/root/a/x.txt", ItemType::File, 100),
        entry("/root/a/b", ItemType::Directory, 0),
        entry("/root/a/b/y.txt", ItemType::File, 50),
    ];
    let (items, errors, _) = scanner.scan_events(events);

    assert!(errors.is_empty());
    assert_eq!(items.len(), 1);
    assert_eq!(items[0].path, "/root/a");
    assert_eq!(items[0].size, 150);
}

#[test]
fn directory_size_counts_unmatched_files_and_own_size() {
    let m = matcher(vec!["build"], vec![], vec![]);
    let scanner = Scanner::new("/r".to_string(), m);
    let events = vec![
        entry("/r/build", ItemType::Directory, 4096),
        entry("/r/build/obj.o", ItemType::File, 300),
        entry("/r/elsewhere.txt", ItemType::File, 999),
    ];
    let (items, _, _) = scanner.scan_events(events);
    assert_eq!(items.len(), 1);
    // Own recorded directory size plus every file beneath it; the
    // unrelated file contributes nothing.
    assert_eq!(items[0].size, 4396);
}

#[test]
fn partition_independence() {
    let m = matcher(vec!["node_modules"], vec!["*.log"], vec![]);
    let events = vec![
        entry("/r/node_modules", ItemType::Directory, 0),
        entry("/r/node_modules/f.bin", ItemType::File, 40),
        entry("/r/a.log", ItemType::File, 1),
        WalkEvent::Failure {
            path: "/r/locked".to_string(),
            message: "permission denied".to_string(),
            cycle: false,
        },
        entry("/r/b.log", ItemType::File, 2),
        entry("/r/src", ItemType::Directory, 0),
    ];

    // One worker consumes the whole stream.
    let mut whole = ScanAccumulator::new();
    for ev in events.clone() {
        whole.accumulate(&m, "/r", ev);
    }

    // Two workers split it and merge, in both merge orders.
    for split in 0..events.len() + 1 {
        let mut left = ScanAccumulator::new();
        for ev in events[..split].to_vec() {
            left.accumulate(&m, "/r", ev);
        }
        let mut right = ScanAccumulator::new();
        for ev in events[split..].to_vec() {
            right.accumulate(&m, "/r", ev);
        }
        let mut l2 = ScanAccumulator::new();
        for ev in events[..split].to_vec() {
            l2.accumulate(&m, "/r", ev);
        }
        let mut r2 = ScanAccumulator::new();
        for ev in events[split..].to_vec() {
            r2.accumulate(&m, "/r", ev);
        }

        left.merge(right);
        r2.merge(l2);

        assert_eq!(sorted_paths(&left.items), sorted_paths(&whole.items));
        assert_eq!(sorted_paths(&r2.items), sorted_paths(&whole.items));
        assert_eq!(left.errors.len(), whole.errors.len());
        assert_eq!(r2.errors.len(), whole.errors.len());
        assert_eq!(left.entries_seen, whole.entries_seen);
        assert_eq!(r2.entries_seen, whole.entries_seen);
        assert_eq!(left.file_sizes.len(), whole.file_sizes.len());
        assert_eq!(left.dir_bases.len(), whole.dir_bases.len());
    }
}

#[test]
fn excluded_names_never_become_candidates() {
    let m = matcher(vec!["target", "node_modules"], vec!["*.log"], vec!["target", "keep.log"]);
    let scanner = Scanner::new("/r".to_string(), m);
    let events = vec![
        entry("/r/target", ItemType::Directory, 0),
        entry("/r/node_modules", ItemType::Directory, 0),
        entry("/r/keep.log", ItemType::File, 5),
        entry("/r/drop.log", ItemType::File, 6),
    ];
    let (items, _, _) = scanner.scan_events(events);
    let paths = sorted_paths(&items);
    assert_eq!(paths, vec!["/r/drop.log".to_string(), "/r/node_modules".to_string()]);
}

#[test]
fn metadata_failure_excludes_file_but_reports_error() {
    let m = matcher(vec![], vec!["*.log"], vec![]);
    let scanner = Scanner::new("/r".to_string(), m);
    let events = vec![
        WalkEvent::Entry(WalkEntry {
            path: "/r/broken.log".to_string(),
            kind: ItemType::File,
            meta: EntryMeta::Failed { message: "permission denied".to_string() },
        }),
        entry("/r/fine.log", ItemType::File, 8),
    ];
    let (items, errors, _) = scanner.scan_events(events);
    assert_eq!(items.len(), 1);
    assert_eq!(items[0].path, "/r/fine.log");
    assert_eq!(errors.len(), 1);
    assert!(matches!(&errors[0], ScanError::IoError { path, .. } if path == "/r/broken.log"));
}

#[test]
fn cycle_failures_are_reported_as_such() {
    let m = matcher(vec![], vec![], vec![]);
    let scanner = Scanner::new("/r".to_string(), m);
    let events = vec![WalkEvent::Failure {
        path: "/r/a/b/cycle".to_string(),
        message: "loop".to_string(),
        cycle: true,
    }];
    let (items, errors, _) = scanner.scan_events(events);
    assert!(items.is_empty());
    assert_eq!(errors.len(), 1);
    assert!(matches!(&errors[0], ScanError::SymlinkCycle { path } if path == "/r/a/b/cycle"));
}

#[test]
fn symlink_entries_match_either_list() {
    let m = matcher(vec!["linked_dir"], vec!["*.log"], vec![]);
    let scanner = Scanner::new("/r".to_string(), m);
    let events = vec![
        WalkEvent::Entry(WalkEntry {
            path: "/r/linked_dir".to_string(),
            kind: ItemType::Symlink,
            meta: EntryMeta::Available { size: 1, target_is_file: false },
        }),
        WalkEvent::Entry(WalkEntry {
            path: "/r/linked.log".to_string(),
            kind: ItemType::Symlink,
            meta: EntryMeta::Available { size: 2, target_is_file: true },
        }),
    ];
    let (items, _, _) = scanner.scan_events(events);
    assert_eq!(items.len(), 2);
    assert!(items.iter().all(|i| i.item_type == ItemType::Symlink));
}

#[test]
fn scanner_builders_set_options() {
    let m = matcher(vec![], vec![], vec![]);
    let s = Scanner::new("/top".to_string(), m).with_max_depth(3).with_symlinks(true);
    assert_eq!(s.root, "/top");
    assert_eq!(s.max_depth, 3);
    assert!(s.follow_symlinks);
}

use mc::{is_ancestor, prune_nested_items, CleanItem, ItemType, PatternCategory, PatternMatch,
    PatternSource};

fn make_item(path: &str, size: u64) -> CleanItem {
    CleanItem {
        path: path.to_string(),
        size,
        item_type: ItemType::Directory,
        pattern: PatternMatch {
            pattern: "test".to_string(),
            priority: 0,
            source: PatternSource::BuiltIn,
            category: PatternCategory::Other,
        },
    }
}

#[test]
fn test_prune_nested_items() {
    let items = vec![
        make_item("/project/node_modules/pkg1/dist", 50_000_000),
        make_item("/project/node_modules", 5_000_000_000),
        make_item("/project/node_modules/pkg2/build", 30_000_000),
        make_item("/project/dist", 200_000_000),
        make_item("/project/dist/subdir", 100_000_000),
    ];

    let pruned = prune_nested_items(items);

    assert_eq!(pruned.len(), 2);
    assert!(pruned.iter().any(|i| i.path == "/project/node_modules"));
    assert!(pruned.iter().any(|i| i.path == "/project/dist"));

    assert!(!pruned.iter().any(|i| i.path == "/project/node_modules/pkg1/dist"));
    assert!(!pruned.iter().any(|i| i.path == "/project/dist/subdir"));
}

#[test]
fn test_prune_preserves_non_nested() {
    let items = vec![
        make_item("/project/node_modules", 1000),
        make_item("/project/dist", 2000),
        make_item("/other/target", 3000),
    ];

    let pruned = prune_nested_items(items);

    assert_eq!(pruned.len(), 3);
}

#[test]
fn test_prune_empty_list() {
    let items: Vec<CleanItem> = vec![];
    let pruned = prune_nested_items(items);
    assert_eq!(pruned.len(), 0);
}

#[test]
fn test_is_ancestor() {
    assert!(is_ancestor("/a/b", "/a/b/c"));
    assert!(is_ancestor("/a", "/a/b/c/d"));
    assert!(!is_ancestor("/a/b", "/a/b"));
    assert!(!is_ancestor("/a/b", "/a/c"));
    assert!(!is_ancestor("/x", "/y"));
}

#[test]
fn prune_is_idempotent() {
    let items = vec![
        make_item("/p/node_modules/a", 10),
        make_item("/p/node_modules", 100),
        make_item("/p/dist", 20),
        make_item("/q", 5),
        make_item("/q/deep/nested", 1),
    ];
    let once = prune_nested_items(items);
    let twice = prune_nested_items(once.clone());
    assert_eq!(once, twice);
}

#[test]
fn prune_output_is_ancestor_free() {
    let items = vec![
        make_item("/p/a", 1),
        make_item("/p/a/b", 2),
        make_item("/p/a/b/c", 3),
        make_item("/p/x", 4),
        make_item("/p/x/y", 5),
        make_item("/other", 6),
    ];
    let pruned = prune_nested_items(items);
    for i in &pruned {
        for j in &pruned {
            if i.path != j.path {
                assert!(!is_ancestor(&i.path, &j.path));
            }
        }
    }
    assert_eq!(pruned.len(), 3);
}

#[test]
fn prune_sorts_shallow_first() {
    let items = vec![
        make_item("/b/deep/path", 1),
        make_item("/a", 2),
        make_item("/c/mid", 3),
    ];
    let pruned = prune_nested_items(items);
    assert_eq!(pruned.len(), 3);
    assert_eq!(pruned[0].path, "/a");
    assert_eq!(pruned[1].path, "/c/mid");
    assert_eq!(pruned[2].path, "/b/deep/path");
}

#[test]
fn prune_keeps_equal_paths() {
    let items = vec![make_item("/p/dup", 1), make_item("/p/dup", 2)];
    let pruned = prune_nested_items(items);
    assert_eq!(pruned.len(), 2);
}

use mc::{CleanError, PatternCategory, PatternConfig, PatternMatcher, PatternSource, TypeHint};

fn create_matcher(directories: Vec<&str>, files: Vec<&str>, exclude: Vec<&str>) -> PatternMatcher {
    let config = PatternConfig {
        directories: directories.into_iter().map(String::from).collect(),
        files: files.into_iter().map(String::from).collect(),
        exclude: exclude.into_iter().map(String::from).collect(),
    };
    PatternMatcher::new(&config).unwrap()
}

#[test]
fn test_exclusion_precedence() {
    let matcher = create_matcher(vec!["target"], vec![], vec!["target"]);
    let path = "target";

    assert!(matcher.matches(path).is_none());
}

#[test]
fn test_directory_and_file_matching() {
    let matcher = create_matcher(vec!["node_modules"], vec!["*.log"], vec![]);
    let dir_path = "node_modules";
    let file_path = "app.log";
    let non_match_path = "src";

    assert!(matcher.matches(dir_path).is_some());
    assert!(matcher.matches(file_path).is_some());
    assert!(matcher.matches(non_match_path).is_none());
}

#[test]
fn glob_matching_is_selective() {
    let matcher = create_matcher(vec![], vec!["*.log"], vec![]);
    assert!(matcher.matches("app.log").is_some());
    assert!(matcher.matches("deep/path/app.log").is_some());
    assert!(matcher.matches("app.txt").is_none());
    assert!(matcher.matches("applog").is_none());
}

#[test]
fn invalid_pattern_is_rejected_at_construction() {
    let config = PatternConfig {
        directories: vec!["[invalid".to_string()],
        files: vec![],
        exclude: vec![],
    };
    let result = PatternMatcher::new(&config);
    assert!(matches!(result, Err(CleanError::PatternError(_))));

    let good = PatternConfig {
        directories: vec!["node_modules".to_string()],
        files: vec!["*.log".to_string()],
        exclude: vec![".git".to_string()],
    };
    assert!(PatternMatcher::new(&good).is_ok());
}

#[test]
fn match_reports_pattern_priority_and_category() {
    let matcher = create_matcher(vec!["vendor", "node_modules"], vec![], vec![]);
    let m = matcher.matches("node_modules").unwrap();
    assert_eq!(m.pattern, "node_modules");
    assert_eq!(m.priority, 1);
    assert_eq!(m.source, PatternSource::Config);
    assert_eq!(m.category, PatternCategory::Dependencies);

    let first = matcher.matches("vendor").unwrap();
    assert_eq!(first.priority, 0);
}

#[test]
fn type_hint_restricts_lists() {
    let matcher = create_matcher(vec!["stuff"], vec!["stuff"], vec![]);

    // A file never matches the directory list; a directory never the file list.
    let as_file = matcher.matches_with_type("stuff", Some(TypeHint::File)).unwrap();
    assert_eq!(as_file.priority, 0);
    let as_dir = matcher.matches_with_type("stuff", Some(TypeHint::Dir)).unwrap();
    assert_eq!(as_dir.priority, 0);

    // A symlink and an unknown type are tried against both lists, the
    // directory list first.
    let only_file_rules = create_matcher(vec![], vec!["*.log"], vec![]);
    assert!(only_file_rules.matches_with_type("x.log", Some(TypeHint::Symlink)).is_some());
    assert!(only_file_rules.matches_with_type("x.log", Some(TypeHint::Unknown)).is_some());
    assert!(only_file_rules.matches_with_type("x.log", Some(TypeHint::Dir)).is_none());
}

#[test]
fn directory_rules_win_ties() {
    let matcher = create_matcher(vec!["both"], vec!["both"], vec![]);
    let m = matcher.matches("both").unwrap();
    // Matched via the directory list, not the file list.
    assert_eq!(m.priority, 0);
    assert_eq!(m.pattern, "both");
}

#[test]
fn matching_uses_base_name_only() {
    let matcher = create_matcher(vec!["node_modules"], vec![], vec![]);
    assert!(matcher.matches("/home/user/project/node_modules").is_some());
    assert!(matcher.matches("/home/node_modules/inner").is_none());
}

#[test]
fn added_patterns_extend_the_matcher() {
    let mut matcher = create_matcher(vec!["node_modules"], vec![], vec![]);
    assert!(matcher.matches("build").is_none());
    assert!(matcher.matches("x.tmp").is_none());

    matcher
        .add_match_patterns(&vec!["build".to_string(), "*.tmp".to_string()])
        .unwrap();
    assert!(matcher.matches("build").is_some());
    assert!(matcher.matches("x.tmp").is_some());

    matcher.add_exclude_patterns(&vec!["build".to_string()]).unwrap();
    assert!(matcher.matches("build").is_none());

    let bad = matcher.add_match_patterns(&vec!["[oops".to_string()]);
    assert!(bad.is_err());
}

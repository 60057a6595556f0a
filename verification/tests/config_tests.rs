use mc::{Config, PatternCategory};

#[test]
fn test_merge_cli_args_preserve_env() {
    let mut config = Config::default();
    let initial_exclude_len = config.patterns.exclude.len();

    config.merge_cli_args(vec![], vec![], true);

    assert_eq!(config.patterns.exclude.len(), initial_exclude_len + 2);
    assert!(config.patterns.exclude.contains(&".env".to_string()));
    assert!(config.patterns.exclude.contains(&".env.example".to_string()));
}

#[test]
fn test_merge_cli_args_patterns_and_exclude() {
    let mut config = Config::default();
    let initial_exclude_len = config.patterns.exclude.len();
    let initial_files_len = config.patterns.files.len();
    let initial_dirs_len = config.patterns.directories.len();

    let excludes = vec!["custom_exclude".to_string()];
    let additions = vec!["custom_addition.file".to_string(), "custom_dir".to_string()];

    config.merge_cli_args(excludes.clone(), additions.clone(), false);

    assert_eq!(config.patterns.exclude.len(), initial_exclude_len + excludes.len());
    assert!(config.patterns.exclude.contains(&excludes[0]));

    assert_eq!(config.patterns.files.len(), initial_files_len + 1);
    assert!(config.patterns.files.contains(&additions[0]));

    assert_eq!(config.patterns.directories.len(), initial_dirs_len + 1);
    assert!(config.patterns.directories.contains(&additions[1]));
}

#[test]
fn merge_cli_args_skips_duplicates() {
    let mut config = Config::default();
    let initial_dirs_len = config.patterns.directories.len();
    let initial_exclude_len = config.patterns.exclude.len();

    // "node_modules" is already a built-in directory pattern.
    config.merge_cli_args(vec![".git".to_string()], vec!["node_modules".to_string()], false);

    assert_eq!(config.patterns.directories.len(), initial_dirs_len);
    assert_eq!(config.patterns.exclude.len(), initial_exclude_len);
}

#[test]
fn merge_cli_args_preserve_env_twice_adds_once() {
    let mut config = Config::default();
    config.merge_cli_args(vec![], vec![], true);
    let after_first = config.patterns.exclude.len();
    config.merge_cli_args(vec![], vec![], true);
    assert_eq!(config.patterns.exclude.len(), after_first);
}

#[test]
fn default_config_holds_builtin_patterns() {
    let config = Config::default();
    assert!(config.patterns.directories.contains(&"node_modules".to_string()));
    assert!(config.patterns.directories.contains(&"target".to_string()));
    assert!(config.patterns.files.contains(&"*.log".to_string()));
    assert!(config.patterns.exclude.contains(&".git".to_string()));
    assert_eq!(config.safety.max_depth, 10);
    assert!(config.options.preserve_symlinks);
}

#[test]
fn builtin_categories_are_looked_up() {
    assert_eq!(mc::get_category("node_modules"), PatternCategory::Dependencies);
    assert_eq!(mc::get_category("target"), PatternCategory::BuildOutputs);
    assert_eq!(mc::get_category(".pytest_cache"), PatternCategory::Cache);
    assert_eq!(mc::get_category(".idea"), PatternCategory::IDE);
    assert_eq!(mc::get_category("*.log"), PatternCategory::Logs);
    assert_eq!(mc::get_category("anything_else"), PatternCategory::Other);
}

#[test]
fn category_labels() {
    assert_eq!(PatternCategory::Dependencies.label(), "Dependencies");
    assert_eq!(PatternCategory::BuildOutputs.label(), "Build");
    assert_eq!(PatternCategory::Cache.label(), "Cache");
    assert_eq!(PatternCategory::IDE.label(), "IDE");
    assert_eq!(PatternCategory::Logs.label(), "Logs");
    assert_eq!(PatternCategory::Other.label(), "Other");
}

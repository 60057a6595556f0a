//! The patterns the crate ships with, and the category each known
//! pattern text belongs to.

use vstd::prelude::*;

use crate::paths::str_eq;
use crate::types::PatternCategory;

verus! {

/// The category a pattern text belongs to; `Other` when the text is not
/// one of the known built-ins.
pub open spec fn category_of(p: Seq<char>) -> PatternCategory {
    if p == "node_modules"@ || p == "vendor"@ || p == ".venv"@ {
        PatternCategory::Dependencies
    } else if p == "dist"@ || p == "build"@ || p == "target"@ || p == ".next"@ || p == "out"@ {
        PatternCategory::BuildOutputs
    } else if p == ".turbo"@ || p == ".pytest_cache"@ || p == "__pycache__"@ || p == "coverage"@ {
        PatternCategory::Cache
    } else if p == ".idea"@ || p == ".vscode"@ {
        PatternCategory::IDE
    } else if p == "*.log"@ {
        PatternCategory::Logs
    } else {
        PatternCategory::Other
    }
}

/// Looks up the category of a pattern text.
pub fn get_category(pattern: &str) -> (c: PatternCategory)
    ensures
        c == category_of(pattern@),
{
    if str_eq(pattern, "node_modules") || str_eq(pattern, "vendor") || str_eq(pattern, ".venv") {
        PatternCategory::Dependencies
    } else if str_eq(pattern, "dist") || str_eq(pattern, "build") || str_eq(pattern, "target")
        || str_eq(pattern, ".next") || str_eq(pattern, "out") {
        PatternCategory::BuildOutputs
    } else if str_eq(pattern, ".turbo") || str_eq(pattern, ".pytest_cache") || str_eq(
        pattern,
        "__pycache__",
    ) || str_eq(pattern, "coverage") {
        PatternCategory::Cache
    } else if str_eq(pattern, ".idea") || str_eq(pattern, ".vscode") {
        PatternCategory::IDE
    } else if str_eq(pattern, "*.log") {
        PatternCategory::Logs
    } else {
        PatternCategory::Other
    }
}

/// The built-in directory pattern texts, in precedence order.
pub open spec fn builtin_directory_texts() -> Seq<Seq<char>> {
    seq![
        "node_modules"@,
        "vendor"@,
        ".venv"@,
        "dist"@,
        "build"@,
        "target"@,
        ".next"@,
        "out"@,
        ".turbo"@,
        ".pytest_cache"@,
        "__pycache__"@,
        "coverage"@,
        ".idea"@,
        ".vscode"@,
    ]
}

/// The built-in file pattern texts, in precedence order.
pub open spec fn builtin_file_texts() -> Seq<Seq<char>> {
    seq!["*.log"@, "*.tmp"@, ".DS_Store"@, "Thumbs.db"@]
}

/// The built-in exclusion pattern texts.
pub open spec fn builtin_exclude_texts() -> Seq<Seq<char>> {
    seq![".git"@, ".svn"@, ".hg"@]
}

/// The three pattern lists a matcher is built from: directory patterns,
/// file patterns, and exclusions that dominate both.
#[derive(Debug, Clone)]
pub struct PatternSet {
    /// Glob patterns matched against directory names.
    pub directories: Vec<String>,
    /// Glob patterns matched against file names.
    pub files: Vec<String>,
    /// Glob patterns whose match excludes an entry outright.
    pub exclude: Vec<String>,
}

/// The pattern set the crate ships with.
pub fn builtin_patterns() -> (r: PatternSet)
    ensures
        r.directories.deep_view() == builtin_directory_texts(),
        r.files.deep_view() == builtin_file_texts(),
        r.exclude.deep_view() == builtin_exclude_texts(),
{
    let mut directories: Vec<String> = Vec::new();
    directories.push(String::from_str("node_modules"));
    directories.push(String::from_str("vendor"));
    directories.push(String::from_str(".venv"));
    directories.push(String::from_str("dist"));
    directories.push(String::from_str("build"));
    directories.push(String::from_str("target"));
    directories.push(String::from_str(".next"));
    directories.push(String::from_str("out"));
    directories.push(String::from_str(".turbo"));
    directories.push(String::from_str(".pytest_cache"));
    directories.push(String::from_str("__pycache__"));
    directories.push(String::from_str("coverage"));
    directories.push(String::from_str(".idea"));
    directories.push(String::from_str(".vscode"));
    let mut files: Vec<String> = Vec::new();
    files.push(String::from_str("*.log"));
    files.push(String::from_str("*.tmp"));
    files.push(String::from_str(".DS_Store"));
    files.push(String::from_str("Thumbs.db"));
    let mut exclude: Vec<String> = Vec::new();
    exclude.push(String::from_str(".git"));
    exclude.push(String::from_str(".svn"));
    exclude.push(String::from_str(".hg"));
    proof {
        assert(directories.deep_view() =~= builtin_directory_texts());
        assert(files.deep_view() =~= builtin_file_texts());
        assert(exclude.deep_view() =~= builtin_exclude_texts());
    }
    PatternSet { directories, files, exclude }
}

} // verus!

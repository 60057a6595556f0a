//! Core data types of the cleaning pipeline: the items selected for
//! deletion, the pattern-match descriptor attached to each, the two
//! non-fatal failure channels (scanning and cleaning), and the terminal
//! report of an invocation.

use vstd::prelude::*;

verus! {

/// The kind of file-system entry an item refers to.
#[derive(Debug, Clone, Copy, PartialEq, Eq, Structural)]
pub enum ItemType {
    /// A directory.
    Directory,
    /// A regular file.
    File,
    /// A symbolic link.
    Symlink,
}

/// The origin of a cleaning pattern.
#[derive(Debug, Clone, Copy, PartialEq, Eq, Structural)]
pub enum PatternSource {
    /// A pattern shipped with the crate.
    BuiltIn,
    /// A pattern from a configuration file.
    Config,
    /// A pattern given on the command line.
    CLI,
}

/// A fixed set of labels used to group matched items for reporting.
#[derive(Debug, Clone, Copy, PartialEq, Eq, Hash, Structural)]
pub enum PatternCategory {
    /// Dependency trees such as `node_modules` or `vendor`.
    Dependencies,
    /// Build outputs such as `dist`, `build` or `target`.
    BuildOutputs,
    /// Tool caches such as `.pytest_cache` or `coverage`.
    Cache,
    /// Editor and IDE metadata such as `.idea` or `.vscode`.
    IDE,
    /// Log files.
    Logs,
    /// Anything else.
    Other,
}

/// The text shown for each category.
pub open spec fn label_of(c: PatternCategory) -> Seq<char> {
    match c {
        PatternCategory::Dependencies => "Dependencies"@,
        PatternCategory::BuildOutputs => "Build"@,
        PatternCategory::Cache => "Cache"@,
        PatternCategory::IDE => "IDE"@,
        PatternCategory::Logs => "Logs"@,
        PatternCategory::Other => "Other"@,
    }
}

impl PatternCategory {
    /// A human-readable label for the category.
    pub fn label(&self) -> (r: &'static str)
        ensures
            r@ == label_of(*self),
    {
        match self {
            PatternCategory::Dependencies => "Dependencies",
            PatternCategory::BuildOutputs => "Build",
            PatternCategory::Cache => "Cache",
            PatternCategory::IDE => "IDE",
            PatternCategory::Logs => "Logs",
            PatternCategory::Other => "Other",
        }
    }
}

/// Details of the pattern that selected an item.
#[derive(Debug, Clone, PartialEq)]
pub struct PatternMatch {
    /// The glob pattern text that matched.
    pub pattern: String,
    /// Position of the pattern in its list; lower is higher precedence.
    pub priority: usize,
    /// Where the pattern came from.
    pub source: PatternSource,
    /// The category the pattern belongs to.
    pub category: PatternCategory,
}

/// One file-system entry selected for deletion.
#[derive(Debug, Clone, PartialEq)]
pub struct CleanItem {
    /// The absolute path of the entry.
    pub path: String,
    /// Size in bytes: the file size for files and symlinks, the
    /// aggregated recursive size for directories.
    pub size: u64,
    /// What kind of entry the path names.
    pub item_type: ItemType,
    /// The pattern match that selected the entry.
    pub pattern: PatternMatch,
}

/// A failure while deleting one item; it never aborts the batch.
#[derive(Debug, Clone, PartialEq)]
pub enum CleanError {
    /// The item could not be accessed.
    PermissionDenied { path: String },
    /// Any other I/O failure during deletion.
    IoError { path: String, message: String },
    /// A glob pattern could not be compiled.
    PatternError(String),
}

/// The path a clean failure refers to, or the offending pattern text.
pub open spec fn clean_error_path(e: CleanError) -> Seq<char> {
    match e {
        CleanError::PermissionDenied { path } => path@,
        CleanError::IoError { path, message } => path@,
        CleanError::PatternError(p) => p@,
    }
}

impl CleanError {
    /// A human-readable description of the failure.
    pub fn message(&self) -> (r: String)
        ensures
            r@ == match *self {
                CleanError::PermissionDenied { path } => "Permission denied: "@ + path@,
                CleanError::IoError { path, message } => "IO error at "@ + path@ + ": "@
                    + message@,
                CleanError::PatternError(p) => "Pattern error: "@ + p@,
            },
    {
        match self {
            CleanError::PermissionDenied { path } => {
                let mut s = String::from_str("Permission denied: ");
                s.append(path.as_str());
                s
            },
            CleanError::IoError { path, message } => {
                let mut s = String::from_str("IO error at ");
                s.append(path.as_str());
                s.append(": ");
                s.append(message.as_str());
                s
            },
            CleanError::PatternError(p) => {
                let mut s = String::from_str("Pattern error: ");
                s.append(p.as_str());
                s
            },
        }
    }
}

/// A failure met while scanning; it never aborts the walk.
#[derive(Debug, Clone, PartialEq)]
pub enum ScanError {
    /// An I/O failure at a path.
    IoError { path: String, message: String },
    /// A symbolic link closing a loop back to one of its ancestors.
    SymlinkCycle { path: String },
}

impl ScanError {
    /// A human-readable description of the failure.
    pub fn message(&self) -> (r: String)
        ensures
            r@ == match *self {
                ScanError::IoError { path, message } => "IO error at "@ + path@ + ": "@ + message@,
                ScanError::SymlinkCycle { path } => "Symbolic link cycle detected at "@ + path@,
            },
    {
        match self {
            ScanError::IoError { path, message } => {
                let mut s = String::from_str("IO error at ");
                s.append(path.as_str());
                s.append(": ");
                s.append(message.as_str());
                s
            },
            ScanError::SymlinkCycle { path } => {
                let mut s = String::from_str("Symbolic link cycle detected at ");
                s.append(path.as_str());
                s
            },
        }
    }
}

/// The terminal summary of one cleaning invocation.
#[derive(Debug, Clone, PartialEq)]
pub struct CleanReport {
    /// Number of items deleted (or counted, in a dry run).
    pub items_deleted: usize,
    /// Bytes freed (or counted, in a dry run).
    pub bytes_freed: u64,
    /// Failures met while deleting.
    pub errors: Vec<CleanError>,
    /// Failures met while scanning.
    pub scan_errors: Vec<ScanError>,
    /// Elapsed wall-clock time of the whole operation, in milliseconds.
    pub duration_ms: u64,
    /// Elapsed wall-clock time of the scan phase, in milliseconds.
    pub scan_duration_ms: u64,
    /// Whether the invocation was a dry run.
    pub dry_run: bool,
    /// Number of directories among the deleted items.
    pub dirs_deleted: usize,
    /// Number of files and symlinks among the deleted items.
    pub files_deleted: usize,
    /// Raw count of entries visited during the scan.
    pub entries_scanned: usize,
}

impl Default for CleanReport {
    /// An empty report: nothing deleted, nothing failed, not a dry run.
    fn default() -> (r: Self)
        ensures
            r.items_deleted == 0,
            r.bytes_freed == 0,
            r.errors@ == Seq::<CleanError>::empty(),
            r.scan_errors@ == Seq::<ScanError>::empty(),
            r.duration_ms == 0,
            r.scan_duration_ms == 0,
            !r.dry_run,
            r.dirs_deleted == 0,
            r.files_deleted == 0,
            r.entries_scanned == 0,
    {
        CleanReport {
            items_deleted: 0,
            bytes_freed: 0,
            errors: Vec::new(),
            scan_errors: Vec::new(),
            duration_ms: 0,
            scan_duration_ms: 0,
            dry_run: false,
            dirs_deleted: 0,
            files_deleted: 0,
            entries_scanned: 0,
        }
    }
}

} // verus!

//! A build-artifact cleaner: scans a directory tree for entries matching
//! configurable glob rules, collapses nested matches into their shallowest
//! ancestor, and reports what a (possibly dry-run) deletion pass removes.
//!
//! The crate holds the deterministic core of that pipeline: pattern
//! compilation and matching, the per-entry scan fold with its merge and
//! size-aggregation steps, nested-item pruning, and the bookkeeping that
//! turns per-item deletion outcomes into a final report. Walking the real
//! file system and deleting files are left to the embedding application,
//! which feeds plain values in and out of these functions.

pub mod arith;
pub mod paths;
pub mod builtin;
pub mod cleaner;
pub mod config;
pub mod engine;
pub mod matcher;
pub mod safety;
pub mod scanner;
pub mod tracker;
pub mod types;

pub use builtin::{builtin_patterns, get_category, PatternSet};
pub use cleaner::{collect_outcomes, schedule, ParallelCleaner, Statistics};
pub use config::{Config, OptionsConfig, PatternConfig, SafetyConfig};
pub use engine::prune_nested_items;
pub use matcher::{PatternMatcher, TypeHint};
pub use paths::is_ancestor;
pub use safety::SafetyGuard;
pub use scanner::{EntryMeta, ScanAccumulator, Scanner, WalkEntry, WalkEvent};
pub use tracker::CategoryTracker;
pub use types::{
    CleanError, CleanItem, CleanReport, ItemType, PatternCategory, PatternMatch, PatternSource,
    ScanError,
};

use vstd::prelude::*;

verus! {

/// The assembled configuration of one cleaning run: what to clean and
/// under which modes. The embedding application drives the run itself
/// — walking, confirming and deleting — through the scanner, pruning
/// and cleaner functions of this crate.
#[derive(Debug, Clone)]
pub struct Cleaner {
    /// The run's configuration.
    pub config: Config,
    /// When set, nothing is removed.
    pub dry_run: bool,
    /// Suppresses progress output in the embedding application.
    pub quiet: bool,
    /// Requests more detailed output from the embedding application.
    pub verbose: bool,
}

impl Cleaner {
    /// A cleaner over the given configuration, in live, non-quiet mode.
    pub fn new(config: Config) -> (r: Self)
        ensures
            r.config == config,
            !r.dry_run,
            !r.quiet,
            !r.verbose,
    {
        Cleaner { config, dry_run: false, quiet: false, verbose: false }
    }

    /// Sets dry-run mode.
    pub fn with_dry_run(self, dry_run: bool) -> (r: Self)
        ensures
            r.config == self.config,
            r.dry_run == dry_run,
            r.quiet == self.quiet,
            r.verbose == self.verbose,
    {
        Cleaner { dry_run, ..self }
    }

    /// Sets quiet mode.
    pub fn with_quiet(self, quiet: bool) -> (r: Self)
        ensures
            r.config == self.config,
            r.dry_run == self.dry_run,
            r.quiet == quiet,
            r.verbose == self.verbose,
    {
        Cleaner { quiet, ..self }
    }

    /// Sets verbose mode.
    pub fn with_verbose(self, verbose: bool) -> (r: Self)
        ensures
            r.config == self.config,
            r.dry_run == self.dry_run,
            r.quiet == self.quiet,
            r.verbose == verbose,
    {
        Cleaner { verbose, ..self }
    }
}

} // verus!

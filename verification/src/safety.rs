//! The guard consulted before a run: its limits, and the decision
//! whether the free disk space suffices. The file-system probes the
//! guard needs (does the path exist, is it under version control, how
//! much space is free) are the embedding application's; it hands their
//! plain answers in.

use vstd::prelude::*;

verus! {

/// The limits a run is validated against before anything is deleted.
#[derive(Debug, Clone)]
pub struct SafetyGuard {
    /// Whether a path inside a git repository is refused.
    pub check_git: bool,
    /// The maximum scan depth the run was configured with.
    pub max_depth: usize,
    /// Minimum free disk space, in bytes, required to proceed.
    pub min_free_space: u64,
}

impl SafetyGuard {
    /// A guard with the given limits; `min_free_space` is in bytes.
    pub fn new(check_git: bool, max_depth: usize, min_free_space: u64) -> (r: Self)
        ensures
            r.check_git == check_git,
            r.max_depth == max_depth,
            r.min_free_space == min_free_space,
    {
        SafetyGuard { check_git, max_depth, min_free_space }
    }

    /// Does the reported free space meet the guard's minimum?
    pub fn has_sufficient_space(&self, free: u64) -> (r: bool)
        ensures
            r == (free >= self.min_free_space),
    {
        free >= self.min_free_space
    }

    /// Is a repository hit fatal under this guard?
    pub fn refuses_git_repo(&self, is_repo: bool) -> (r: bool)
        ensures
            r == (self.check_git && is_repo),
    {
        self.check_git && is_repo
    }
}

} // verus!

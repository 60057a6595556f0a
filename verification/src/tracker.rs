//! Per-category tallies of the final candidates: how many items, and
//! how many bytes, each pattern category accounts for.

use vstd::prelude::*;

use crate::arith::{sat_add_u64, sat_add_usize, sat_u64, sat_usize};
use crate::types::PatternCategory;

verus! {

/// Counts and byte totals grouped by pattern category.
#[derive(Debug, Clone)]
pub struct CategoryTracker {
    dependencies_count: usize,
    build_count: usize,
    cache_count: usize,
    ide_count: usize,
    logs_count: usize,
    other_count: usize,
    dependencies_size: u64,
    build_size: u64,
    cache_size: u64,
    ide_size: u64,
    logs_size: u64,
    other_size: u64,
}

impl CategoryTracker {
    /// The number of items recorded under `c`.
    pub closed spec fn spec_count(self, c: PatternCategory) -> int {
        match c {
            PatternCategory::Dependencies => self.dependencies_count as int,
            PatternCategory::BuildOutputs => self.build_count as int,
            PatternCategory::Cache => self.cache_count as int,
            PatternCategory::IDE => self.ide_count as int,
            PatternCategory::Logs => self.logs_count as int,
            PatternCategory::Other => self.other_count as int,
        }
    }

    /// The byte total recorded under `c`.
    pub closed spec fn spec_size(self, c: PatternCategory) -> int {
        match c {
            PatternCategory::Dependencies => self.dependencies_size as int,
            PatternCategory::BuildOutputs => self.build_size as int,
            PatternCategory::Cache => self.cache_size as int,
            PatternCategory::IDE => self.ide_size as int,
            PatternCategory::Logs => self.logs_size as int,
            PatternCategory::Other => self.other_size as int,
        }
    }

    /// A tracker with nothing recorded.
    pub fn new() -> (r: Self)
        ensures
            forall|c: PatternCategory| r.spec_count(c) == 0 && r.spec_size(c) == 0,
    {
        CategoryTracker {
            dependencies_count: 0,
            build_count: 0,
            cache_count: 0,
            ide_count: 0,
            logs_count: 0,
            other_count: 0,
            dependencies_size: 0,
            build_size: 0,
            cache_size: 0,
            ide_size: 0,
            logs_size: 0,
            other_size: 0,
        }
    }

    /// Records one item of the given category and size.
    pub fn add_item(&mut self, category: PatternCategory, size: u64)
        ensures
            final(self).spec_count(category) == sat_usize(old(self).spec_count(category) + 1),
            final(self).spec_size(category) == sat_u64(old(self).spec_size(category) + size),
            forall|c: PatternCategory|
                c != category ==> final(self).spec_count(c) == old(self).spec_count(c)
                    && final(self).spec_size(c) == old(self).spec_size(c),
    {
        match category {
            PatternCategory::Dependencies => {
                self.dependencies_count = sat_add_usize(self.dependencies_count, 1);
                self.dependencies_size = sat_add_u64(self.dependencies_size, size);
            },
            PatternCategory::BuildOutputs => {
                self.build_count = sat_add_usize(self.build_count, 1);
                self.build_size = sat_add_u64(self.build_size, size);
            },
            PatternCategory::Cache => {
                self.cache_count = sat_add_usize(self.cache_count, 1);
                self.cache_size = sat_add_u64(self.cache_size, size);
            },
            PatternCategory::IDE => {
                self.ide_count = sat_add_usize(self.ide_count, 1);
                self.ide_size = sat_add_u64(self.ide_size, size);
            },
            PatternCategory::Logs => {
                self.logs_count = sat_add_usize(self.logs_count, 1);
                self.logs_size = sat_add_u64(self.logs_size, size);
            },
            PatternCategory::Other => {
                self.other_count = sat_add_usize(self.other_count, 1);
                self.other_size = sat_add_u64(self.other_size, size);
            },
        }
    }

    /// The number of items recorded under `category`.
    pub fn get_count(&self, category: PatternCategory) -> (r: usize)
        ensures
            r == self.spec_count(category),
    {
        match category {
            PatternCategory::Dependencies => self.dependencies_count,
            PatternCategory::BuildOutputs => self.build_count,
            PatternCategory::Cache => self.cache_count,
            PatternCategory::IDE => self.ide_count,
            PatternCategory::Logs => self.logs_count,
            PatternCategory::Other => self.other_count,
        }
    }

    /// The byte total recorded under `category`.
    pub fn get_size(&self, category: PatternCategory) -> (r: u64)
        ensures
            r == self.spec_size(category),
    {
        match category {
            PatternCategory::Dependencies => self.dependencies_size,
            PatternCategory::BuildOutputs => self.build_size,
            PatternCategory::Cache => self.cache_size,
            PatternCategory::IDE => self.ide_size,
            PatternCategory::Logs => self.logs_size,
            PatternCategory::Other => self.other_size,
        }
    }

    /// The item count over all categories, saturating.
    pub fn total_count(&self) -> (r: usize)
        ensures
            r == sat_usize(
                self.spec_count(PatternCategory::Dependencies) + self.spec_count(
                    PatternCategory::BuildOutputs,
                ) + self.spec_count(PatternCategory::Cache) + self.spec_count(PatternCategory::IDE)
                    + self.spec_count(PatternCategory::Logs) + self.spec_count(
                    PatternCategory::Other,
                ),
            ),
    {
        let mut total = self.dependencies_count;
        total = sat_add_usize(total, self.build_count);
        total = sat_add_usize(total, self.cache_count);
        total = sat_add_usize(total, self.ide_count);
        total = sat_add_usize(total, self.logs_count);
        total = sat_add_usize(total, self.other_count);
        total
    }

    /// The byte total over all categories, saturating.
    pub fn total_size(&self) -> (r: u64)
        ensures
            r == sat_u64(
                self.spec_size(PatternCategory::Dependencies) + self.spec_size(
                    PatternCategory::BuildOutputs,
                ) + self.spec_size(PatternCategory::Cache) + self.spec_size(PatternCategory::IDE)
                    + self.spec_size(PatternCategory::Logs) + self.spec_size(
                    PatternCategory::Other,
                ),
            ),
    {
        let mut total = self.dependencies_size;
        total = sat_add_u64(total, self.build_size);
        total = sat_add_u64(total, self.cache_size);
        total = sat_add_u64(total, self.ide_size);
        total = sat_add_u64(total, self.logs_size);
        total = sat_add_u64(total, self.other_size);
        total
    }
}

} // verus!

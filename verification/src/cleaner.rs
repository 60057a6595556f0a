//! The deletion phase's deterministic parts: scheduling items largest
//! first, the per-item outcome bookkeeping behind the final report, and
//! the dry-run path, which mutates nothing and only totals what a live
//! run would remove.
//!
//! Actually removing entries from disk is the embedding application's
//! job: it attempts each scheduled item, records every outcome in a
//! [`Statistics`] value (workers may keep private ones and merge them
//! at the join), and turns the merged statistics into a report here. A
//! failure on one item never touches the bookkeeping of any other —
//! see `lemma_failure_isolation`.

use vstd::prelude::*;

use crate::arith::{sat_add_u64, sat_add_usize, sat_u64, sat_usize};
use crate::types::{CleanError, CleanItem, CleanReport, ItemType};

verus! {

/// The ghost state of a `Statistics` value.
#[verifier::ext_equal]
pub struct StatsState {
    /// Items successfully removed.
    pub items_deleted: int,
    /// Bytes freed by those items.
    pub bytes_freed: int,
    /// The failures, in the order they were recorded.
    pub errors: Seq<CleanError>,
}

/// Counters and failures collected while a deletion batch runs.
#[derive(Debug)]
pub struct Statistics {
    /// Items successfully removed.
    pub items_deleted: usize,
    /// Bytes freed by those items.
    pub bytes_freed: u64,
    /// The failures, in the order they were recorded.
    pub errors: Vec<CleanError>,
}

impl View for Statistics {
    type V = StatsState;

    open spec fn view(&self) -> StatsState {
        StatsState {
            items_deleted: self.items_deleted as int,
            bytes_freed: self.bytes_freed as int,
            errors: self.errors@,
        }
    }
}

/// Statistics with nothing recorded.
pub open spec fn empty_stats() -> StatsState {
    StatsState { items_deleted: 0, bytes_freed: 0, errors: Seq::empty() }
}

/// How one item's outcome advances the statistics: a success bumps the
/// counters by the item, a failure only joins the failure list.
pub open spec fn spec_record(
    st: StatsState,
    item: CleanItem,
    outcome: Option<CleanError>,
) -> StatsState {
    match outcome {
        None => StatsState {
            items_deleted: sat_usize(st.items_deleted + 1),
            bytes_freed: sat_u64(st.bytes_freed + item.size),
            errors: st.errors,
        },
        Some(e) => StatsState {
            items_deleted: st.items_deleted,
            bytes_freed: st.bytes_freed,
            errors: st.errors.push(e),
        },
    }
}

/// Folding a list of outcomes from a starting state.
pub open spec fn spec_collect_from(
    st: StatsState,
    outcomes: Seq<(CleanItem, Option<CleanError>)>,
) -> StatsState
    decreases outcomes.len(),
{
    if outcomes.len() == 0 {
        st
    } else {
        spec_collect_from(
            spec_record(st, outcomes.first().0, outcomes.first().1),
            outcomes.drop_first(),
        )
    }
}

/// Folding a list of outcomes from empty statistics.
pub open spec fn spec_collect(outcomes: Seq<(CleanItem, Option<CleanError>)>) -> StatsState {
    spec_collect_from(empty_stats(), outcomes)
}

impl Statistics {
    /// Statistics with nothing recorded.
    pub fn new() -> (r: Self)
        ensures
            r@ == empty_stats(),
    {
        let r = Statistics { items_deleted: 0, bytes_freed: 0, errors: Vec::new() };
        proof {
            assert(r@.errors =~= empty_stats().errors);
        }
        r
    }

    /// Records one successfully removed item.
    pub fn record_success(&mut self, item: &CleanItem)
        ensures
            final(self)@ == spec_record(old(self)@, *item, None),
    {
        self.items_deleted = sat_add_usize(self.items_deleted, 1);
        self.bytes_freed = sat_add_u64(self.bytes_freed, item.size);
    }

    /// Records one item that could not be removed.
    pub fn record_failure(&mut self, item: &CleanItem, error: CleanError)
        ensures
            final(self)@ == spec_record(old(self)@, *item, Some(error)),
    {
        self.errors.push(error);
    }

    /// Merges another worker's statistics into this one.
    pub fn merge(&mut self, other: Statistics)
        ensures
            final(self)@.items_deleted == sat_usize(
                old(self)@.items_deleted + other@.items_deleted,
            ),
            final(self)@.bytes_freed == sat_u64(old(self)@.bytes_freed + other@.bytes_freed),
            final(self)@.errors == old(self)@.errors + other@.errors,
    {
        let Statistics { items_deleted, bytes_freed, errors: mut other_errors } = other;
        self.items_deleted = sat_add_usize(self.items_deleted, items_deleted);
        self.bytes_freed = sat_add_u64(self.bytes_freed, bytes_freed);
        self.errors.append(&mut other_errors);
    }
}

/// Folds a list of per-item outcomes into statistics; `None` marks a
/// success, `Some` carries the item's failure.
pub fn collect_outcomes(outcomes: Vec<(CleanItem, Option<CleanError>)>) -> (r: Statistics)
    ensures
        r@ == spec_collect(outcomes@),
{
    let ghost all = outcomes@;
    let mut stats = Statistics::new();
    let mut rest = outcomes;
    while rest.len() > 0
        invariant
            spec_collect_from(stats@, rest@) == spec_collect(all),
        decreases rest@.len(),
    {
        let ghost rest0 = rest@;
        let (item, outcome) = rest.remove(0);
        proof {
            assert((item, outcome) == rest0.first());
            assert(rest@ =~= rest0.drop_first());
        }
        match outcome {
            None => stats.record_success(&item),
            Some(e) => stats.record_failure(&item, e),
        }
    }
    stats
}

/// Every outcome in the list is a success.
proof fn lemma_collect_all_success(st: StatsState, outcomes: Seq<(CleanItem, Option<CleanError>)>)
    requires
        0 <= st.items_deleted,
        st.items_deleted + outcomes.len() <= usize::MAX,
        forall|i: int| 0 <= i < outcomes.len() ==> (#[trigger] outcomes[i].1) is None,
    ensures
        spec_collect_from(st, outcomes).items_deleted == st.items_deleted + outcomes.len(),
        spec_collect_from(st, outcomes).errors == st.errors,
    decreases outcomes.len(),
{
    if outcomes.len() > 0 {
        assert(outcomes[0].1 is None);
        lemma_collect_all_success(
            spec_record(st, outcomes.first().0, outcomes.first().1),
            outcomes.drop_first(),
        );
    }
}

/// The generalized failure-isolation induction.
proof fn lemma_failure_isolation_from(
    st: StatsState,
    outcomes: Seq<(CleanItem, Option<CleanError>)>,
    k: int,
)
    requires
        0 <= st.items_deleted,
        st.items_deleted + outcomes.len() - 1 <= usize::MAX,
        0 <= k < outcomes.len(),
        outcomes[k].1 is Some,
        forall|i: int| 0 <= i < outcomes.len() && i != k ==> (#[trigger] outcomes[i].1) is None,
    ensures
        spec_collect_from(st, outcomes).items_deleted == st.items_deleted + outcomes.len() - 1,
        spec_collect_from(st, outcomes).errors == st.errors.push(outcomes[k].1->Some_0),
    decreases outcomes.len(),
{
    let st1 = spec_record(st, outcomes.first().0, outcomes.first().1);
    if k == 0 {
        lemma_collect_all_success(st1, outcomes.drop_first());
    } else {
        assert(outcomes[0].1 is None);
        lemma_failure_isolation_from(st1, outcomes.drop_first(), k - 1);
        assert(outcomes.drop_first()[k - 1] == outcomes[k]);
    }
}

/// Failure isolation: when exactly one of the attempted items fails,
/// the collected statistics count every other item as deleted, and the
/// failure list holds exactly that item's error.
pub proof fn lemma_failure_isolation(outcomes: Seq<(CleanItem, Option<CleanError>)>, k: int)
    requires
        outcomes.len() <= usize::MAX,
        0 <= k < outcomes.len(),
        outcomes[k].1 is Some,
        forall|i: int| 0 <= i < outcomes.len() && i != k ==> (#[trigger] outcomes[i].1) is None,
    ensures
        spec_collect(outcomes).items_deleted == outcomes.len() - 1,
        spec_collect(outcomes).errors =~= seq![outcomes[k].1->Some_0],
{
    lemma_failure_isolation_from(empty_stats(), outcomes, k);
    assert(Seq::<CleanError>::empty().push(outcomes[k].1->Some_0) =~= seq![
        outcomes[k].1->Some_0,
    ]);
}

/// Total byte size of the items.
pub open spec fn spec_total_size(items: Seq<CleanItem>) -> int
    decreases items.len(),
{
    if items.len() == 0 {
        0
    } else {
        spec_total_size(items.drop_last()) + items.last().size as int
    }
}

/// How many of the items are directories.
pub open spec fn spec_dir_count(items: Seq<CleanItem>) -> int
    decreases items.len(),
{
    if items.len() == 0 {
        0
    } else {
        spec_dir_count(items.drop_last()) + if items.last().item_type is Directory {
            1int
        } else {
            0int
        }
    }
}

proof fn lemma_total_size_nonneg(items: Seq<CleanItem>)
    ensures
        spec_total_size(items) >= 0,
    decreases items.len(),
{
    if items.len() > 0 {
        lemma_total_size_nonneg(items.drop_last());
    }
}

proof fn lemma_dir_count_bounds(items: Seq<CleanItem>)
    ensures
        0 <= spec_dir_count(items) <= items.len(),
    decreases items.len(),
{
    if items.len() > 0 {
        lemma_dir_count_bounds(items.drop_last());
    }
}

/// Counts the directories and the non-directories among the items.
pub fn count_types(items: &Vec<CleanItem>) -> (r: (usize, usize))
    ensures
        r.0 == spec_dir_count(items@),
        r.1 == items@.len() - spec_dir_count(items@),
{
    let n = items.len();
    let mut dirs: usize = 0;
    let mut i: usize = 0;
    proof {
        assert(items@.take(0) =~= Seq::<CleanItem>::empty());
    }
    while i < n
        invariant
            i <= n,
            n == items@.len(),
            dirs == spec_dir_count(items@.take(i as int)),
            dirs <= i,
        decreases n - i,
    {
        proof {
            let taken = items@.take(i + 1int);
            assert(taken.drop_last() =~= items@.take(i as int));
            assert(taken.last() == items@[i as int]);
        }
        let is_dir = match items[i].item_type {
            ItemType::Directory => true,
            _ => false,
        };
        if is_dir {
            dirs += 1;
        }
        i += 1;
    }
    proof {
        assert(items@.take(n as int) =~= items@);
    }
    (dirs, n - dirs)
}

/// Sums the items' sizes, saturating at `u64::MAX`.
pub fn total_size(items: &Vec<CleanItem>) -> (r: u64)
    ensures
        r == sat_u64(spec_total_size(items@)),
{
    let n = items.len();
    let mut total: u64 = 0;
    let mut i: usize = 0;
    proof {
        assert(items@.take(0) =~= Seq::<CleanItem>::empty());
    }
    while i < n
        invariant
            i <= n,
            n == items@.len(),
            total == sat_u64(spec_total_size(items@.take(i as int))),
        decreases n - i,
    {
        proof {
            let taken = items@.take(i + 1int);
            assert(taken.drop_last() =~= items@.take(i as int));
            assert(taken.last() == items@[i as int]);
            lemma_total_size_nonneg(items@.take(i as int));
        }
        total = sat_add_u64(total, items[i].size);
        i += 1;
    }
    proof {
        assert(items@.take(n as int) =~= items@);
    }
    total
}

/// The scheduling order: larger items first, so the biggest deletions
/// are dispatched earliest.
pub open spec fn size_ge(a: CleanItem, b: CleanItem) -> bool {
    a.size >= b.size
}

/// Inserts `x` after every element at least as large as it.
pub open spec fn spec_insert_by_size(x: CleanItem, s: Seq<CleanItem>) -> Seq<CleanItem>
    decreases s.len(),
{
    if s.len() == 0 {
        seq![x]
    } else if size_ge(s.last(), x) {
        s.push(x)
    } else {
        spec_insert_by_size(x, s.drop_last()).push(s.last())
    }
}

/// Stable insertion sort by descending size.
pub open spec fn spec_schedule(s: Seq<CleanItem>) -> Seq<CleanItem>
    decreases s.len(),
{
    if s.len() == 0 {
        s
    } else {
        spec_insert_by_size(s.last(), spec_schedule(s.drop_last()))
    }
}

/// When positions `j..` of `s` all refuse `size_ge(_, x)` and position
/// `j - 1` (if any) accepts it, inserting `x` lands at position `j`.
proof fn lemma_insert_by_size_at(x: CleanItem, s: Seq<CleanItem>, j: int)
    requires
        0 <= j <= s.len(),
        forall|k: int| j <= k < s.len() ==> !size_ge(#[trigger] s[k], x),
        j > 0 ==> size_ge(s[j - 1], x),
    ensures
        spec_insert_by_size(x, s) == s.insert(j, x),
    decreases s.len() - j,
{
    if j == s.len() {
        if s.len() == 0 {
            assert(spec_insert_by_size(x, s) =~= s.insert(0, x));
        } else {
            assert(s.push(x) =~= s.insert(j, x));
        }
    } else {
        assert(!size_ge(s.last(), x));
        lemma_insert_by_size_at(x, s.drop_last(), j);
        assert(s.drop_last().insert(j, x).push(s.last()) =~= s.insert(j, x));
    }
}

/// Inserts `x` into the size-sorted vector `out`.
fn insert_by_size(out: &mut Vec<CleanItem>, x: CleanItem)
    ensures
        final(out)@ == spec_insert_by_size(x, old(out)@),
{
    let mut j: usize = out.len();
    while j > 0 && out[j - 1].size < x.size
        invariant
            j <= out.len(),
            out@ == old(out)@,
            forall|k: int| j <= k < out@.len() ==> !size_ge(#[trigger] out@[k], x),
        decreases j,
    {
        j -= 1;
    }
    proof {
        lemma_insert_by_size_at(x, out@, j as int);
    }
    out.insert(j, x);
}

/// Sorts the items by descending size, stably: the order in which the
/// deletion workers are handed their work.
pub fn schedule(items: Vec<CleanItem>) -> (r: Vec<CleanItem>)
    ensures
        r@ == spec_schedule(items@),
{
    let ghost orig = items@;
    let mut rest = items;
    let mut out: Vec<CleanItem> = Vec::new();
    proof {
        assert(orig.take(0) =~= Seq::<CleanItem>::empty());
        assert(orig.skip(0) =~= orig);
    }
    while rest.len() > 0
        invariant
            rest@.len() <= orig.len(),
            rest@ == orig.skip(orig.len() - rest@.len()),
            out@ == spec_schedule(orig.take(orig.len() - rest@.len())),
        decreases rest@.len(),
    {
        let ghost k = orig.len() - rest@.len();
        let x = rest.remove(0);
        proof {
            assert(x == orig[k]);
            assert(rest@ =~= orig.skip(k + 1));
            let taken = orig.take(k + 1);
            assert(taken.drop_last() =~= orig.take(k));
            assert(taken.last() == orig[k]);
        }
        insert_by_size(&mut out, x);
    }
    proof {
        assert(orig.take(orig.len() as int) =~= orig);
    }
    out
}

/// Configuration of one deletion batch: worker count, chunking, and
/// whether the batch is a dry run.
#[derive(Debug, Clone)]
pub struct ParallelCleaner {
    /// Number of deletion workers the application spawns.
    pub thread_count: usize,
    /// How many items each worker takes per chunk.
    pub chunk_size: usize,
    /// When set, nothing is removed: the batch only computes totals.
    pub dry_run: bool,
}

impl ParallelCleaner {
    /// A cleaner with the given worker count, chunks of 100, live mode.
    pub fn new(thread_count: usize) -> (r: Self)
        ensures
            r.thread_count == thread_count,
            r.chunk_size == 100,
            !r.dry_run,
    {
        ParallelCleaner { thread_count, chunk_size: 100, dry_run: false }
    }

    /// Sets the worker count.
    pub fn with_threads(self, count: usize) -> (r: Self)
        ensures
            r.thread_count == count,
            r.chunk_size == self.chunk_size,
            r.dry_run == self.dry_run,
    {
        ParallelCleaner { thread_count: count, ..self }
    }

    /// Sets dry-run mode.
    pub fn with_dry_run(self, dry_run: bool) -> (r: Self)
        ensures
            r.thread_count == self.thread_count,
            r.chunk_size == self.chunk_size,
            r.dry_run == dry_run,
    {
        ParallelCleaner { dry_run, ..self }
    }

    /// The dry-run path: mutates nothing and performs no I/O, merely
    /// counting what a live run would remove. Every item counts as
    /// deleted, the byte total is the sum of the items' sizes, and both
    /// failure lists are empty.
    pub fn dry_run_clean(&self, items: &Vec<CleanItem>) -> (r: CleanReport)
        ensures
            r.items_deleted == items@.len(),
            r.bytes_freed == sat_u64(spec_total_size(items@)),
            r.errors@ == Seq::<CleanError>::empty(),
            r.scan_errors@.len() == 0,
            r.duration_ms == 0,
            r.scan_duration_ms == 0,
            r.dry_run,
            r.dirs_deleted == spec_dir_count(items@),
            r.files_deleted == items@.len() - spec_dir_count(items@),
            r.entries_scanned == 0,
    {
        let bytes = total_size(items);
        let (dirs, files) = count_types(items);
        let mut report = CleanReport::default();
        report.items_deleted = items.len();
        report.bytes_freed = bytes;
        report.dry_run = true;
        report.dirs_deleted = dirs;
        report.files_deleted = files;
        report
    }

    /// Assembles the report of a live batch from the merged statistics.
    /// Phase durations, scan failures and the entry count are the
    /// caller's to fill in afterwards.
    pub fn report_from_stats(&self, stats: Statistics, dirs_deleted: usize, files_deleted: usize)
        -> (r: CleanReport)
        ensures
            r.items_deleted == stats@.items_deleted,
            r.bytes_freed == stats@.bytes_freed,
            r.errors@ == stats@.errors,
            r.scan_errors@.len() == 0,
            r.duration_ms == 0,
            r.scan_duration_ms == 0,
            r.dry_run == self.dry_run,
            r.dirs_deleted == dirs_deleted,
            r.files_deleted == files_deleted,
            r.entries_scanned == 0,
    {
        let Statistics { items_deleted, bytes_freed, errors } = stats;
        let mut report = CleanReport::default();
        report.items_deleted = items_deleted;
        report.bytes_freed = bytes_freed;
        report.errors = errors;
        report.dry_run = self.dry_run;
        report.dirs_deleted = dirs_deleted;
        report.files_deleted = files_deleted;
        report
    }
}

} // verus!

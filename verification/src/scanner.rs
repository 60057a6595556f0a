//! The scan fold: turning a stream of directory-walk observations into
//! candidate items, scan failures, and the size records that directory
//! aggregation needs.
//!
//! Walking the real file system is the embedding application's job: it
//! hands each observation in as a plain [`WalkEvent`]. Any number of
//! accumulators may consume disjoint parts of the stream independently
//! and be merged pairwise afterwards; the fold is a homomorphism onto
//! merging, so the outcome does not depend on how the stream was
//! partitioned (see `lemma_scan_partition`).
//!
//! After the fold, every directory candidate's size is computed from
//! the recorded per-directory and per-file sizes: its own recorded size
//! plus the size of every recorded file lying beneath it within the
//! scan root.

use vstd::prelude::*;

use crate::arith::{sat_add_u64, sat_add_usize, sat_u64, sat_usize};
use crate::matcher::{spec_evaluate, spec_excluded, PatternMatcher, TypeHint};
use crate::paths::{base_name_of, is_ancestor, is_ancestor_path, str_eq};
use crate::types::{CleanItem, ItemType, ScanError};

verus! {

/// What reading an entry's metadata yielded.
#[derive(Debug, Clone, PartialEq)]
pub enum EntryMeta {
    /// Metadata was read: the entry's size in bytes and, for a
    /// symbolic link, whether its target is a regular file.
    Available { size: u64, target_is_file: bool },
    /// Metadata could not be read; the error's rendering.
    Failed { message: String },
}

/// One visited entry, as the walking application observed it.
#[derive(Debug, Clone, PartialEq)]
pub struct WalkEntry {
    /// The entry's absolute path.
    pub path: String,
    /// The kind of entry the walk reported.
    pub kind: ItemType,
    /// What reading the entry's metadata yielded.
    pub meta: EntryMeta,
}

/// One observation of the walk: an entry, or a traversal failure.
#[derive(Debug, Clone, PartialEq)]
pub enum WalkEvent {
    /// A visited entry.
    Entry(WalkEntry),
    /// A traversal-level failure at the best-known path; `cycle` marks
    /// a symbolic link closing a loop back to an ancestor.
    Failure { path: String, message: String, cycle: bool },
}

/// The ghost state of a scan accumulator.
#[verifier::ext_equal]
pub struct ScanState {
    /// Candidate items found so far.
    pub items: Seq<CleanItem>,
    /// Failures recorded so far.
    pub errors: Seq<ScanError>,
    /// Every file (and file-targeted symbolic link) seen, with its size.
    pub file_sizes: Seq<(String, u64)>,
    /// Every directory seen, with its own recorded size.
    pub dir_bases: Seq<(String, u64)>,
    /// Entries visited so far.
    pub entries_seen: int,
}

/// A partial scan result, built by one worker over part of the stream.
#[derive(Debug)]
pub struct ScanAccumulator {
    /// Candidate items found so far.
    pub items: Vec<CleanItem>,
    /// Failures recorded so far.
    pub errors: Vec<ScanError>,
    /// Every file (and file-targeted symbolic link) seen, with its size.
    pub file_sizes: Vec<(String, u64)>,
    /// Every directory seen, with its own recorded size.
    pub dir_bases: Vec<(String, u64)>,
    /// Entries visited so far.
    pub entries_seen: usize,
}

impl View for ScanAccumulator {
    type V = ScanState;

    open spec fn view(&self) -> ScanState {
        ScanState {
            items: self.items@,
            errors: self.errors@,
            file_sizes: self.file_sizes@,
            dir_bases: self.dir_bases@,
            entries_seen: self.entries_seen as int,
        }
    }
}

/// The type hint handed to the matcher for a walked entry.
pub open spec fn hint_of(kind: ItemType) -> TypeHint {
    match kind {
        ItemType::Directory => TypeHint::Dir,
        ItemType::File => TypeHint::File,
        ItemType::Symlink => TypeHint::Symlink,
    }
}

/// The accumulator state with nothing consumed.
pub open spec fn empty_scan_state() -> ScanState {
    ScanState {
        items: Seq::empty(),
        errors: Seq::empty(),
        file_sizes: Seq::empty(),
        dir_bases: Seq::empty(),
        entries_seen: 0,
    }
}

/// How one observation advances the accumulator state.
///
/// A failure only records a `ScanError`. An entry is counted, skipped
/// if it is the root itself, and otherwise: a metadata failure is
/// recorded as an error; the matcher is evaluated on the entry's path
/// with its type as hint, and on a hit the entry becomes a candidate —
/// unless it is a file or symbolic link whose metadata failed, which is
/// never silently included with a guessed size. Directory candidates
/// start at size zero, to be filled by aggregation. Independently of
/// matching, a file's (or file-targeted symbolic link's) size and a
/// directory's own size are recorded for aggregation.
pub open spec fn spec_step(
    st: ScanState,
    m: PatternMatcher,
    root: Seq<char>,
    ev: WalkEvent,
) -> ScanState {
    match ev {
        WalkEvent::Failure { path, message, cycle } => ScanState {
            items: st.items,
            errors: st.errors.push(
                if cycle {
                    ScanError::SymlinkCycle { path }
                } else {
                    ScanError::IoError { path, message }
                },
            ),
            file_sizes: st.file_sizes,
            dir_bases: st.dir_bases,
            entries_seen: st.entries_seen,
        },
        WalkEvent::Entry(entry) => {
            let counted = sat_usize(st.entries_seen + 1);
            if entry.path@ == root {
                ScanState {
                    items: st.items,
                    errors: st.errors,
                    file_sizes: st.file_sizes,
                    dir_bases: st.dir_bases,
                    entries_seen: counted,
                }
            } else {
                let meta_ok = entry.meta is Available;
                let errors2 = match entry.meta {
                    EntryMeta::Failed { message } => st.errors.push(
                        ScanError::IoError { path: entry.path, message },
                    ),
                    EntryMeta::Available { .. } => st.errors,
                };
                let hit = spec_evaluate(
                    m.dirs(),
                    m.files(),
                    m.excludes(),
                    entry.path@,
                    Some(hint_of(entry.kind)),
                );
                let items2 = match hit {
                    Some(pm) => {
                        if entry.kind is Directory || meta_ok {
                            let size = match entry.kind {
                                ItemType::Directory => 0u64,
                                _ => match entry.meta {
                                    EntryMeta::Available { size, .. } => size,
                                    EntryMeta::Failed { .. } => 0u64,
                                },
                            };
                            st.items.push(
                                CleanItem {
                                    path: entry.path,
                                    size,
                                    item_type: entry.kind,
                                    pattern: pm,
                                },
                            )
                        } else {
                            st.items
                        }
                    },
                    None => st.items,
                };
                let file_sizes2 = match entry.meta {
                    EntryMeta::Available { size, target_is_file } => match entry.kind {
                        ItemType::File => st.file_sizes.push((entry.path, size)),
                        ItemType::Symlink => if target_is_file {
                            st.file_sizes.push((entry.path, size))
                        } else {
                            st.file_sizes
                        },
                        ItemType::Directory => st.file_sizes,
                    },
                    EntryMeta::Failed { .. } => st.file_sizes,
                };
                let dir_bases2 = match entry.meta {
                    EntryMeta::Available { size, .. } => match entry.kind {
                        ItemType::Directory => st.dir_bases.push((entry.path, size)),
                        _ => st.dir_bases,
                    },
                    EntryMeta::Failed { .. } => st.dir_bases,
                };
                ScanState {
                    items: items2,
                    errors: errors2,
                    file_sizes: file_sizes2,
                    dir_bases: dir_bases2,
                    entries_seen: counted,
                }
            }
        },
    }
}

/// Merging two partial accumulators: list concatenation and a
/// saturating sum of the entry counts.
pub open spec fn spec_merge(a: ScanState, b: ScanState) -> ScanState {
    ScanState {
        items: a.items + b.items,
        errors: a.errors + b.errors,
        file_sizes: a.file_sizes + b.file_sizes,
        dir_bases: a.dir_bases + b.dir_bases,
        entries_seen: sat_usize(a.entries_seen + b.entries_seen),
    }
}

/// Folding a stream of observations from a starting state.
pub open spec fn spec_scan_from(
    st: ScanState,
    m: PatternMatcher,
    root: Seq<char>,
    evs: Seq<WalkEvent>,
) -> ScanState
    decreases evs.len(),
{
    if evs.len() == 0 {
        st
    } else {
        spec_scan_from(spec_step(st, m, root, evs.first()), m, root, evs.drop_first())
    }
}

/// Folding a stream of observations from the empty state.
pub open spec fn spec_scan(m: PatternMatcher, root: Seq<char>, evs: Seq<WalkEvent>) -> ScanState {
    spec_scan_from(empty_scan_state(), m, root, evs)
}

impl ScanAccumulator {
    /// An accumulator with nothing consumed.
    pub fn new() -> (r: Self)
        ensures
            r@ == empty_scan_state(),
    {
        let r = ScanAccumulator {
            items: Vec::new(),
            errors: Vec::new(),
            file_sizes: Vec::new(),
            dir_bases: Vec::new(),
            entries_seen: 0,
        };
        proof {
            assert(r@.items =~= empty_scan_state().items);
            assert(r@.errors =~= empty_scan_state().errors);
            assert(r@.file_sizes =~= empty_scan_state().file_sizes);
            assert(r@.dir_bases =~= empty_scan_state().dir_bases);
        }
        r
    }

    /// Consumes one observation, advancing the state by `spec_step`.
    pub fn accumulate(&mut self, matcher: &PatternMatcher, root: &str, ev: WalkEvent)
        ensures
            final(self)@ == spec_step(old(self)@, *matcher, root@, ev),
    {
        match ev {
            WalkEvent::Failure { path, message, cycle } => {
                let e = if cycle {
                    ScanError::SymlinkCycle { path }
                } else {
                    ScanError::IoError { path, message }
                };
                self.errors.push(e);
            },
            WalkEvent::Entry(entry) => {
                self.entries_seen = sat_add_usize(self.entries_seen, 1);
                if str_eq(entry.path.as_str(), root) {
                    return ;
                }
                let WalkEntry { path, kind, meta } = entry;
                let meta_ok: bool;
                let mut size_val: u64 = 0;
                let mut link_to_file = false;
                match &meta {
                    EntryMeta::Available { size, target_is_file } => {
                        meta_ok = true;
                        size_val = *size;
                        link_to_file = *target_is_file;
                    },
                    EntryMeta::Failed { message } => {
                        meta_ok = false;
                        self.errors.push(
                            ScanError::IoError { path: path.clone(), message: message.clone() },
                        );
                    },
                }
                let hint = match kind {
                    ItemType::Directory => TypeHint::Dir,
                    ItemType::File => TypeHint::File,
                    ItemType::Symlink => TypeHint::Symlink,
                };
                let hit = matcher.matches_with_type(path.as_str(), Some(hint));
                if let Some(pm) = hit {
                    let is_dir = match kind {
                        ItemType::Directory => true,
                        _ => false,
                    };
                    if is_dir || meta_ok {
                        let size = match kind {
                            ItemType::Directory => 0u64,
                            _ => size_val,
                        };
                        self.items.push(
                            CleanItem { path: path.clone(), size, item_type: kind, pattern: pm },
                        );
                    }
                }
                if meta_ok {
                    match kind {
                        ItemType::File => {
                            self.file_sizes.push((path, size_val));
                        },
                        ItemType::Symlink => {
                            if link_to_file {
                                self.file_sizes.push((path, size_val));
                            }
                        },
                        ItemType::Directory => {
                            self.dir_bases.push((path, size_val));
                        },
                    }
                }
            },
        }
    }

    /// Merges another partial accumulator into this one.
    pub fn merge(&mut self, other: ScanAccumulator)
        ensures
            final(self)@ == spec_merge(old(self)@, other@),
    {
        let ScanAccumulator {
            mut items,
            mut errors,
            mut file_sizes,
            mut dir_bases,
            entries_seen,
        } = other;
        self.items.append(&mut items);
        self.errors.append(&mut errors);
        self.file_sizes.append(&mut file_sizes);
        self.dir_bases.append(&mut dir_bases);
        self.entries_seen = sat_add_usize(self.entries_seen, entries_seen);
    }
}

/// Is `d` the root itself, or strictly beneath it?
pub open spec fn within_root(root: Seq<char>, d: Seq<char>) -> bool {
    d == root || is_ancestor_path(root, d)
}

/// Sum of the recorded own-sizes of directory `d`.
pub open spec fn spec_base_total(d: Seq<char>, bases: Seq<(String, u64)>) -> int
    decreases bases.len(),
{
    if bases.len() == 0 {
        0
    } else {
        spec_base_total(d, bases.drop_last()) + if bases.last().0@ == d {
            bases.last().1 as int
        } else {
            0
        }
    }
}

/// Sum of the sizes of every recorded file strictly beneath `d`.
pub open spec fn spec_file_total(d: Seq<char>, files: Seq<(String, u64)>) -> int
    decreases files.len(),
{
    if files.len() == 0 {
        0
    } else {
        spec_file_total(d, files.drop_last()) + if is_ancestor_path(d, files.last().0@) {
            files.last().1 as int
        } else {
            0
        }
    }
}

/// The total size of directory `d`: its own recorded size plus, when
/// `d` lies within the scan root, the size of every recorded file
/// beneath it.
pub open spec fn spec_dir_total(
    d: Seq<char>,
    bases: Seq<(String, u64)>,
    files: Seq<(String, u64)>,
    root: Seq<char>,
) -> int {
    spec_base_total(d, bases) + if within_root(root, d) {
        spec_file_total(d, files)
    } else {
        0
    }
}

proof fn lemma_base_total_nonneg(d: Seq<char>, bases: Seq<(String, u64)>)
    ensures
        spec_base_total(d, bases) >= 0,
    decreases bases.len(),
{
    if bases.len() > 0 {
        lemma_base_total_nonneg(d, bases.drop_last());
    }
}

proof fn lemma_file_total_nonneg(d: Seq<char>, files: Seq<(String, u64)>)
    ensures
        spec_file_total(d, files) >= 0,
    decreases files.len(),
{
    if files.len() > 0 {
        lemma_file_total_nonneg(d, files.drop_last());
    }
}

/// The items after aggregation: each directory's size replaced by its
/// total (clamped to `u64`), every other item unchanged.
pub open spec fn spec_aggregate_items(
    items: Seq<CleanItem>,
    bases: Seq<(String, u64)>,
    files: Seq<(String, u64)>,
    root: Seq<char>,
) -> Seq<CleanItem> {
    Seq::new(
        items.len(),
        |i: int|
            if items[i].item_type is Directory {
                CleanItem {
                    path: items[i].path,
                    size: sat_u64(spec_dir_total(items[i].path@, bases, files, root)) as u64,
                    item_type: items[i].item_type,
                    pattern: items[i].pattern,
                }
            } else {
                items[i]
            },
    )
}

/// Aggregation correctness: after aggregation, a directory candidate's
/// size is exactly its own recorded size plus the sum of the sizes of
/// every recorded file beneath it within the scan root (clamped to
/// `u64`), and a non-directory candidate is untouched. No field but
/// the size ever changes.
pub proof fn lemma_aggregation_correctness(
    items: Seq<CleanItem>,
    bases: Seq<(String, u64)>,
    files: Seq<(String, u64)>,
    root: Seq<char>,
    i: int,
)
    requires
        0 <= i < items.len(),
    ensures
        items[i].item_type is Directory ==> spec_aggregate_items(items, bases, files, root)[i]
            == (CleanItem {
            size: sat_u64(spec_dir_total(items[i].path@, bases, files, root)) as u64,
            ..items[i]
        }),
        !(items[i].item_type is Directory) ==> spec_aggregate_items(items, bases, files, root)[i]
            == items[i],
{
}

/// Computes directory `d`'s total size, saturating at `u64::MAX`.
fn compute_dir_total(
    d: &str,
    bases: &Vec<(String, u64)>,
    files: &Vec<(String, u64)>,
    root: &str,
) -> (r: u64)
    ensures
        r == sat_u64(spec_dir_total(d@, bases@, files@, root@)),
{
    let mut total: u64 = 0;
    let n = bases.len();
    let mut k: usize = 0;
    proof {
        assert(bases@.take(0) =~= Seq::<(String, u64)>::empty());
    }
    while k < n
        invariant
            k <= n,
            n == bases@.len(),
            total == sat_u64(spec_base_total(d@, bases@.take(k as int))),
        decreases n - k,
    {
        proof {
            let taken = bases@.take(k + 1int);
            assert(taken.drop_last() =~= bases@.take(k as int));
            assert(taken.last() == bases@[k as int]);
            lemma_base_total_nonneg(d@, bases@.take(k as int));
        }
        if str_eq(bases[k].0.as_str(), d) {
            total = sat_add_u64(total, bases[k].1);
        }
        k += 1;
    }
    proof {
        assert(bases@.take(n as int) =~= bases@);
        lemma_base_total_nonneg(d@, bases@);
    }
    let inside = str_eq(d, root) || is_ancestor(root, d);
    if inside {
        let ghost base_full = spec_base_total(d@, bases@);
        let m = files.len();
        let mut k: usize = 0;
        proof {
            assert(files@.take(0) =~= Seq::<(String, u64)>::empty());
        }
        while k < m
            invariant
                k <= m,
                m == files@.len(),
                total == sat_u64(base_full + spec_file_total(d@, files@.take(k as int))),
                base_full == spec_base_total(d@, bases@),
                base_full >= 0,
            decreases m - k,
        {
            proof {
                let taken = files@.take(k + 1int);
                assert(taken.drop_last() =~= files@.take(k as int));
                assert(taken.last() == files@[k as int]);
                lemma_file_total_nonneg(d@, files@.take(k as int));
            }
            if is_ancestor(d, files[k].0.as_str()) {
                total = sat_add_u64(total, files[k].1);
            }
            k += 1;
        }
        proof {
            assert(files@.take(m as int) =~= files@);
        }
    }
    total
}

/// Fills every directory candidate's size in from the recorded sizes;
/// non-directory candidates keep their own size, and no other field of
/// any item changes.
pub fn aggregate_sizes(
    items: &mut Vec<CleanItem>,
    bases: &Vec<(String, u64)>,
    files: &Vec<(String, u64)>,
    root: &str,
)
    ensures
        final(items)@ == spec_aggregate_items(old(items)@, bases@, files@, root@),
{
    let n = items.len();
    let ghost target = spec_aggregate_items(old(items)@, bases@, files@, root@);
    let mut i: usize = 0;
    while i < n
        invariant
            i <= n,
            n == items@.len(),
            target == spec_aggregate_items(old(items)@, bases@, files@, root@),
            target.len() == n,
            forall|j: int| 0 <= j < i ==> items@[j] == target[j],
            forall|j: int| i <= j < n ==> items@[j] == old(items)@[j],
        decreases n - i,
    {
        let is_dir = match items[i].item_type {
            ItemType::Directory => true,
            _ => false,
        };
        if is_dir {
            let ghost before = items@;
            let mut item = items.remove(i);
            let total = compute_dir_total(item.path.as_str(), bases, files, root);
            item.size = total;
            items.insert(i, item);
            proof {
                assert(items@ =~= before.update(i as int, item));
            }
        }
        i += 1;
    }
    proof {
        assert(items@ =~= target);
    }
}

/// The configuration of one scan: the root path, the compiled matcher,
/// and the traversal options the walking application honours.
#[derive(Debug, Clone)]
pub struct Scanner {
    /// The scan root; the root entry itself is never a candidate.
    pub root: String,
    /// The compiled pattern matcher.
    pub matcher: PatternMatcher,
    /// How many directory levels beneath the root the walk descends.
    pub max_depth: usize,
    /// Whether the walk follows symbolic links.
    pub follow_symlinks: bool,
}

impl Scanner {
    /// A scanner over `root` with the given matcher, depth 10, and
    /// symbolic links unfollowed.
    pub fn new(root: String, matcher: PatternMatcher) -> (r: Self)
        ensures
            r.root == root,
            r.matcher == matcher,
            r.max_depth == 10,
            !r.follow_symlinks,
    {
        Scanner { root, matcher, max_depth: 10, follow_symlinks: false }
    }

    /// Sets the maximum traversal depth.
    pub fn with_max_depth(self, depth: usize) -> (r: Self)
        ensures
            r.root == self.root,
            r.matcher == self.matcher,
            r.max_depth == depth,
            r.follow_symlinks == self.follow_symlinks,
    {
        Scanner { max_depth: depth, ..self }
    }

    /// Sets whether the walk follows symbolic links.
    pub fn with_symlinks(self, follow: bool) -> (r: Self)
        ensures
            r.root == self.root,
            r.matcher == self.matcher,
            r.max_depth == self.max_depth,
            r.follow_symlinks == follow,
    {
        Scanner { follow_symlinks: follow, ..self }
    }

    /// Consumes a stream of walk observations and yields the aggregated
    /// candidates, the scan failures, and the count of entries visited.
    ///
    /// The result is the fold of `spec_step` over the stream, with
    /// every directory candidate's size filled in by aggregation.
    pub fn scan_events(&self, events: Vec<WalkEvent>) -> (r: (
        Vec<CleanItem>,
        Vec<ScanError>,
        usize,
    ))
        ensures
            ({
                let st = spec_scan(self.matcher, self.root@, events@);
                r.0@ == spec_aggregate_items(st.items, st.dir_bases, st.file_sizes, self.root@)
                    && r.1@ == st.errors && r.2 == st.entries_seen
            }),
    {
        let ghost all = events@;
        let mut acc = ScanAccumulator::new();
        let mut rest = events;
        proof {
            assert(all.skip(0) =~= all);
        }
        while rest.len() > 0
            invariant
                spec_scan_from(acc@, self.matcher, self.root@, rest@) == spec_scan(
                    self.matcher,
                    self.root@,
                    all,
                ),
            decreases rest@.len(),
        {
            let ghost rest0 = rest@;
            let ev = rest.remove(0);
            proof {
                assert(ev == rest0.first());
                assert(rest@ =~= rest0.drop_first());
            }
            acc.accumulate(&self.matcher, self.root.as_str(), ev);
        }
        let ScanAccumulator { mut items, errors, file_sizes, dir_bases, entries_seen } = acc;
        aggregate_sizes(&mut items, &dir_bases, &file_sizes, self.root.as_str());
        (items, errors, entries_seen)
    }
}

/// One step keeps the visit count within `[0, usize::MAX]`.
proof fn lemma_step_entries_bounds(
    st: ScanState,
    m: PatternMatcher,
    root: Seq<char>,
    ev: WalkEvent,
)
    requires
        0 <= st.entries_seen <= usize::MAX,
    ensures
        0 <= spec_step(st, m, root, ev).entries_seen <= usize::MAX,
{
}

/// The whole fold keeps the visit count within `[0, usize::MAX]`.
proof fn lemma_scan_entries_bounds(
    st: ScanState,
    m: PatternMatcher,
    root: Seq<char>,
    evs: Seq<WalkEvent>,
)
    requires
        0 <= st.entries_seen <= usize::MAX,
    ensures
        0 <= spec_scan_from(st, m, root, evs).entries_seen <= usize::MAX,
    decreases evs.len(),
{
    if evs.len() > 0 {
        lemma_step_entries_bounds(st, m, root, evs.first());
        lemma_scan_entries_bounds(spec_step(st, m, root, evs.first()), m, root, evs.drop_first());
    }
}

/// Stepping a merged state equals merging the stepped right state: the
/// step only appends at the tail.
proof fn lemma_step_merge(
    a: ScanState,
    b: ScanState,
    m: PatternMatcher,
    root: Seq<char>,
    ev: WalkEvent,
)
    requires
        0 <= a.entries_seen <= usize::MAX,
        0 <= b.entries_seen <= usize::MAX,
    ensures
        spec_step(spec_merge(a, b), m, root, ev) == spec_merge(a, spec_step(b, m, root, ev)),
{
    let lhs = spec_step(spec_merge(a, b), m, root, ev);
    let rhs = spec_merge(a, spec_step(b, m, root, ev));
    match ev {
        WalkEvent::Failure { path, message, cycle } => {
            assert(lhs.errors =~= rhs.errors);
            assert(lhs =~= rhs);
        },
        WalkEvent::Entry(entry) => {
            if entry.path@ == root {
                assert(lhs =~= rhs);
            } else {
                assert(lhs.items =~= rhs.items);
                assert(lhs.errors =~= rhs.errors);
                assert(lhs.file_sizes =~= rhs.file_sizes);
                assert(lhs.dir_bases =~= rhs.dir_bases);
                assert(lhs =~= rhs);
            }
        },
    }
}

/// Folding a concatenation folds the parts in sequence.
proof fn lemma_scan_from_append(
    st: ScanState,
    m: PatternMatcher,
    root: Seq<char>,
    evs1: Seq<WalkEvent>,
    evs2: Seq<WalkEvent>,
)
    ensures
        spec_scan_from(st, m, root, evs1 + evs2) == spec_scan_from(
            spec_scan_from(st, m, root, evs1),
            m,
            root,
            evs2,
        ),
    decreases evs1.len(),
{
    if evs1.len() == 0 {
        assert(evs1 + evs2 =~= evs2);
    } else {
        assert((evs1 + evs2).first() == evs1.first());
        assert((evs1 + evs2).drop_first() =~= evs1.drop_first() + evs2);
        lemma_scan_from_append(
            spec_step(st, m, root, evs1.first()),
            m,
            root,
            evs1.drop_first(),
            evs2,
        );
    }
}

/// Folding from a merged state equals merging the right-hand fold.
proof fn lemma_scan_from_merge(
    a: ScanState,
    b: ScanState,
    m: PatternMatcher,
    root: Seq<char>,
    evs: Seq<WalkEvent>,
)
    requires
        0 <= a.entries_seen <= usize::MAX,
        0 <= b.entries_seen <= usize::MAX,
    ensures
        spec_scan_from(spec_merge(a, b), m, root, evs) == spec_merge(
            a,
            spec_scan_from(b, m, root, evs),
        ),
    decreases evs.len(),
{
    if evs.len() > 0 {
        lemma_step_merge(a, b, m, root, evs.first());
        lemma_step_entries_bounds(b, m, root, evs.first());
        lemma_scan_from_merge(a, spec_step(b, m, root, evs.first()), m, root, evs.drop_first());
    }
}

/// Partition independence of the fold: consuming a stream in one piece
/// equals consuming its two parts separately and merging the partial
/// accumulators. With `lemma_merge_commutes`, how the stream was split
/// and in which order the parts were merged cannot change the result's
/// contents.
pub proof fn lemma_scan_partition(
    m: PatternMatcher,
    root: Seq<char>,
    evs1: Seq<WalkEvent>,
    evs2: Seq<WalkEvent>,
)
    ensures
        spec_scan(m, root, evs1 + evs2) == spec_merge(
            spec_scan(m, root, evs1),
            spec_scan(m, root, evs2),
        ),
{
    lemma_scan_from_append(empty_scan_state(), m, root, evs1, evs2);
    let s1 = spec_scan(m, root, evs1);
    lemma_scan_entries_bounds(empty_scan_state(), m, root, evs1);
    assert(spec_merge(s1, empty_scan_state()) =~= s1) by {
        assert(s1.items + Seq::<CleanItem>::empty() =~= s1.items);
        assert(s1.errors + Seq::<ScanError>::empty() =~= s1.errors);
        assert(s1.file_sizes + Seq::<(String, u64)>::empty() =~= s1.file_sizes);
        assert(s1.dir_bases + Seq::<(String, u64)>::empty() =~= s1.dir_bases);
    }
    lemma_scan_from_merge(s1, empty_scan_state(), m, root, evs2);
}

/// The accumulators of any number of workers, merged left to right.
pub open spec fn spec_merge_all(
    m: PatternMatcher,
    root: Seq<char>,
    parts: Seq<Seq<WalkEvent>>,
) -> ScanState
    decreases parts.len(),
{
    if parts.len() == 0 {
        empty_scan_state()
    } else {
        spec_merge(
            spec_scan(m, root, parts.first()),
            spec_merge_all(m, root, parts.drop_first()),
        )
    }
}

/// Partition independence for any number of workers: splitting the
/// stream into consecutive parts, scanning each independently and
/// merging the partial accumulators yields exactly what one worker
/// scanning the whole stream yields.
pub proof fn lemma_scan_partition_many(
    m: PatternMatcher,
    root: Seq<char>,
    parts: Seq<Seq<WalkEvent>>,
)
    ensures
        spec_scan(m, root, parts.flatten()) == spec_merge_all(m, root, parts),
    decreases parts.len(),
{
    if parts.len() == 0 {
        let st = spec_scan(m, root, parts.flatten());
        assert(parts.flatten() =~= Seq::<WalkEvent>::empty());
        assert(st =~= empty_scan_state());
    } else {
        lemma_scan_partition(m, root, parts.first(), parts.drop_first().flatten());
        lemma_scan_partition_many(m, root, parts.drop_first());
    }
}

/// Merging is commutative up to order: either way round, the merged
/// accumulator holds the same items, failures and size records (as
/// multisets) and the same visit count.
pub proof fn lemma_merge_commutes(a: ScanState, b: ScanState)
    ensures
        spec_merge(a, b).items.to_multiset() == spec_merge(b, a).items.to_multiset(),
        spec_merge(a, b).errors.to_multiset() == spec_merge(b, a).errors.to_multiset(),
        spec_merge(a, b).file_sizes.to_multiset() == spec_merge(b, a).file_sizes.to_multiset(),
        spec_merge(a, b).dir_bases.to_multiset() == spec_merge(b, a).dir_bases.to_multiset(),
        spec_merge(a, b).entries_seen == spec_merge(b, a).entries_seen,
{
    vstd::seq_lib::lemma_seq_union_to_multiset_commutative(a.items, b.items);
    vstd::seq_lib::lemma_seq_union_to_multiset_commutative(a.errors, b.errors);
    vstd::seq_lib::lemma_seq_union_to_multiset_commutative(a.file_sizes, b.file_sizes);
    vstd::seq_lib::lemma_seq_union_to_multiset_commutative(a.dir_bases, b.dir_bases);
}

/// The fold never adds an item whose base name an exclusion pattern
/// hits.
proof fn lemma_scan_from_not_excluded(
    st: ScanState,
    m: PatternMatcher,
    root: Seq<char>,
    evs: Seq<WalkEvent>,
)
    requires
        forall|i: int|
            0 <= i < st.items.len() ==> !spec_excluded(
                m.excludes(),
                base_name_of(#[trigger] st.items[i].path@),
            ),
    ensures
        forall|i: int|
            0 <= i < spec_scan_from(st, m, root, evs).items.len() ==> !spec_excluded(
                m.excludes(),
                base_name_of(#[trigger] spec_scan_from(st, m, root, evs).items[i].path@),
            ),
    decreases evs.len(),
{
    if evs.len() > 0 {
        let st2 = spec_step(st, m, root, evs.first());
        assert forall|i: int| 0 <= i < st2.items.len() implies !spec_excluded(
            m.excludes(),
            base_name_of(#[trigger] st2.items[i].path@),
        ) by {
            if i >= st.items.len() {
                match evs.first() {
                    WalkEvent::Failure { .. } => {},
                    WalkEvent::Entry(entry) => {
                        assert(st2.items[i] == st2.items.last());
                        assert(st2.items.last().path == entry.path);
                        assert(!spec_excluded(m.excludes(), base_name_of(entry.path@)));
                    },
                }
            }
        }
        lemma_scan_from_not_excluded(st2, m, root, evs.drop_first());
    }
}

/// Exclusion precedence: no candidate the scan fold produces has a
/// base name that an exclusion pattern hits — whatever the other
/// pattern lists would say of it. Aggregation changes only sizes, so
/// the same holds of the aggregated candidates.
pub proof fn lemma_exclusion_precedence(m: PatternMatcher, root: Seq<char>, evs: Seq<WalkEvent>)
    ensures
        forall|i: int|
            0 <= i < spec_scan(m, root, evs).items.len() ==> !spec_excluded(
                m.excludes(),
                base_name_of(#[trigger] spec_scan(m, root, evs).items[i].path@),
            ),
        ({
            let st = spec_scan(m, root, evs);
            let fin = spec_aggregate_items(st.items, st.dir_bases, st.file_sizes, root);
            forall|i: int|
                0 <= i < fin.len() ==> !spec_excluded(
                    m.excludes(),
                    base_name_of(#[trigger] fin[i].path@),
                )
        }),
{
    lemma_scan_from_not_excluded(empty_scan_state(), m, root, evs);
    let st = spec_scan(m, root, evs);
    let fin = spec_aggregate_items(st.items, st.dir_bases, st.file_sizes, root);
    assert forall|i: int| 0 <= i < fin.len() implies !spec_excluded(
        m.excludes(),
        base_name_of(#[trigger] fin[i].path@),
    ) by {
        assert(fin[i].path == st.items[i].path);
        assert(!spec_excluded(m.excludes(), base_name_of(st.items[i].path@)));
    }
}

} // verus!

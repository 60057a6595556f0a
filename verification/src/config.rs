//! Configuration of a cleaning run: the three pattern lists, operational
//! options, and safety limits, together with the rules for merging
//! command-line additions into an existing configuration.
//!
//! Reading a configuration file from disk is the embedding application's
//! concern; this module only defines the data and the merge logic.

use vstd::prelude::*;

use crate::builtin::{
    builtin_directory_texts, builtin_exclude_texts, builtin_file_texts, builtin_patterns,
};
use crate::paths::{str_contains_char, str_eq};

verus! {

/// The glob pattern lists a run is configured with.
#[derive(Debug, Clone)]
pub struct PatternConfig {
    /// Patterns matched against directory names.
    pub directories: Vec<String>,
    /// Patterns matched against file names.
    pub files: Vec<String>,
    /// Patterns whose match excludes an entry outright.
    pub exclude: Vec<String>,
}

/// Operational options of a run.
#[derive(Debug, Clone)]
pub struct OptionsConfig {
    /// Number of parallel deletion workers.
    pub parallel_threads: usize,
    /// Whether to ask for confirmation before deleting.
    pub require_confirmation: bool,
    /// Whether to show statistics after cleaning.
    pub show_statistics: bool,
    /// Whether symbolic links are left unfollowed during the scan.
    pub preserve_symlinks: bool,
}

/// Safety limits checked before a run.
#[derive(Debug, Clone)]
pub struct SafetyConfig {
    /// Whether to refuse to run inside a git repository.
    pub check_git_repo: bool,
    /// Maximum directory depth the scan descends to.
    pub max_depth: usize,
    /// Minimum free disk space, in bytes, required before cleaning.
    pub min_free_space: u64,
}

/// The whole configuration of a run.
#[derive(Debug, Clone)]
pub struct Config {
    /// Pattern lists.
    pub patterns: PatternConfig,
    /// Operational options.
    pub options: OptionsConfig,
    /// Safety limits.
    pub safety: SafetyConfig,
}

impl Default for OptionsConfig {
    /// Defaults: four workers (the embedding application may raise this
    /// to the hardware parallelism), confirmation and statistics on,
    /// symbolic links preserved.
    fn default() -> (r: Self)
        ensures
            r.parallel_threads == 4,
            r.require_confirmation,
            r.show_statistics,
            r.preserve_symlinks,
    {
        OptionsConfig {
            parallel_threads: 4,
            require_confirmation: true,
            show_statistics: true,
            preserve_symlinks: true,
        }
    }
}

impl Default for SafetyConfig {
    /// Defaults: git check on, depth 10, one gigabyte of free space.
    fn default() -> (r: Self)
        ensures
            r.check_git_repo,
            r.max_depth == 10,
            r.min_free_space == 1_000_000_000u64,
    {
        SafetyConfig { check_git_repo: true, max_depth: 10, min_free_space: 1_000_000_000 }
    }
}

impl Default for Config {
    /// The built-in pattern lists with default options and safety limits.
    fn default() -> (r: Self)
        ensures
            r.patterns.directories.deep_view() == builtin_directory_texts(),
            r.patterns.files.deep_view() == builtin_file_texts(),
            r.patterns.exclude.deep_view() == builtin_exclude_texts(),
            r.options.parallel_threads == 4,
            r.options.require_confirmation,
            r.options.show_statistics,
            r.options.preserve_symlinks,
            r.safety.check_git_repo,
            r.safety.max_depth == 10,
            r.safety.min_free_space == 1_000_000_000u64,
    {
        let set = builtin_patterns();
        Config {
            patterns: PatternConfig {
                directories: set.directories,
                files: set.files,
                exclude: set.exclude,
            },
            options: OptionsConfig::default(),
            safety: SafetyConfig::default(),
        }
    }
}

/// Is some element of `list` the text `t`?
pub open spec fn contains_text(list: Seq<Seq<char>>, t: Seq<char>) -> bool {
    list.contains(t)
}

/// Appends each element of `new` to `list` unless an equal text is
/// already present, left to right.
pub open spec fn append_unique_texts(list: Seq<Seq<char>>, new: Seq<Seq<char>>) -> Seq<Seq<char>>
    decreases new.len(),
{
    if new.len() == 0 {
        list
    } else {
        let next = if contains_text(list, new.first()) {
            list
        } else {
            list.push(new.first())
        };
        append_unique_texts(next, new.drop_first())
    }
}

/// A pattern text holding a `.` or a `*` is treated as a file pattern;
/// any other is treated as a directory pattern.
pub open spec fn is_file_like(t: Seq<char>) -> bool {
    t.contains('.') || t.contains('*')
}

/// Does `list` hold a `String` whose text is `t`?
fn contains_string(list: &Vec<String>, t: &str) -> (r: bool)
    ensures
        r == contains_text(list.deep_view(), t@),
{
    let n = list.len();
    let mut i: usize = 0;
    while i < n
        invariant
            i <= n,
            n == list.len(),
            forall|j: int| 0 <= j < i ==> list.deep_view()[j] != t@,
        decreases n - i,
    {
        if str_eq(list[i].as_str(), t) {
            proof {
                assert(list.deep_view()[i as int] == t@);
            }
            return true;
        }
        i += 1;
    }
    proof {
        if list.deep_view().contains(t@) {
            let j = choose|j: int| 0 <= j < list.deep_view().len() && list.deep_view()[j] == t@;
        }
    }
    false
}

/// `append_unique_texts` on a single text is one conditional push.
proof fn lemma_append_unique_one(list: Seq<Seq<char>>, t: Seq<char>)
    ensures
        append_unique_texts(list, seq![t]) == if contains_text(list, t) {
            list
        } else {
            list.push(t)
        },
{
    let singleton = seq![t];
    let next = if contains_text(list, t) {
        list
    } else {
        list.push(t)
    };
    assert(singleton.first() == t);
    assert(singleton.drop_first() =~= Seq::<Seq<char>>::empty());
    assert(append_unique_texts(next, Seq::<Seq<char>>::empty()) == next);
    assert(append_unique_texts(list, singleton) == append_unique_texts(
        next,
        singleton.drop_first(),
    ));
}

/// Appends `t` to `list` unless an equal text is already present.
fn push_unique(list: &mut Vec<String>, t: String)
    ensures
        final(list).deep_view() == append_unique_texts(
            old(list).deep_view(),
            seq![t@],
        ),
{
    proof {
        lemma_append_unique_one(old(list).deep_view(), t@);
    }
    if !contains_string(list, t.as_str()) {
        list.push(t);
        proof {
            assert(list.deep_view() =~= old(list).deep_view().push(t@));
        }
    }
}

impl Config {
    /// Merges command-line additions into the configuration.
    ///
    /// Exclusions are appended to the exclusion list, and inclusions to
    /// the file or directory list according to their shape, each only
    /// when no equal text is already present. When `preserve_env` is
    /// set, `.env` and `.env.example` join the exclusions the same way.
    pub fn merge_cli_args(&mut self, exclude: Vec<String>, added: Vec<String>, preserve_env: bool)
        ensures
            final(self).patterns.exclude.deep_view() == ({
                let merged = append_unique_texts(
                    old(self).patterns.exclude.deep_view(),
                    exclude.deep_view(),
                );
                if preserve_env {
                    append_unique_texts(merged, seq![".env"@, ".env.example"@])
                } else {
                    merged
                }
            }),
            final(self).patterns.files.deep_view() == append_unique_texts(
                old(self).patterns.files.deep_view(),
                added.deep_view().filter(|t: Seq<char>| is_file_like(t)),
            ),
            final(self).patterns.directories.deep_view() == append_unique_texts(
                old(self).patterns.directories.deep_view(),
                added.deep_view().filter(|t: Seq<char>| !is_file_like(t)),
            ),
            final(self).options == old(self).options,
            final(self).safety == old(self).safety,
    {
        let ghost exclude_texts = exclude.deep_view();
        let ghost added_texts = added.deep_view();
        let ghost old_exclude = self.patterns.exclude.deep_view();
        let ghost old_files = self.patterns.files.deep_view();
        let ghost old_dirs = self.patterns.directories.deep_view();

        let mut exclude = exclude;
        let n = exclude.len();
        let mut i: usize = 0;
        proof {
            assert(exclude_texts.skip(0) =~= exclude_texts);
        }
        while i < n
            invariant
                i <= n,
                n == exclude.len(),
                exclude.deep_view() == exclude_texts,
                append_unique_texts(self.patterns.exclude.deep_view(), exclude_texts.skip(i as int))
                    == append_unique_texts(old_exclude, exclude_texts),
                self.patterns.files.deep_view() == old_files,
                self.patterns.directories.deep_view() == old_dirs,
                self.options == old(self).options,
                self.safety == old(self).safety,
            decreases n - i,
        {
            let ghost before = self.patterns.exclude.deep_view();
            let p = exclude[i].clone();
            proof {
                assert(p@ == exclude_texts.skip(i as int).first());
            }
            push_unique(&mut self.patterns.exclude, p);
            proof {
                lemma_append_unique_single_step(
                    before,
                    self.patterns.exclude.deep_view(),
                    exclude_texts,
                    i as int,
                );
            }
            i += 1;
        }
        proof {
            assert(exclude_texts.skip(n as int) =~= Seq::<Seq<char>>::empty());
        }

        let n = added.len();
        let mut i: usize = 0;
        proof {
            assert(added_texts.skip(0) =~= added_texts);
        }
        while i < n
            invariant
                i <= n,
                n == added.len(),
                added.deep_view() == added_texts,
                append_unique_texts(
                    self.patterns.files.deep_view(),
                    added_texts.skip(i as int).filter(|t: Seq<char>| is_file_like(t)),
                ) == append_unique_texts(
                    old_files,
                    added_texts.filter(|t: Seq<char>| is_file_like(t)),
                ),
                append_unique_texts(
                    self.patterns.directories.deep_view(),
                    added_texts.skip(i as int).filter(|t: Seq<char>| !is_file_like(t)),
                ) == append_unique_texts(
                    old_dirs,
                    added_texts.filter(|t: Seq<char>| !is_file_like(t)),
                ),
                self.patterns.exclude.deep_view() == append_unique_texts(
                    old_exclude,
                    exclude_texts,
                ),
                self.options == old(self).options,
                self.safety == old(self).safety,
            decreases n - i,
        {
            let ghost files_before = self.patterns.files.deep_view();
            let ghost dirs_before = self.patterns.directories.deep_view();
            let p = added[i].clone();
            proof {
                assert(p@ == added_texts.skip(i as int).first());
            }
            let file_like = str_contains_char(p.as_str(), '.') || str_contains_char(
                p.as_str(),
                '*',
            );
            if file_like {
                push_unique(&mut self.patterns.files, p);
            } else {
                push_unique(&mut self.patterns.directories, p);
            }
            proof {
                lemma_filter_step(files_before, self.patterns.files.deep_view(), added_texts, i as int, |t: Seq<char>| is_file_like(t));
                lemma_filter_step(dirs_before, self.patterns.directories.deep_view(), added_texts, i as int, |t: Seq<char>| !is_file_like(t));
            }
            i += 1;
        }
        proof {
            assert(added_texts.skip(n as int) =~= Seq::<Seq<char>>::empty());
            assert(added_texts.skip(n as int).filter(|t: Seq<char>| is_file_like(t))
                =~= Seq::<Seq<char>>::empty()) by {
                reveal(Seq::filter);
            }
            assert(added_texts.skip(n as int).filter(|t: Seq<char>| !is_file_like(t))
                =~= Seq::<Seq<char>>::empty()) by {
                reveal(Seq::filter);
            }
        }

        if preserve_env {
            let ghost before = self.patterns.exclude.deep_view();
            push_unique(&mut self.patterns.exclude, String::from_str(".env"));
            let ghost mid = self.patterns.exclude.deep_view();
            push_unique(&mut self.patterns.exclude, String::from_str(".env.example"));
            proof {
                let pair = seq![".env"@, ".env.example"@];
                lemma_append_unique_one(before, ".env"@);
                lemma_append_unique_one(mid, ".env.example"@);
                assert(pair.first() == ".env"@);
                assert(pair.drop_first() =~= seq![".env.example"@]);
                let next = if contains_text(before, pair.first()) {
                    before
                } else {
                    before.push(pair.first())
                };
                assert(append_unique_texts(before, pair) == append_unique_texts(
                    next,
                    pair.drop_first(),
                ));
                assert(next == mid);
                assert(append_unique_texts(before, pair) == self.patterns.exclude.deep_view());
            }
        }
    }
}

/// One step of `append_unique_texts`: consuming element `i` of `new`
/// turns the pending suffix from `skip(i)` into `skip(i + 1)`.
proof fn lemma_append_unique_single_step(
    before: Seq<Seq<char>>,
    after: Seq<Seq<char>>,
    new: Seq<Seq<char>>,
    i: int,
)
    requires
        0 <= i < new.len(),
        after == append_unique_texts(before, seq![new[i]]),
    ensures
        append_unique_texts(before, new.skip(i)) == append_unique_texts(after, new.skip(i + 1)),
{
    lemma_append_unique_one(before, new[i]);
    let suffix = new.skip(i);
    assert(suffix.first() == new[i]);
    assert(suffix.drop_first() =~= new.skip(i + 1));
    let next = if contains_text(before, suffix.first()) {
        before
    } else {
        before.push(suffix.first())
    };
    assert(append_unique_texts(before, suffix) == append_unique_texts(
        next,
        suffix.drop_first(),
    ));
    assert(next == after);
}

/// One step of the filtered form of `append_unique_texts`, as used for
/// the include lists: consuming element `i` of `new` advances the
/// pending filtered suffix, whether or not the element passes `pred`.
proof fn lemma_filter_step(
    before: Seq<Seq<char>>,
    after: Seq<Seq<char>>,
    new: Seq<Seq<char>>,
    i: int,
    pred: spec_fn(Seq<char>) -> bool,
)
    requires
        0 <= i < new.len(),
        pred(new[i]) ==> after == append_unique_texts(before, seq![new[i]]),
        !pred(new[i]) ==> after == before,
    ensures
        append_unique_texts(before, new.skip(i).filter(pred)) == append_unique_texts(
            after,
            new.skip(i + 1).filter(pred),
        ),
{
    let suffix = new.skip(i);
    let rest = new.skip(i + 1);
    let single = seq![new[i]];
    assert(suffix =~= single + rest);
    Seq::filter_distributes_over_add(single, rest, pred);
    assert(single.drop_last() =~= Seq::<Seq<char>>::empty());
    assert(Seq::<Seq<char>>::empty().filter(pred) =~= Seq::<Seq<char>>::empty()) by {
        reveal(Seq::filter);
    }
    assert(single.filter(pred) =~= if pred(new[i]) {
        single
    } else {
        Seq::<Seq<char>>::empty()
    }) by {
        reveal(Seq::filter);
        assert(single.last() == new[i]);
        assert(single.drop_last().filter(pred) =~= Seq::<Seq<char>>::empty());
    }
    if pred(new[i]) {
        assert(suffix.filter(pred) =~= single + rest.filter(pred));
        let merged = single + rest.filter(pred);
        assert(merged.first() == new[i]);
        assert(merged.drop_first() =~= rest.filter(pred));
        lemma_append_unique_one(before, new[i]);
        let next = if contains_text(before, merged.first()) {
            before
        } else {
            before.push(merged.first())
        };
        assert(append_unique_texts(before, merged) == append_unique_texts(
            next,
            merged.drop_first(),
        ));
        assert(next == after);
        assert(append_unique_texts(before, suffix.filter(pred)) == append_unique_texts(
            after,
            rest.filter(pred),
        ));
    } else {
        assert(suffix.filter(pred) =~= rest.filter(pred));
    }
}

} // verus!

//! Compiles the configured glob pattern lists into a matcher and
//! evaluates file-system entry names against them.
//!
//! Evaluation checks the exclusion list first: an excluded name never
//! matches, whatever the other lists say. Otherwise the directory list
//! is scanned in declaration order when the entry may be a directory,
//! then the file list when it may be a file; a symbolic link or an
//! entry of unknown type is tried against both. The first pattern that
//! matches wins, and its position is the match's priority.
//!
//! The glob language itself is the `glob` crate's; its compilation and
//! matching stand behind two trusted wrappers below.

use vstd::prelude::*;

use crate::builtin::{category_of, get_category};
use crate::paths::{base_name, base_name_of};
use crate::types::{CleanError, PatternCategory, PatternMatch, PatternSource};
use crate::config::PatternConfig;

verus! {

/// Whether the glob crate accepts `pattern` as a valid pattern.
pub uninterp spec fn glob_ok(pattern: Seq<char>) -> bool;

/// Whether the compiled form of `pattern` matches `name`, under the
/// glob crate's default match options.
pub uninterp spec fn glob_match(pattern: Seq<char>, name: Seq<char>) -> bool;

/// A pattern hits a name when it compiles and its glob matches the name.
pub open spec fn pattern_hits(pattern: Seq<char>, name: Seq<char>) -> bool {
    glob_ok(pattern) && glob_match(pattern, name)
}

/// Relies on `glob::Pattern::new`: whether a pattern text compiles is a
/// function of the text alone; on failure the error's rendering is
/// handed back.
#[verifier::external_body]
fn compile_error_for(pattern: &str) -> (r: Option<String>)
    ensures
        r is None <==> glob_ok(pattern@),
{
    match glob::Pattern::new(pattern) {
        Ok(_) => None,
        Err(e) => Some(e.to_string()),
    }
}

/// Relies on `glob::Pattern::new` and `glob::Pattern::matches`: whether
/// a compiled pattern matches a name under default options is a
/// function of the two texts alone; a text that does not compile
/// matches nothing.
#[verifier::external_body]
fn glob_match_name(pattern: &str, name: &str) -> (r: bool)
    ensures
        r == (glob_ok(pattern@) && glob_match(pattern@, name@)),
{
    match glob::Pattern::new(pattern) {
        Ok(p) => p.matches(name),
        Err(_) => false,
    }
}

/// What a caller may already know about an entry's type.
#[derive(Debug, Clone, Copy, PartialEq, Eq, Structural)]
pub enum TypeHint {
    /// The entry is a directory.
    Dir,
    /// The entry is a regular file.
    File,
    /// The entry is a symbolic link; its target's type is unknown, so
    /// it is tried against both pattern lists.
    Symlink,
    /// The entry's type could not be determined.
    Unknown,
}

/// Is the entry tried against the directory pattern list?
pub open spec fn dir_candidate(hint: Option<TypeHint>) -> bool {
    match hint {
        None => true,
        Some(TypeHint::Dir) => true,
        Some(TypeHint::Symlink) => true,
        Some(TypeHint::Unknown) => true,
        Some(TypeHint::File) => false,
    }
}

/// Is the entry tried against the file pattern list?
pub open spec fn file_candidate(hint: Option<TypeHint>) -> bool {
    match hint {
        None => true,
        Some(TypeHint::File) => true,
        Some(TypeHint::Symlink) => true,
        Some(TypeHint::Unknown) => true,
        Some(TypeHint::Dir) => false,
    }
}

/// Does some exclusion pattern hit the name?
pub open spec fn spec_excluded(excludes: Seq<String>, name: Seq<char>) -> bool {
    exists|i: int| 0 <= i < excludes.len() && pattern_hits(excludes[i]@, name)
}

/// The index of the first pattern at or after `i` that hits `name`.
pub open spec fn first_hit_from(
    ps: Seq<(String, PatternCategory)>,
    name: Seq<char>,
    i: int,
) -> Option<int>
    decreases ps.len() - i,
{
    if i < 0 || i >= ps.len() {
        None
    } else if pattern_hits(ps[i].0@, name) {
        Some(i)
    } else {
        first_hit_from(ps, name, i + 1)
    }
}

/// The index of the first pattern in the list that hits `name`.
pub open spec fn first_hit(ps: Seq<(String, PatternCategory)>, name: Seq<char>) -> Option<int> {
    first_hit_from(ps, name, 0)
}

/// What evaluating `path` against the three lists yields: `None` for an
/// excluded or empty base name, otherwise the first hit of the
/// directory list (when the hint admits a directory), otherwise the
/// first hit of the file list (when the hint admits a file).
pub open spec fn spec_evaluate(
    dirs: Seq<(String, PatternCategory)>,
    files: Seq<(String, PatternCategory)>,
    excludes: Seq<String>,
    path: Seq<char>,
    hint: Option<TypeHint>,
) -> Option<PatternMatch> {
    let name = base_name_of(path);
    if spec_excluded(excludes, name) || name.len() == 0 {
        None
    } else {
        let dir_res = if dir_candidate(hint) {
            first_hit(dirs, name)
        } else {
            None
        };
        match dir_res {
            Some(i) => Some(
                PatternMatch {
                    pattern: dirs[i].0,
                    priority: i as usize,
                    source: PatternSource::Config,
                    category: dirs[i].1,
                },
            ),
            None => {
                let file_res = if file_candidate(hint) {
                    first_hit(files, name)
                } else {
                    None
                };
                match file_res {
                    Some(i) => Some(
                        PatternMatch {
                            pattern: files[i].0,
                            priority: i as usize,
                            source: PatternSource::Config,
                            category: files[i].1,
                        },
                    ),
                    None => None,
                }
            },
        }
    }
}

/// Every text in the list is a valid glob pattern.
pub open spec fn all_ok(texts: Seq<Seq<char>>) -> bool {
    forall|i: int| 0 <= i < texts.len() ==> glob_ok(#[trigger] texts[i])
}

/// Each pattern paired with its category.
pub open spec fn with_categories(ps: Seq<String>) -> Seq<(String, PatternCategory)> {
    Seq::new(ps.len(), |i: int| (ps[i], category_of(ps[i]@)))
}

/// A matcher holding the compiled pattern lists. It performs no I/O and
/// can be shared read-only once built.
#[derive(Debug, Clone)]
pub struct PatternMatcher {
    directory_patterns: Vec<(String, PatternCategory)>,
    file_patterns: Vec<(String, PatternCategory)>,
    exclude_patterns: Vec<String>,
}

impl PatternMatcher {
    /// The directory pattern list with its categories.
    pub closed spec fn dirs(self) -> Seq<(String, PatternCategory)> {
        self.directory_patterns@
    }

    /// The file pattern list with its categories.
    pub closed spec fn files(self) -> Seq<(String, PatternCategory)> {
        self.file_patterns@
    }

    /// The exclusion pattern list.
    pub closed spec fn excludes(self) -> Seq<String> {
        self.exclude_patterns@
    }

    /// Compiles a configuration's pattern lists into a matcher.
    ///
    /// Fails, with the offending pattern's error text, exactly when
    /// some configured text is not a valid glob pattern.
    pub fn new(config: &PatternConfig) -> (r: Result<PatternMatcher, CleanError>)
        ensures
            r is Ok <==> all_ok(config.directories.deep_view()) && all_ok(
                config.files.deep_view(),
            ) && all_ok(config.exclude.deep_view()),
            (match r {
                Ok(m) => m.dirs() == with_categories(config.directories@) && m.files()
                    == with_categories(config.files@) && m.excludes() == config.exclude@,
                Err(e) => e is PatternError,
            }),
    {
        let directory_patterns = match Self::compile_list(&config.directories) {
            Ok(v) => v,
            Err(e) => {
                return Err(e);
            },
        };
        let file_patterns = match Self::compile_list(&config.files) {
            Ok(v) => v,
            Err(e) => {
                return Err(e);
            },
        };
        let exclude_patterns = match Self::check_list(&config.exclude) {
            Ok(v) => v,
            Err(e) => {
                return Err(e);
            },
        };
        Ok(PatternMatcher { directory_patterns, file_patterns, exclude_patterns })
    }

    /// Checks each text and pairs it with its category.
    fn compile_list(ps: &Vec<String>) -> (r: Result<Vec<(String, PatternCategory)>, CleanError>)
        ensures
            r is Ok <==> all_ok(ps.deep_view()),
            (match r {
                Ok(v) => v@ == with_categories(ps@),
                Err(e) => e is PatternError,
            }),
    {
        let n = ps.len();
        let mut out: Vec<(String, PatternCategory)> = Vec::new();
        let mut i: usize = 0;
        while i < n
            invariant
                i <= n,
                n == ps.len(),
                out@ =~= with_categories(ps@).take(i as int),
                forall|j: int| 0 <= j < i ==> glob_ok(#[trigger] ps.deep_view()[j]),
            decreases n - i,
        {
            let text = &ps[i];
            if let Some(msg) = compile_error_for(text.as_str()) {
                proof {
                    assert(!glob_ok(ps.deep_view()[i as int]));
                }
                return Err(CleanError::PatternError(msg));
            }
            let category = get_category(text.as_str());
            out.push((text.clone(), category));
            proof {
                assert(out@ =~= with_categories(ps@).take(i + 1int));
            }
            i += 1;
        }
        proof {
            assert(with_categories(ps@).take(n as int) =~= with_categories(ps@));
        }
        Ok(out)
    }

    /// Checks each text of an exclusion list.
    fn check_list(ps: &Vec<String>) -> (r: Result<Vec<String>, CleanError>)
        ensures
            r is Ok <==> all_ok(ps.deep_view()),
            (match r {
                Ok(v) => v@ == ps@,
                Err(e) => e is PatternError,
            }),
    {
        let n = ps.len();
        let mut out: Vec<String> = Vec::new();
        let mut i: usize = 0;
        while i < n
            invariant
                i <= n,
                n == ps.len(),
                out@ =~= ps@.take(i as int),
                forall|j: int| 0 <= j < i ==> glob_ok(#[trigger] ps.deep_view()[j]),
            decreases n - i,
        {
            let text = &ps[i];
            if let Some(msg) = compile_error_for(text.as_str()) {
                proof {
                    assert(!glob_ok(ps.deep_view()[i as int]));
                }
                return Err(CleanError::PatternError(msg));
            }
            out.push(text.clone());
            proof {
                assert(out@ =~= ps@.take(i + 1int));
            }
            i += 1;
        }
        proof {
            assert(ps@.take(n as int) =~= ps@);
        }
        Ok(out)
    }

    /// Does some exclusion pattern hit `name`?
    fn is_excluded_name(&self, name: &str) -> (r: bool)
        ensures
            r == spec_excluded(self.excludes(), name@),
    {
        let n = self.exclude_patterns.len();
        let mut i: usize = 0;
        while i < n
            invariant
                i <= n,
                n == self.exclude_patterns.len(),
                forall|j: int| 0 <= j < i ==> !pattern_hits(
                    #[trigger] self.excludes()[j]@,
                    name@,
                ),
            decreases n - i,
        {
            if glob_match_name(self.exclude_patterns[i].as_str(), name) {
                return true;
            }
            i += 1;
        }
        false
    }

    /// The first pattern of `ps` hitting `name`, if any.
    fn first_match(ps: &Vec<(String, PatternCategory)>, name: &str) -> (r: Option<usize>)
        ensures
            (match r {
                Some(i) => first_hit(ps@, name@) == Some(i as int) && i < ps@.len(),
                None => first_hit(ps@, name@) is None,
            }),
    {
        let n = ps.len();
        let mut i: usize = 0;
        while i < n
            invariant
                i <= n,
                n == ps.len(),
                forall|j: int| 0 <= j < i ==> !pattern_hits(#[trigger] ps@[j].0@, name@),
            decreases n - i,
        {
            if glob_match_name(ps[i].0.as_str(), name) {
                proof {
                    lemma_first_hit_at(ps@, name@, i as int);
                }
                return Some(i);
            }
            i += 1;
        }
        proof {
            lemma_first_hit_none(ps@, name@, 0);
        }
        None
    }

    /// Evaluates a path against the pattern lists, with a type hint.
    ///
    /// Returns the first hit as spelled out by `spec_evaluate`; the
    /// hit's priority is its position in its list.
    pub fn matches_with_type(&self, path: &str, hint: Option<TypeHint>) -> (r: Option<
        PatternMatch,
    >)
        ensures
            r == spec_evaluate(self.dirs(), self.files(), self.excludes(), path@, hint),
    {
        let name = base_name(path);
        if self.is_excluded_name(name.as_str()) {
            return None;
        }
        if name.as_str().unicode_len() == 0 {
            return None;
        }
        let try_dirs = match hint {
            None => true,
            Some(TypeHint::File) => false,
            Some(_) => true,
        };
        let try_files = match hint {
            None => true,
            Some(TypeHint::Dir) => false,
            Some(_) => true,
        };
        if try_dirs {
            if let Some(i) = Self::first_match(&self.directory_patterns, name.as_str()) {
                let entry = &self.directory_patterns[i];
                return Some(
                    PatternMatch {
                        pattern: entry.0.clone(),
                        priority: i,
                        source: PatternSource::Config,
                        category: entry.1,
                    },
                );
            }
        }
        if try_files {
            if let Some(i) = Self::first_match(&self.file_patterns, name.as_str()) {
                let entry = &self.file_patterns[i];
                return Some(
                    PatternMatch {
                        pattern: entry.0.clone(),
                        priority: i,
                        source: PatternSource::Config,
                        category: entry.1,
                    },
                );
            }
        }
        None
    }

    /// Evaluates a path with no type hint: the name is tried against
    /// both pattern lists.
    pub fn matches(&self, path: &str) -> (r: Option<PatternMatch>)
        ensures
            r == spec_evaluate(self.dirs(), self.files(), self.excludes(), path@, None),
    {
        self.matches_with_type(path, None)
    }

    /// Adds match patterns at run time, after the ones already present.
    ///
    /// A text holding a `.` or a `*` joins the file list, any other the
    /// directory list. Texts are checked in order; the first invalid
    /// one stops the call, the ones before it staying added.
    pub fn add_match_patterns(&mut self, patterns: &Vec<String>) -> (r: Result<(), CleanError>)
        ensures
            r is Ok <==> all_ok(patterns.deep_view()),
            (match r {
                Ok(()) => final(self).dirs() == old(self).dirs() + with_categories(
                    patterns@.filter(|p: String| !crate::config::is_file_like(p@)),
                ) && final(self).files() == old(self).files() + with_categories(
                    patterns@.filter(|p: String| crate::config::is_file_like(p@)),
                ),
                Err(e) => e is PatternError,
            }),
            final(self).excludes() == old(self).excludes(),
    {
        let n = patterns.len();
        let mut i: usize = 0;
        while i < n
            invariant
                i <= n,
                n == patterns.len(),
                self.dirs() =~= old(self).dirs() + with_categories(
                    patterns@.take(i as int).filter(|p: String| !crate::config::is_file_like(p@)),
                ),
                self.files() =~= old(self).files() + with_categories(
                    patterns@.take(i as int).filter(|p: String| crate::config::is_file_like(p@)),
                ),
                self.excludes() == old(self).excludes(),
                forall|j: int| 0 <= j < i ==> glob_ok(#[trigger] patterns.deep_view()[j]),
            decreases n - i,
    {
            let text = &patterns[i];
            if let Some(msg) = compile_error_for(text.as_str()) {
                proof {
                    assert(!glob_ok(patterns.deep_view()[i as int]));
                }
                return Err(CleanError::PatternError(msg));
            }
            let category = get_category(text.as_str());
            let file_like = crate::paths::str_contains_char(text.as_str(), '.')
                || crate::paths::str_contains_char(text.as_str(), '*');
            proof {
                lemma_take_filter_step(
                    patterns@,
                    i as int,
                    |p: String| crate::config::is_file_like(p@),
                );
                lemma_take_filter_step(
                    patterns@,
                    i as int,
                    |p: String| !crate::config::is_file_like(p@),
                );
            }
            if file_like {
                self.file_patterns.push((text.clone(), category));
            } else {
                self.directory_patterns.push((text.clone(), category));
            }
            i += 1;
        }
        proof {
            assert(patterns@.take(n as int) =~= patterns@);
        }
        Ok(())
    }

    /// Adds exclusion patterns at run time.
    ///
    /// Texts are checked in order; the first invalid one stops the
    /// call, the ones before it staying added.
    pub fn add_exclude_patterns(&mut self, patterns: &Vec<String>) -> (r: Result<(), CleanError>)
        ensures
            r is Ok <==> all_ok(patterns.deep_view()),
            (match r {
                Ok(()) => final(self).excludes() == old(self).excludes() + patterns@,
                Err(e) => e is PatternError,
            }),
            final(self).dirs() == old(self).dirs(),
            final(self).files() == old(self).files(),
    {
        let n = patterns.len();
        let mut i: usize = 0;
        while i < n
            invariant
                i <= n,
                n == patterns.len(),
                self.excludes() =~= old(self).excludes() + patterns@.take(i as int),
                self.dirs() == old(self).dirs(),
                self.files() == old(self).files(),
                forall|j: int| 0 <= j < i ==> glob_ok(#[trigger] patterns.deep_view()[j]),
            decreases n - i,
        {
            let text = &patterns[i];
            if let Some(msg) = compile_error_for(text.as_str()) {
                proof {
                    assert(!glob_ok(patterns.deep_view()[i as int]));
                }
                return Err(CleanError::PatternError(msg));
            }
            self.exclude_patterns.push(text.clone());
            i += 1;
        }
        proof {
            assert(patterns@.take(n as int) =~= patterns@);
        }
        Ok(())
    }
}

/// When positions `0..i` miss and position `i` hits, the first hit is `i`.
proof fn lemma_first_hit_at(ps: Seq<(String, PatternCategory)>, name: Seq<char>, i: int)
    requires
        0 <= i < ps.len(),
        forall|j: int| 0 <= j < i ==> !pattern_hits(#[trigger] ps[j].0@, name),
        pattern_hits(ps[i].0@, name),
    ensures
        first_hit(ps, name) == Some(i),
{
    lemma_first_hit_skip(ps, name, 0, i);
}

/// When every position misses, there is no first hit.
proof fn lemma_first_hit_none(ps: Seq<(String, PatternCategory)>, name: Seq<char>, k: int)
    requires
        0 <= k <= ps.len(),
        forall|j: int| 0 <= j < ps.len() ==> !pattern_hits(#[trigger] ps[j].0@, name),
    ensures
        first_hit_from(ps, name, k) is None,
    decreases ps.len() - k,
{
    if k < ps.len() {
        lemma_first_hit_none(ps, name, k + 1);
    }
}

/// Scanning may start at `i` when positions `k..i` all miss.
proof fn lemma_first_hit_skip(ps: Seq<(String, PatternCategory)>, name: Seq<char>, k: int, i: int)
    requires
        0 <= k <= i < ps.len(),
        forall|j: int| k <= j < i ==> !pattern_hits(#[trigger] ps[j].0@, name),
        pattern_hits(ps[i].0@, name),
    ensures
        first_hit_from(ps, name, k) == Some(i),
    decreases i - k,
{
    if k < i {
        lemma_first_hit_skip(ps, name, k + 1, i);
    }
}

/// Extending a taken prefix by one element extends its filtered form by
/// the element exactly when the predicate admits it.
proof fn lemma_take_filter_step(ps: Seq<String>, i: int, pred: spec_fn(String) -> bool)
    requires
        0 <= i < ps.len(),
    ensures
        ps.take(i + 1).filter(pred) == if pred(ps[i]) {
            ps.take(i).filter(pred).push(ps[i])
        } else {
            ps.take(i).filter(pred)
        },
{
    let prefix = ps.take(i + 1);
    assert(prefix.drop_last() =~= ps.take(i));
    assert(prefix.last() == ps[i]);
    assert(prefix.filter(pred) == if pred(prefix.last()) {
        prefix.drop_last().filter(pred).push(prefix.last())
    } else {
        prefix.drop_last().filter(pred)
    }) by {
        reveal(Seq::filter);
    }
}

} // verus!

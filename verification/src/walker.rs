//! What the filesystem walk produces.
//!
//! The walk itself (directory traversal, `.gitignore`, parallel reads)
//! is I/O and lives in the application; it hands every processed file to
//! its caller as a [`FileChange`].

use vstd::prelude::*;
use crate::text::{str_eq, copy_str, push_str};
use crate::error::{Error, Result};
use crate::scoped::{path_match, path_matches};

verus! {

/// One file processed by the walker, changed or not.
#[derive(Debug, Clone)]
pub struct FileChange {
    pub path: String,
    pub before: String,
    pub after: String,
    /// Indices of the rules that changed this file, in the order they ran.
    pub rules_fired: Vec<usize>,
}

impl FileChange {
    /// `true` when the rewrite produced different text.
    pub fn changed(&self) -> (r: bool)
        ensures
            r == (self.before@ != self.after@),
    {
        !str_eq(self.before.as_str(), self.after.as_str())
    }
}

/// The message of a filter glob that does not compile.
pub open spec fn invalid_glob_text(pattern: Seq<char>, problem: Seq<char>) -> Seq<char> {
    "invalid glob `"@ + pattern + "`: "@ + problem
}

/// Whether one of the globs `ps[i..]` matches `path`, trying them in
/// order (`hit` is what a match gives, the opposite what none gives); the
/// first glob reached that does not compile is an error.
pub open spec fn first_glob_hit(ps: Seq<Seq<char>>, path: Seq<char>, i: int, hit: bool) -> core::result::Result<bool, Seq<char>>
    decreases ps.len() - i,
{
    if i < 0 || i >= ps.len() {
        Ok(!hit)
    } else {
        match path_match(ps[i], path) {
            Err(problem) => Err(invalid_glob_text(ps[i], problem)),
            Ok(true) => Ok(hit),
            Ok(false) => first_glob_hit(ps, path, i + 1, hit),
        }
    }
}

/// Whether a file passes the walk's filters: some glob of `only` matches
/// it (when there are any), and no glob of `exclude` does.
pub open spec fn passes_filters(path: Seq<char>, only: Seq<Seq<char>>, exclude: Seq<Seq<char>>) -> core::result::Result<bool, Seq<char>> {
    if only.len() > 0 {
        match first_glob_hit(only, path, 0, true) {
            Ok(true) => first_glob_hit(exclude, path, 0, false),
            other => other,
        }
    } else {
        first_glob_hit(exclude, path, 0, false)
    }
}

fn glob_hit(ps: &Vec<String>, path: &str, hit: bool) -> (r: Result<bool>)
    ensures
        match first_glob_hit(crate::text::string_views(ps@), path@, 0, hit) {
            Ok(b) => r == Ok::<bool, Error>(b),
            Err(m) => r matches Err(Error::Config(x)) && x@ == m,
        },
{
    let ghost pv = crate::text::string_views(ps@);
    let mut i: usize = 0;
    while i < ps.len()
        invariant
            pv == crate::text::string_views(ps@),
            i <= ps@.len(),
            first_glob_hit(pv, path@, 0, hit) == first_glob_hit(pv, path@, i as int, hit),
        decreases ps@.len() - i,
    {
        assert(pv[i as int] == ps@[i as int]@);
        match path_matches(ps[i].as_str(), path) {
            Err(problem) => {
                let mut m = copy_str("invalid glob `");
                push_str(&mut m, ps[i].as_str());
                push_str(&mut m, "`: ");
                push_str(&mut m, problem.as_str());
                return Err(Error::Config(m));
            },
            Ok(true) => return Ok(hit),
            Ok(false) => {},
        }
        i = i + 1;
    }
    Ok(!hit)
}

/// Whether a directly named file passes the walk's filter globs
/// (`.gitignore` does not apply to it); an invalid glob reached while
/// deciding is a configuration error.
pub fn file_matches_filters(path: &str, only: &Vec<String>, exclude: &Vec<String>) -> (r: Result<bool>)
    ensures
        match passes_filters(path@, crate::text::string_views(only@), crate::text::string_views(exclude@)) {
            Ok(b) => r == Ok::<bool, Error>(b),
            Err(m) => r matches Err(Error::Config(x)) && x@ == m,
        },
{
    if only.len() > 0 {
        match glob_hit(only, path, true) {
            Ok(true) => {},
            other => return other,
        }
    }
    glob_hit(exclude, path, false)
}

/// Some glob of `ps[i..]` matches `path`.
pub open spec fn some_glob_matches(ps: Seq<Seq<char>>, path: Seq<char>, i: int) -> bool {
    exists|j: int| i <= j < ps.len() && #[trigger] path_match(ps[j], path) == Ok::<bool, Seq<char>>(true)
}

/// Every glob of `ps` can be used on `path`.
pub open spec fn globs_usable(ps: Seq<Seq<char>>, path: Seq<char>) -> bool {
    forall|j: int| 0 <= j < ps.len() ==> (#[trigger] path_match(ps[j], path)) is Ok
}

proof fn lemma_first_glob_hit_any(ps: Seq<Seq<char>>, path: Seq<char>, i: int, hit: bool)
    requires
        0 <= i,
        globs_usable(ps, path),
    ensures
        first_glob_hit(ps, path, i, hit) == Ok::<bool, Seq<char>>(if some_glob_matches(ps, path, i) { hit } else { !hit }),
    decreases ps.len() - i,
{
    if i < ps.len() {
        assert(path_match(ps[i], path) is Ok);
        lemma_first_glob_hit_any(ps, path, i + 1, hit);
        if path_match(ps[i], path) == Ok::<bool, Seq<char>>(true) {
            assert(some_glob_matches(ps, path, i));
        } else {
            if some_glob_matches(ps, path, i) {
                let j = choose|j: int| i <= j < ps.len() && #[trigger] path_match(ps[j], path) == Ok::<bool, Seq<char>>(true);
                assert(j != i);
                assert(some_glob_matches(ps, path, i + 1));
            }
            if some_glob_matches(ps, path, i + 1) {
                let j = choose|j: int| i + 1 <= j < ps.len() && #[trigger] path_match(ps[j], path) == Ok::<bool, Seq<char>>(true);
                assert(some_glob_matches(ps, path, i));
            }
        }
    }
}

/// With globs that all compile, the order of the globs does not matter:
/// a file passes exactly when some `only` glob matches it (or there are
/// none) and no `exclude` glob does.
pub proof fn law_filters_test_every_glob(path: Seq<char>, only: Seq<Seq<char>>, exclude: Seq<Seq<char>>)
    requires
        globs_usable(only, path),
        globs_usable(exclude, path),
    ensures
        passes_filters(path, only, exclude) == Ok::<bool, Seq<char>>(
            (only.len() == 0 || some_glob_matches(only, path, 0)) && !some_glob_matches(exclude, path, 0)),
{
    lemma_first_glob_hit_any(only, path, 0, true);
    lemma_first_glob_hit_any(exclude, path, 0, false);
}

} // verus!

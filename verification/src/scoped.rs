//! Restricting a rule to part of the tree with a glob.
//!
//! The script clause `in "<glob>"` narrows a rule to the paths the glob
//! matches. Globs are globset globs with `literal_separator` on: `*`
//! stops at a path separator and `**` crosses directories.

use vstd::prelude::*;
use crate::text::{copy_str, push_str};
use crate::error::{Error, Result};
use crate::rules::{Rule, rule_relevant, rule_apply, rule_prefilter, rule_describe};
use crate::operation::Operation;

verus! {

/// Globs are at most this many characters long. globset builds its
/// literal-prefix and literal-suffix matchers with aho-corasick, whose
/// state count has to stay below `i32::MAX`; a literal of this length
/// keeps it there.
pub const GLOB_LIMIT: usize = 0x1000_0000;

/// `pattern` is short enough to hand to globset.
pub open spec fn glob_fits(pattern: Seq<char>) -> bool {
    pattern.len() < GLOB_LIMIT
}

/// The message globset gives when `pattern` (with `literal_separator`
/// on) cannot become a matcher: the parse error of `GlobBuilder::build`,
/// or the error `GlobSetBuilder::build` returns when the compiled regex
/// would exceed its size limit; `None` when it builds.
pub uninterp spec fn glob_problem(pattern: Seq<char>) -> Option<Seq<char>>;

/// Whether the glob set of the one glob `pattern` (with
/// `literal_separator` on) matches `path`; `None` when it does not build.
pub uninterp spec fn glob_match(pattern: Seq<char>, path: Seq<char>) -> Option<bool>;

/// `GlobBuilder::build` with `literal_separator(true)`, then
/// `GlobSetBuilder::build` of that one glob: `None` when both succeed,
/// else the error's message, as `glob_problem` names it.
#[verifier::external_body]
fn glob_error(pattern: &str) -> (r: Option<String>)
    requires
        glob_fits(pattern@),
    ensures
        match glob_problem(pattern@) {
            Some(m) => r matches Some(s) && s@ == m,
            None => r is None,
        },
{
    match globset::GlobBuilder::new(pattern).literal_separator(true).build() {
        Err(e) => Some(e.to_string()),
        Ok(glob) => match globset::GlobSetBuilder::new().add(glob).build() {
            Ok(_) => None,
            Err(e) => Some(e.to_string()),
        },
    }
}

/// The same two builds as [`glob_error`], then `GlobSet::is_match` on
/// `path`, as `glob_match` names it; `None` exactly when a build fails,
/// since both make the same calls on the same pattern.
#[verifier::external_body]
fn glob_matches(pattern: &str, path: &str) -> (r: Option<bool>)
    requires
        glob_fits(pattern@),
    ensures
        r == glob_match(pattern@, path@),
        r is None <==> glob_problem(pattern@) is Some,
{
    match globset::GlobBuilder::new(pattern).literal_separator(true).build() {
        Err(_) => None,
        Ok(glob) => match globset::GlobSetBuilder::new().add(glob).build() {
            Ok(set) => Some(set.is_match(path)),
            Err(_) => None,
        },
    }
}

/// Whether the glob `pattern`, built without `literal_separator` (so `*`
/// also matches `/`), matches `path`; the message of the build that
/// fails otherwise.
pub uninterp spec fn path_glob_match(pattern: Seq<char>, path: Seq<char>) -> core::result::Result<bool, Seq<char>>;

/// `GlobBuilder::build` (default options), `GlobSetBuilder::build` of
/// that one glob, then `GlobSet::is_match` on `path`, as
/// `path_glob_match` names it; a failed build gives its error's message.
#[verifier::external_body]
fn path_glob_matches(pattern: &str, path: &str) -> (r: core::result::Result<bool, String>)
    requires
        glob_fits(pattern@),
    ensures
        match path_glob_match(pattern@, path@) {
            Ok(b) => r == Ok::<bool, String>(b),
            Err(m) => r matches Err(s) && s@ == m,
        },
{
    match globset::GlobBuilder::new(pattern).literal_separator(false).build() {
        Err(e) => Err(e.to_string()),
        Ok(glob) => match globset::GlobSetBuilder::new().add(glob).build() {
            Ok(set) => Ok(set.is_match(path)),
            Err(e) => Err(e.to_string()),
        },
    }
}

/// The message of a glob too long to compile.
pub open spec fn too_long_text() -> Seq<char> {
    "pattern is too long"@
}

/// Why a glob cannot be used: too long, or what globset reports.
pub open spec fn scope_problem(pattern: Seq<char>) -> Option<Seq<char>> {
    if glob_fits(pattern) { glob_problem(pattern) } else { Some(too_long_text()) }
}

/// Whether a glob matches a path (with `literal_separator` on); `None`
/// when it cannot be used.
pub open spec fn scope_match(pattern: Seq<char>, path: Seq<char>) -> Option<bool> {
    if glob_fits(pattern) { glob_match(pattern, path) } else { None }
}

/// Whether a glob without `literal_separator` matches a path, or why it
/// cannot be used.
pub open spec fn path_match(pattern: Seq<char>, path: Seq<char>) -> core::result::Result<bool, Seq<char>> {
    if glob_fits(pattern) { path_glob_match(pattern, path) } else { Err(too_long_text()) }
}

fn fits(pattern: &str) -> (r: bool)
    ensures
        r == glob_fits(pattern@),
{
    pattern.unicode_len() < GLOB_LIMIT
}

/// Exec form of [`scope_problem`].
pub(crate) fn scope_error(pattern: &str) -> (r: Option<String>)
    ensures
        match scope_problem(pattern@) {
            Some(m) => r matches Some(s) && s@ == m,
            None => r is None,
        },
{
    if fits(pattern) {
        glob_error(pattern)
    } else {
        proof { reveal_strlit("pattern is too long"); }
        Some(copy_str("pattern is too long"))
    }
}

/// Exec form of [`scope_match`].
pub(crate) fn scope_matches(pattern: &str, path: &str) -> (r: Option<bool>)
    ensures
        r == scope_match(pattern@, path@),
        r is None <==> scope_problem(pattern@) is Some,
{
    if fits(pattern) {
        glob_matches(pattern, path)
    } else {
        None
    }
}

/// Exec form of [`path_match`].
pub(crate) fn path_matches(pattern: &str, path: &str) -> (r: core::result::Result<bool, String>)
    ensures
        match path_match(pattern@, path@) {
            Ok(b) => r == Ok::<bool, String>(b),
            Err(m) => r matches Err(s) && s@ == m,
        },
{
    if fits(pattern) {
        path_glob_matches(pattern, path)
    } else {
        Err(copy_str("pattern is too long"))
    }
}

/// The message of a rejected scope glob.
pub open spec fn invalid_scope_text(pattern: Seq<char>, problem: Seq<char>) -> Seq<char> {
    "invalid scope glob `"@ + pattern + "`: "@ + problem
}

/// A rule applied only to the paths a glob matches.
///
/// The scope lives in relevance alone: `apply` and the prefilter are the
/// inner rule's, and a script's run consults relevance before applying
/// each rule.
#[derive(Debug)]
pub struct ScopedOperation {
    pub inner: Box<Rule>,
    pub pattern: String,
}

impl ScopedOperation {
    /// Restrict `inner` to the paths matching `pattern`; a
    /// [`Error::Config`] when the pattern is not a valid glob.
    pub fn new(inner: Rule, pattern: &str) -> (r: Result<ScopedOperation>)
        ensures
            match scope_problem(pattern@) {
                None => r matches Ok(s) && *s.inner == inner && s.pattern@ == pattern@,
                Some(m) => r matches Err(Error::Config(msg)) && msg@ == invalid_scope_text(pattern@, m),
            },
    {
        match scope_error(pattern) {
            None => Ok(ScopedOperation { inner: Box::new(inner), pattern: copy_str(pattern) }),
            Some(problem) => {
                let mut msg = copy_str("invalid scope glob `");
                push_str(&mut msg, pattern);
                push_str(&mut msg, "`: ");
                push_str(&mut msg, problem.as_str());
                Err(Error::Config(msg))
            },
        }
    }

    /// The glob this rule is restricted to.
    pub fn pattern(&self) -> (r: &str)
        ensures
            r@ == self.pattern@,
    {
        self.pattern.as_str()
    }
}

impl Operation for ScopedOperation {
    open spec fn relevant_spec(&self, path: Seq<char>) -> bool {
        rule_relevant(*self.inner, path) && scope_match(self.pattern@, path) == Some(true)
    }

    open spec fn apply_spec(&self, source: Seq<char>) -> Seq<char> {
        rule_apply(*self.inner, source)
    }

    open spec fn prefilter_spec(&self) -> Option<Seq<char>> {
        rule_prefilter(*self.inner)
    }

    open spec fn describe_spec(&self) -> Seq<char> {
        rule_describe(*self.inner) + " in \""@ + self.pattern@ + "\""@
    }

    /// The inner rule wants the file and the glob matches its path.
    fn is_file_relevant(&self, path: &str) -> (r: bool) {
        self.inner.is_file_relevant(path) && scope_matches(self.pattern.as_str(), path) == Some(true)
    }

    /// The inner rule's rewrite: the scope is enforced by relevance.
    fn apply(&self, source_code: &str) -> (r: String) {
        self.inner.apply(source_code)
    }

    fn prefilter(&self) -> (r: Option<&str>) {
        self.inner.prefilter()
    }

    fn describe(&self) -> (r: String) {
        let mut s = self.inner.describe();
        push_str(&mut s, " in \"");
        push_str(&mut s, self.pattern.as_str());
        push_str(&mut s, "\"");
        s
    }
}

} // verus!

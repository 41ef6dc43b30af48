//! The contract every rewrite rule meets.

use vstd::prelude::*;

verus! {

/// A single ready-to-run transformation.
///
/// `apply` returns its input unchanged when there is nothing to rewrite:
/// the walker skips writes by comparing with the input, and rule
/// composition relies on irrelevant rules being the identity.
pub trait Operation {
    /// Whether the operation wants to operate on a file at `path`.
    spec fn relevant_spec(&self, path: Seq<char>) -> bool;

    /// What the operation rewrites a source text to.
    spec fn apply_spec(&self, source: Seq<char>) -> Seq<char>;

    /// A literal that must occur in any source the operation can change.
    spec fn prefilter_spec(&self) -> Option<Seq<char>>;

    /// How the operation describes itself, e.g. `go::import "a" -> "b"`.
    spec fn describe_spec(&self) -> Seq<char>;

    fn is_file_relevant(&self, path: &str) -> (r: bool)
        ensures
            r == self.relevant_spec(path@),
    ;

    fn apply(&self, source_code: &str) -> (r: String)
        ensures
            r@ == self.apply_spec(source_code@),
    ;

    fn prefilter(&self) -> (r: Option<&str>)
        ensures
            match self.prefilter_spec() {
                Some(p) => r matches Some(s) && s@ == p,
                None => r is None,
            },
    ;

    fn describe(&self) -> (r: String)
        ensures
            r@ == self.describe_spec(),
    ;
}

} // verus!

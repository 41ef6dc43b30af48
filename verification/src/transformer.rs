//! What the walker applies to each file.

use vstd::prelude::*;

verus! {

/// The result of a path-aware apply: the rewritten source and the rules
/// that changed it, as zero-based indices into the transformer's rules,
/// in the order they ran.
#[derive(Debug, Clone, Default)]
pub struct ApplyOutcome {
    pub output: String,
    pub rules_fired: Vec<usize>,
}

/// The mathematical form of an [`ApplyOutcome`].
pub struct OutcomeView {
    pub output: Seq<char>,
    pub rules_fired: Seq<int>,
}

impl View for ApplyOutcome {
    type V = OutcomeView;

    open spec fn view(&self) -> OutcomeView {
        OutcomeView { output: self.output@, rules_fired: self.rules_fired@.map_values(|k: usize| k as int) }
    }
}

impl ApplyOutcome {
    /// An outcome with no rule attribution.
    pub fn untraced(output: String) -> (r: Self)
        ensures
            r.output == output,
            r@ == (OutcomeView { output: output@, rules_fired: Seq::empty() }),
    {
        let r = ApplyOutcome { output, rules_fired: Vec::new() };
        assert(r@.rules_fired =~= Seq::<int>::empty());
        r
    }
}

/// A side-effect-free transformation of source files.
///
/// `apply` returns its input unchanged when there is nothing to rewrite;
/// the walker compares with the input to skip writes.
pub trait CodeTransformer {
    /// Whether the transformer wants the file at `path`.
    spec fn relevant_spec(&self, path: Seq<char>) -> bool;

    /// What `apply` rewrites a source text to.
    spec fn transform_spec(&self, source: Seq<char>) -> Seq<char>;

    /// What `apply_at` gives for a file.
    spec fn outcome_spec(&self, path: Seq<char>, source: Seq<char>) -> OutcomeView;

    fn is_file_relevant(&self, path: &str) -> (r: bool)
        ensures
            r == self.relevant_spec(path@),
    ;

    /// Rewrite a source text, ignoring where it lives.
    fn apply(&self, source_code: &str) -> (r: String)
        ensures
            r@ == self.transform_spec(source_code@),
    ;

    /// Rewrite the file at `path`, reporting which rules fired.
    fn apply_at(&self, path: &str, source_code: &str) -> (r: ApplyOutcome)
        ensures
            r@ == self.outcome_spec(path@, source_code@),
    ;
}

} // verus!

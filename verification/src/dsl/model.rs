//! The compiled form of a script.

use vstd::prelude::*;
use crate::text::{utf8, contains_bytes, str_contains, str_eq, copy_str, push_str, join, join_strings, string_views};
use crate::operation::Operation;
use crate::rules::{Rule, rule_relevant, rule_apply, rule_prefilter, rule_describe};
use crate::transformer::{ApplyOutcome, CodeTransformer, OutcomeView};

verus! {

/// A compiled script: its name and its rules, applied in source order.
/// Every rule is the identity on files it does not care about, so rules
/// of several languages compose.
#[derive(Debug)]
pub struct Refactoring {
    pub name: String,
    pub rules: Vec<Rule>,
}

/// Some rule of `rules` wants the file at `path`.
pub open spec fn any_relevant(rules: Seq<Rule>, path: Seq<char>) -> bool {
    exists|k: int| 0 <= k < rules.len() && rule_relevant(#[trigger] rules[k], path)
}

/// The source after every rule of `rules`, first to last.
pub open spec fn apply_all(rules: Seq<Rule>, source: Seq<char>) -> Seq<char>
    decreases rules.len(),
{
    if rules.len() == 0 {
        source
    } else {
        rule_apply(rules.last(), apply_all(rules.drop_last(), source))
    }
}

/// Rule `r` is skipped for the file at `path` whose text is now `cur`:
/// it does not want the path, or its literal does not occur.
pub open spec fn skipped(r: Rule, path: Seq<char>, cur: Seq<char>) -> bool {
    ||| !rule_relevant(r, path)
    ||| (match rule_prefilter(r) {
        Some(lit) => !contains_bytes(utf8(cur), utf8(lit)),
        None => false,
    })
}

/// Running rules `i..` on the file at `path` whose text is `cur`: the
/// final text and the indices of the rules that changed it.
pub open spec fn run_from(rules: Seq<Rule>, path: Seq<char>, i: int, cur: Seq<char>) -> (Seq<char>, Seq<int>)
    decreases rules.len() - i,
{
    if i < 0 || i >= rules.len() {
        (cur, Seq::empty())
    } else if skipped(rules[i], path, cur) {
        run_from(rules, path, i + 1, cur)
    } else {
        let next = rule_apply(rules[i], cur);
        if next != cur {
            let (out, fired) = run_from(rules, path, i + 1, next);
            (out, seq![i] + fired)
        } else {
            run_from(rules, path, i + 1, cur)
        }
    }
}

impl Refactoring {
    /// The script has no rules.
    pub fn is_empty(&self) -> (r: bool)
        ensures
            r == (self.rules@.len() == 0),
    {
        self.rules.len() == 0
    }

    /// The number of rules.
    pub fn len(&self) -> (r: usize)
        ensures
            r == self.rules@.len(),
    {
        self.rules.len()
    }

    /// `Refactoring '<name>': [<rule>, <rule>, ...]`.
    pub fn to_string(&self) -> (r: String)
        ensures
            r@ == "Refactoring '"@ + self.name@ + "': ["@
                + join(self.rules@.map_values(|x: Rule| rule_describe(x)), ", "@) + "]"@,
    {
        let ghost ds = self.rules@.map_values(|x: Rule| rule_describe(x));
        let mut parts: Vec<String> = Vec::new();
        let mut i: usize = 0;
        while i < self.rules.len()
            invariant
                ds == self.rules@.map_values(|x: Rule| rule_describe(x)),
                i <= self.rules@.len(),
                string_views(parts@) == ds.subrange(0, i as int),
            decreases self.rules@.len() - i,
        {
            let ghost prev = parts@;
            let d = self.rules[i].describe();
            parts.push(d);
            assert(string_views(parts@) =~= string_views(prev).push(d@));
            assert(ds.subrange(0, i + 1) =~= ds.subrange(0, i as int).push(ds[i as int]));
            i = i + 1;
        }
        assert(ds.subrange(0, i as int) =~= ds);
        let mut out = copy_str("Refactoring '");
        push_str(&mut out, self.name.as_str());
        push_str(&mut out, "': [");
        push_str(&mut out, join_strings(&parts, ", ").as_str());
        push_str(&mut out, "]");
        out
    }
}

impl CodeTransformer for Refactoring {
    open spec fn relevant_spec(&self, path: Seq<char>) -> bool {
        any_relevant(self.rules@, path)
    }

    open spec fn transform_spec(&self, source: Seq<char>) -> Seq<char> {
        apply_all(self.rules@, source)
    }

    open spec fn outcome_spec(&self, path: Seq<char>, source: Seq<char>) -> OutcomeView {
        let (out, fired) = run_from(self.rules@, path, 0, source);
        OutcomeView { output: out, rules_fired: fired }
    }

    fn is_file_relevant(&self, path: &str) -> (r: bool) {
        let mut k: usize = 0;
        while k < self.rules.len()
            invariant
                k <= self.rules@.len(),
                forall|j: int| 0 <= j < k ==> !rule_relevant(#[trigger] self.rules@[j], path@),
            decreases self.rules@.len() - k,
        {
            if self.rules[k].is_file_relevant(path) {
                return true;
            }
            k = k + 1;
        }
        false
    }

    /// Every rule runs, path-blind; each is the identity on input it
    /// does not care about.
    fn apply(&self, source_code: &str) -> (r: String) {
        let mut current = copy_str(source_code);
        let mut k: usize = 0;
        while k < self.rules.len()
            invariant
                k <= self.rules@.len(),
                current@ == apply_all(self.rules@.subrange(0, k as int), source_code@),
            decreases self.rules@.len() - k,
        {
            let next = self.rules[k].apply(current.as_str());
            assert(self.rules@.subrange(0, k + 1).drop_last() =~= self.rules@.subrange(0, k as int));
            current = next;
            k = k + 1;
        }
        assert(self.rules@.subrange(0, k as int) =~= self.rules@);
        current
    }

    /// Apply the rules that can match this file, in order, and report
    /// which ones changed it. A rule is skipped when it does not want the
    /// path, or when its literal does not occur in the current text (an
    /// earlier rule may have introduced it).
    fn apply_at(&self, path: &str, source_code: &str) -> (r: ApplyOutcome) {
        let ghost rules = self.rules@;
        let mut current = copy_str(source_code);
        let mut fired: Vec<usize> = Vec::new();
        let mut k: usize = 0;
        while k < self.rules.len()
            invariant
                rules == self.rules@,
                k <= rules.len(),
                ({
                    let (o, f) = run_from(rules, path@, 0, source_code@);
                    let (o2, f2) = run_from(rules, path@, k as int, current@);
                    o == o2 && f == fired@.map_values(|x: usize| x as int) + f2
                }),
            decreases rules.len() - k,
        {
            let rule = &self.rules[k];
            let skip = if !rule.is_file_relevant(path) {
                true
            } else {
                match rule.prefilter() {
                    Some(lit) => !str_contains(current.as_str(), lit),
                    None => false,
                }
            };
            if !skip {
                let next = rule.apply(current.as_str());
                if !str_eq(next.as_str(), current.as_str()) {
                    let ghost prev = fired@.map_values(|x: usize| x as int);
                    fired.push(k);
                    assert(fired@.map_values(|x: usize| x as int) =~= prev.push(k as int));
                    proof {
                        let (o2, f2) = run_from(rules, path@, k + 1, next@);
                        assert(prev + (seq![k as int] + f2) =~= prev.push(k as int) + f2);
                    }
                    current = next;
                }
            }
            k = k + 1;
        }
        proof {
            let (o2, f2) = run_from(rules, path@, k as int, current@);
            assert(f2 =~= Seq::<int>::empty());
            assert(fired@.map_values(|x: usize| x as int) + f2 =~= fired@.map_values(|x: usize| x as int));
        }
        ApplyOutcome { output: current, rules_fired: fired }
    }
}

/// One rule of a script on its own, so that it can be applied (and its
/// effect attributed) in isolation.
pub struct SingleRule<'a> {
    pub op: &'a Rule,
}

impl<'a> SingleRule<'a> {
    pub fn new(op: &'a Rule) -> (r: Self)
        ensures
            r.op == op,
    {
        SingleRule { op }
    }
}

impl<'a> CodeTransformer for SingleRule<'a> {
    open spec fn relevant_spec(&self, path: Seq<char>) -> bool {
        rule_relevant(*self.op, path)
    }

    open spec fn transform_spec(&self, source: Seq<char>) -> Seq<char> {
        rule_apply(*self.op, source)
    }

    open spec fn outcome_spec(&self, path: Seq<char>, source: Seq<char>) -> OutcomeView {
        if skipped(*self.op, path, source) {
            OutcomeView { output: source, rules_fired: Seq::empty() }
        } else {
            let out = rule_apply(*self.op, source);
            OutcomeView { output: out, rules_fired: if out == source { Seq::empty() } else { seq![0] } }
        }
    }

    fn is_file_relevant(&self, path: &str) -> (r: bool) {
        self.op.is_file_relevant(path)
    }

    fn apply(&self, source_code: &str) -> (r: String) {
        self.op.apply(source_code)
    }

    /// Like [`Refactoring::apply_at`] for one rule; a change is reported
    /// as rule 0, for the caller to map back to the full script.
    fn apply_at(&self, path: &str, source_code: &str) -> (r: ApplyOutcome) {
        if !self.op.is_file_relevant(path) {
            return ApplyOutcome::untraced(copy_str(source_code));
        }
        match self.op.prefilter() {
            Some(lit) => {
                if !str_contains(source_code, lit) {
                    return ApplyOutcome::untraced(copy_str(source_code));
                }
            },
            None => {},
        }
        let output = self.op.apply(source_code);
        let mut fired: Vec<usize> = Vec::new();
        if !str_eq(output.as_str(), source_code) {
            fired.push(0);
        }
        assert(fired@.map_values(|x: usize| x as int) =~= (if output@ == source_code@ { Seq::<int>::empty() } else { seq![0int] }));
        ApplyOutcome { output, rules_fired: fired }
    }
}

} // verus!

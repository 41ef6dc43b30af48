//! Aggregate result of one codemod run.
//!
//! The three file counters are distinct so an empty result explains
//! itself: nothing visited (paths or globs matched nothing), nothing
//! scanned (no file in a targeted language), or nothing changed (no rule
//! matched — see [`RuleStat`]).

use vstd::prelude::*;
use crate::text::{copy_str, utf8};
use crate::walker::FileChange;

verus! {

/// Per-rule attribution for one run. `files_matched == 0` marks a dead
/// rule: it compiled and ran but never changed a byte.
#[derive(Debug, Clone)]
pub struct RuleStat {
    /// Zero-based position of the rule in the compiled script.
    pub index: usize,
    /// The rule's description, e.g. `go::import "a" -> "b"`.
    pub rule: String,
    /// How many files this rule changed.
    pub files_matched: u64,
}

/// A file that could not be processed; recorded rather than fatal.
#[derive(Debug, Clone)]
pub struct SkippedFile {
    pub path: String,
    pub reason: String,
}

/// Aggregate counters plus per-rule attribution for one run.
#[derive(Debug, Clone)]
pub struct RunReport {
    /// Files the walker yielded before the relevance check.
    pub files_visited: u64,
    /// Files that passed the relevance check and were read.
    pub files_scanned: u64,
    /// Files whose contents changed.
    pub files_changed: u64,
    pub bytes_before: u64,
    pub bytes_after: u64,
    /// Wall-clock duration of the run, in milliseconds.
    pub elapsed_ms: u64,
    /// One entry per rule, in source order.
    pub rules: Vec<RuleStat>,
    pub skipped: Vec<SkippedFile>,
}

impl Default for RunReport {
    fn default() -> (r: Self)
        ensures
            r.files_visited == 0 && r.files_scanned == 0 && r.files_changed == 0,
            r.bytes_before == 0 && r.bytes_after == 0 && r.elapsed_ms == 0,
            r.rules@.len() == 0 && r.skipped@.len() == 0,
    {
        RunReport {
            files_visited: 0,
            files_scanned: 0,
            files_changed: 0,
            bytes_before: 0,
            bytes_after: 0,
            elapsed_ms: 0,
            rules: Vec::new(),
            skipped: Vec::new(),
        }
    }
}

/// A rule stat seeded for the rule at `index`.
pub open spec fn seeded(stat: RuleStat, index: int, rule: Seq<char>) -> bool {
    stat.index == index && stat.rule@ == rule && stat.files_matched == 0
}

/// The report after recording one file.
pub open spec fn recorded(old: RunReport, new: RunReport, change: FileChange) -> bool {
    &&& new.files_visited == old.files_visited
    &&& new.files_scanned == old.files_scanned + 1
    &&& new.bytes_before == old.bytes_before + utf8(change.before@).len()
    &&& new.bytes_after == old.bytes_after + utf8(change.after@).len()
    &&& new.files_changed == old.files_changed + if change.before@ != change.after@ { 1int } else { 0int }
    &&& new.elapsed_ms == old.elapsed_ms
    &&& new.skipped == old.skipped
    &&& new.rules@.len() == old.rules@.len()
    &&& forall|k: int| 0 <= k < old.rules@.len() ==> {
        &&& (#[trigger] new.rules@[k]).index == old.rules@[k].index
        &&& new.rules@[k].rule@ == old.rules@[k].rule@
        &&& new.rules@[k].files_matched == old.rules@[k].files_matched + fired_count(change.rules_fired@, k)
    }
}

/// How many times rule `k` appears among the fired indices.
pub open spec fn fired_count(fired: Seq<usize>, k: int) -> nat
    decreases fired.len(),
{
    if fired.len() == 0 {
        0
    } else {
        fired_count(fired.drop_last(), k) + if fired.last() == k { 1nat } else { 0nat }
    }
}

/// A prefix fires a rule no more often than the whole list.
proof fn lemma_fired_prefix(fired: Seq<usize>, k: int, j: int)
    requires
        0 <= j <= fired.len(),
    ensures
        fired_count(fired.subrange(0, j), k) <= fired_count(fired, k),
    decreases fired.len(),
{
    if j == fired.len() {
        assert(fired.subrange(0, j) =~= fired);
    } else {
        assert(fired.drop_last().subrange(0, j) =~= fired.subrange(0, j));
        lemma_fired_prefix(fired.drop_last(), k, j);
    }
}

impl RunReport {
    /// Seed the per-rule table from the rules' descriptions, so dead
    /// rules are present with a zero count.
    pub fn with_rules(rules: &[&str]) -> (r: Self)
        ensures
            r.rules@.len() == rules@.len(),
            forall|k: int| 0 <= k < rules@.len() ==> seeded(#[trigger] r.rules@[k], k, rules@[k]@),
            r.files_visited == 0 && r.files_scanned == 0 && r.files_changed == 0,
            r.bytes_before == 0 && r.bytes_after == 0 && r.elapsed_ms == 0,
            r.skipped@.len() == 0,
    {
        let mut stats: Vec<RuleStat> = Vec::new();
        let mut i: usize = 0;
        while i < rules.len()
            invariant
                i <= rules@.len(),
                stats@.len() == i,
                forall|k: int| 0 <= k < i ==> seeded(#[trigger] stats@[k], k, rules@[k]@),
            decreases rules@.len() - i,
        {
            stats.push(RuleStat { index: i, rule: copy_str(rules[i]), files_matched: 0 });
            i = i + 1;
        }
        let mut r = RunReport::default();
        r.rules = stats;
        r
    }

    /// Fold one processed file into the report. Indices of rules that do
    /// not exist are ignored.
    pub fn record(&mut self, change: &FileChange)
        requires
            old(self).files_scanned < u64::MAX,
            old(self).files_changed < u64::MAX,
            old(self).bytes_before + utf8(change.before@).len() <= u64::MAX,
            old(self).bytes_after + utf8(change.after@).len() <= u64::MAX,
            forall|k: int| 0 <= k < old(self).rules@.len() ==>
                old(self).rules@[k].files_matched + fired_count(change.rules_fired@, k) <= u64::MAX,
        ensures
            recorded(*old(self), *final(self), *change),
    {
        self.files_scanned = self.files_scanned + 1;
        let nb = change.before.as_str().as_bytes().len();
        let na = change.after.as_str().as_bytes().len();
        self.bytes_before = self.bytes_before + nb as u64;
        self.bytes_after = self.bytes_after + na as u64;
        if change.changed() {
            self.files_changed = self.files_changed + 1;
        }
        let ghost before_rules = self.rules@;
        let ghost mid = *self;
        let mut i: usize = 0;
        while i < change.rules_fired.len()
            invariant
                i <= change.rules_fired@.len(),
                self.files_visited == mid.files_visited,
                self.files_scanned == mid.files_scanned,
                self.files_changed == mid.files_changed,
                self.bytes_before == mid.bytes_before,
                self.bytes_after == mid.bytes_after,
                self.elapsed_ms == mid.elapsed_ms,
                self.skipped == mid.skipped,
                self.rules@.len() == before_rules.len(),
                forall|k: int| 0 <= k < before_rules.len() ==> {
                    &&& (#[trigger] self.rules@[k]).index == before_rules[k].index
                    &&& self.rules@[k].rule@ == before_rules[k].rule@
                    &&& self.rules@[k].files_matched == before_rules[k].files_matched
                        + fired_count(change.rules_fired@.subrange(0, i as int), k)
                },
                forall|k: int| 0 <= k < before_rules.len() ==>
                    before_rules[k].files_matched + fired_count(change.rules_fired@, k) <= u64::MAX,
            decreases change.rules_fired@.len() - i,
        {
            let index = change.rules_fired[i];
            proof {
                assert(change.rules_fired@.subrange(0, i + 1).drop_last() =~= change.rules_fired@.subrange(0, i as int));
            }
            if index < self.rules.len() {
                proof {
                    lemma_fired_prefix(change.rules_fired@, index as int, i + 1);
                }
                let current = &self.rules[index];
                let stat = RuleStat {
                    index: current.index,
                    rule: current.rule.clone(),
                    files_matched: current.files_matched + 1,
                };
                self.rules.set(index, stat);
            }
            i = i + 1;
        }
        assert(change.rules_fired@.subrange(0, i as int) =~= change.rules_fired@);
    }

    /// Record a file that could not be read or decoded.
    pub fn skip(&mut self, path: &str, reason: &str)
        ensures
            final(self).skipped@.len() == old(self).skipped@.len() + 1,
            final(self).skipped@.drop_last() == old(self).skipped@,
            final(self).skipped@.last().path@ == path@,
            final(self).skipped@.last().reason@ == reason@,
            final(self).rules == old(self).rules,
            final(self).files_visited == old(self).files_visited,
            final(self).files_scanned == old(self).files_scanned,
            final(self).files_changed == old(self).files_changed,
            final(self).bytes_before == old(self).bytes_before,
            final(self).bytes_after == old(self).bytes_after,
            final(self).elapsed_ms == old(self).elapsed_ms,
    {
        self.skipped.push(SkippedFile { path: copy_str(path), reason: copy_str(reason) });
        assert(self.skipped@.drop_last() =~= old(self).skipped@);
    }

    /// Rules that never changed a file, in order.
    pub fn dead_rules(&self) -> (r: Vec<&RuleStat>)
        ensures
            r@.map_values(|p: &RuleStat| *p) == dead_upto(self.rules@, self.rules@.len() as int),
    {
        let mut out: Vec<&RuleStat> = Vec::new();
        let mut i: usize = 0;
        while i < self.rules.len()
            invariant
                i <= self.rules@.len(),
                out@.map_values(|p: &RuleStat| *p) == dead_upto(self.rules@, i as int),
            decreases self.rules@.len() - i,
        {
            if self.rules[i].files_matched == 0 {
                out.push(&self.rules[i]);
            }
            assert(out@.map_values(|p: &RuleStat| *p) =~= dead_upto(self.rules@, i + 1));
            i = i + 1;
        }
        out
    }
}

/// The rules among the first `n` that matched no file, in order.
pub open spec fn dead_upto(rules: Seq<RuleStat>, n: int) -> Seq<RuleStat>
    decreases n,
{
    if n <= 0 {
        Seq::empty()
    } else if rules[n - 1].files_matched == 0 {
        dead_upto(rules, n - 1).push(rules[n - 1])
    } else {
        dead_upto(rules, n - 1)
    }
}

} // verus!

//! Output formats for a refactoring run, and what each one prints.
//!
//! Each reporter decides, for every processed file and at the end of the
//! run, which text to emit; the application writes that text out. Files
//! that did not change produce no output in any format.

use vstd::prelude::*;
use crate::text::{utf8, copy_str, push_str, decimal, decimal_string, decimal_string_u64, str_eq};
use crate::render::{
    ChangeCollector, json_object, json_array, json_quoted, member, member_exec, object_exec, array_exec,
    quote_json, summary_json, rules_json, summary_text, rules_text, warnings_array, Detail, RenderOptions, advisories, advisory_texts, string_seq, unified_diff,
    unified_diff_text,
};
use crate::report::{RunReport, RuleStat, SkippedFile};
use crate::walker::FileChange;

verus! {

/// Output format of a refactoring run.
#[derive(Clone, Copy, Debug, PartialEq, Eq, Structural)]
pub enum Format {
    /// Log lines plus a summary. The default when stdout is a terminal.
    Human,
    /// One JSON document for the whole run.
    Json,
    /// One JSON object per changed file, then a summary object.
    Ndjson,
    /// A unified diff per changed file.
    Diff,
}

/// What a run does with its results.
#[derive(Clone, Copy, Debug, PartialEq, Eq, Structural)]
pub enum ExecMode {
    /// Apply the changes in place.
    Write,
    /// Report what would change without writing.
    DryRun,
    /// Like `DryRun`, and exit 10 when anything would change.
    Check,
}

/// The exit code of a successful run: 10 when `--check` found files
/// that would change, else 0.
pub fn run_exit_code(mode: ExecMode, files_changed: u64) -> (r: i32)
    ensures
        r == (if mode == ExecMode::Check && files_changed > 0 { 10i32 } else { 0i32 }),
{
    if mode == ExecMode::Check && files_changed > 0 {
        10
    } else {
        0
    }
}

impl Format {
    /// The mode used when none of `--write`, `--dry-run` or `--check` is
    /// given: human output on a terminal writes, everything else is a
    /// dry run.
    pub fn default_exec_mode(self, stdout_is_tty: bool) -> (r: ExecMode)
        ensures
            r == (if self == Format::Human && stdout_is_tty { ExecMode::Write } else { ExecMode::DryRun }),
    {
        match self {
            Format::Human => if stdout_is_tty { ExecMode::Write } else { ExecMode::DryRun },
            _ => ExecMode::DryRun,
        }
    }

    /// The detail used when `--detail` is not given: diffs for the diff
    /// format, which asked for them by name; counts otherwise.
    pub fn default_detail(self) -> (r: Detail)
        ensures
            r == (if self == Format::Diff { Detail::Diff } else { Detail::Counts }),
    {
        match self {
            Format::Diff => Detail::Diff,
            _ => Detail::Counts,
        }
    }
}

/// The mode a run uses: `--check` wins, then `--write`, then
/// `--dry-run`, then the format's default.
pub fn resolve_exec_mode(write: bool, dry_run: bool, check: bool, format: Format, stdout_is_tty: bool) -> (r: ExecMode)
    ensures
        r == (if check {
            ExecMode::Check
        } else if write {
            ExecMode::Write
        } else if dry_run {
            ExecMode::DryRun
        } else if format == Format::Human && stdout_is_tty {
            ExecMode::Write
        } else {
            ExecMode::DryRun
        }),
{
    if check {
        ExecMode::Check
    } else if write {
        ExecMode::Write
    } else if dry_run {
        ExecMode::DryRun
    } else {
        format.default_exec_mode(stdout_is_tty)
    }
}

/// The log line for one processed file in human output.
pub open spec fn human_file_line(mode: ExecMode, detail: Detail, c: FileChange) -> Option<Seq<char>> {
    if c.before@ == c.after@ || detail == Detail::Summary {
        None
    } else if mode == ExecMode::Write {
        Some("Wrote "@ + c.path@)
    } else {
        Some("Would change "@ + c.path@)
    }
}

/// The first line of the human summary.
pub open spec fn human_head(r: RunReport) -> Seq<char> {
    decimal(r.files_scanned as nat) + " file(s) scanned, "@ + decimal(r.files_changed as nat) + " changed, "@
        + decimal(r.bytes_before as nat) + " → "@ + decimal(r.bytes_after as nat) + " bytes in "@
        + decimal(r.elapsed_ms as nat) + " ms"@
}

pub open spec fn rule_line(s: RuleStat) -> Seq<char> {
    "  rule "@ + decimal((s.index + 1) as nat) + ": "@ + decimal(s.files_matched as nat) + " file(s) — "@ + s.rule@
}

pub open spec fn skipped_line(s: SkippedFile) -> Seq<char> {
    "  skipped "@ + s.path@ + ": "@ + s.reason@
}

pub open spec fn warning_line(a: Seq<char>) -> Seq<char> {
    "warning: "@ + a
}

/// What human output prints at the end of a run: the counters, a line
/// per rule (unless the detail is `Summary`), a line per skipped file and
/// a line per advisory.
pub open spec fn human_summary(r: RunReport, detail: Detail) -> Seq<Seq<char>> {
    seq![human_head(r)]
        + (if detail != Detail::Summary { r.rules@.map_values(|s: RuleStat| rule_line(s)) } else { Seq::empty() })
        + r.skipped@.map_values(|s: SkippedFile| skipped_line(s))
        + advisory_texts(r).map_values(|a: Seq<char>| warning_line(a))
}

/// Human output: per-file log lines and a summary on stdout.
pub struct HumanReporter {
    pub mode: ExecMode,
    pub options: RenderOptions,
}

impl HumanReporter {
    pub fn new(mode: ExecMode, options: RenderOptions) -> (r: Self)
        ensures
            r.mode == mode,
            r.options == options,
    {
        HumanReporter { mode, options }
    }

    /// The log line for a processed file, if any.
    pub fn report(&self, change: &FileChange) -> (r: Option<String>)
        ensures
            match human_file_line(self.mode, self.options.detail, *change) {
                Some(l) => r matches Some(s) && s@ == l,
                None => r is None,
            },
    {
        if !change.changed() || self.options.detail == Detail::Summary {
            return None;
        }
        let mut s = match self.mode {
            ExecMode::Write => copy_str("Wrote "),
            _ => copy_str("Would change "),
        };
        push_str(&mut s, change.path.as_str());
        Some(s)
    }

    /// The summary lines printed at the end of the run.
    pub fn finish(&self, report: &RunReport) -> (r: Vec<String>)
        requires
            forall|k: int| 0 <= k < report.rules@.len() ==> (#[trigger] report.rules@[k]).index < usize::MAX,
        ensures
            string_seq(r@) == human_summary(*report, self.options.detail),
    {
        let mut out: Vec<String> = Vec::new();
        let mut head = decimal_string_u64(report.files_scanned);
        push_str(&mut head, " file(s) scanned, ");
        push_str(&mut head, decimal_string_u64(report.files_changed).as_str());
        push_str(&mut head, " changed, ");
        push_str(&mut head, decimal_string_u64(report.bytes_before).as_str());
        push_str(&mut head, " → ");
        push_str(&mut head, decimal_string_u64(report.bytes_after).as_str());
        push_str(&mut head, " bytes in ");
        push_str(&mut head, decimal_string_u64(report.elapsed_ms).as_str());
        push_str(&mut head, " ms");
        out.push(head);
        assert(string_seq(out@) =~= seq![human_head(*report)]);
        let ghost base = string_seq(out@);
        if self.options.detail != Detail::Summary {
            let mut k: usize = 0;
            while k < report.rules.len()
                invariant
                    k <= report.rules@.len(),
                    forall|j: int| 0 <= j < report.rules@.len() ==> (#[trigger] report.rules@[j]).index < usize::MAX,
                    string_seq(out@) == base + report.rules@.subrange(0, k as int).map_values(|s: RuleStat| rule_line(s)),
                decreases report.rules@.len() - k,
            {
                let st = &report.rules[k];
                let mut l = copy_str("  rule ");
                push_str(&mut l, decimal_string(st.index + 1).as_str());
                push_str(&mut l, ": ");
                push_str(&mut l, decimal_string_u64(st.files_matched).as_str());
                push_str(&mut l, " file(s) — ");
                push_str(&mut l, st.rule.as_str());
                let ghost prev = string_seq(out@);
                out.push(l);
                assert(string_seq(out@) =~= prev.push(rule_line(report.rules@[k as int])));
                assert(report.rules@.subrange(0, k + 1).map_values(|s: RuleStat| rule_line(s))
                    =~= report.rules@.subrange(0, k as int).map_values(|s: RuleStat| rule_line(s)).push(rule_line(report.rules@[k as int])));
                k = k + 1;
            }
            assert(report.rules@.subrange(0, k as int) =~= report.rules@);
        }
        let ghost mid = string_seq(out@);
        assert(mid == base + (if self.options.detail != Detail::Summary {
            report.rules@.map_values(|s: RuleStat| rule_line(s))
        } else {
            Seq::empty()
        }));
        let mut k: usize = 0;
        while k < report.skipped.len()
            invariant
                k <= report.skipped@.len(),
                string_seq(out@) == mid + report.skipped@.subrange(0, k as int).map_values(|s: SkippedFile| skipped_line(s)),
            decreases report.skipped@.len() - k,
        {
            let sk = &report.skipped[k];
            let mut l = copy_str("  skipped ");
            push_str(&mut l, sk.path.as_str());
            push_str(&mut l, ": ");
            push_str(&mut l, sk.reason.as_str());
            let ghost prev = string_seq(out@);
            out.push(l);
            assert(string_seq(out@) =~= prev.push(skipped_line(report.skipped@[k as int])));
            assert(report.skipped@.subrange(0, k + 1).map_values(|s: SkippedFile| skipped_line(s))
                =~= report.skipped@.subrange(0, k as int).map_values(|s: SkippedFile| skipped_line(s)).push(skipped_line(report.skipped@[k as int])));
            k = k + 1;
        }
        assert(report.skipped@.subrange(0, k as int) =~= report.skipped@);
        let ghost mid2 = string_seq(out@);
        let adv = advisories(report);
        let ghost av = advisory_texts(*report);
        let mut k: usize = 0;
        while k < adv.len()
            invariant
                k <= adv@.len(),
                string_seq(adv@) == av,
                string_seq(out@) == mid2 + av.subrange(0, k as int).map_values(|a: Seq<char>| warning_line(a)),
            decreases adv@.len() - k,
        {
            let mut l = copy_str("warning: ");
            push_str(&mut l, adv[k].as_str());
            let ghost prev = string_seq(out@);
            out.push(l);
            assert(av[k as int] == adv@[k as int]@);
            assert(string_seq(out@) =~= prev.push(warning_line(av[k as int])));
            assert(av.subrange(0, k + 1).map_values(|a: Seq<char>| warning_line(a))
                =~= av.subrange(0, k as int).map_values(|a: Seq<char>| warning_line(a)).push(warning_line(av[k as int])));
            k = k + 1;
        }
        assert(av.subrange(0, k as int) =~= av);
        out
    }
}

/// JSON output: changes are collected and rendered as one document at
/// the end of the run.
pub struct JsonReporter {
    pub collector: ChangeCollector,
}

impl JsonReporter {
    pub fn new(options: RenderOptions) -> (r: Self)
        ensures
            r.collector.opts() == options,
            r.collector.changed_paths().len() == 0,
    {
        JsonReporter { collector: ChangeCollector::new(options) }
    }

    /// The document printed at the end of the run: the collected changes,
    /// the report's counters, and its advisories under `warnings`.
    pub fn finish(&self, report: &RunReport) -> (r: String)
        ensures
            r@ == json_object(self.collector.members_spec(*report) + (if advisory_texts(*report).len() > 0 {
                seq![member("warnings"@, json_array(advisory_texts(*report).map_values(|a: Seq<char>| json_quoted(a))))]
            } else {
                Seq::empty()
            })),
    {
        self.collector.to_json_with_warnings(report)
    }
}

/// Whether NDJSON output emits an object for a processed file.
pub open spec fn ndjson_emits(detail: Detail, c: FileChange) -> bool {
    c.before@ != c.after@ && detail != Detail::Summary
}

/// NDJSON output: one object per changed file, then a summary object.
pub struct NdjsonReporter {
    pub options: RenderOptions,
}

impl NdjsonReporter {
    pub fn new(options: RenderOptions) -> (r: Self)
        ensures
            r.options == options,
    {
        NdjsonReporter { options }
    }

    /// Whether the file gets an object.
    pub fn emits(&self, change: &FileChange) -> (r: bool)
        ensures
            r == ndjson_emits(self.options.detail, *change),
    {
        change.changed() && self.options.detail != Detail::Summary
    }

    /// The diff carried by a file's object: present at the diff detail.
    pub fn diff(&self, change: &FileChange) -> (r: Option<String>)
        ensures
            match r {
                Some(d) => ndjson_emits(self.options.detail, *change) && self.options.detail == Detail::Diff
                    && d@ == unified_diff_text(change.path@, change.before@, change.after@),
                None => !(ndjson_emits(self.options.detail, *change) && self.options.detail == Detail::Diff),
            },
    {
        if self.emits(change) && self.options.detail == Detail::Diff {
            Some(unified_diff(change.path.as_str(), change.before.as_str(), change.after.as_str()))
        } else {
            None
        }
    }

    /// The object line for a processed file, when it gets one: its path,
    /// sizes, the rules that fired and, at the diff detail, its diff.
    pub fn file_line(&self, change: &FileChange) -> (r: Option<String>)
        ensures
            match r {
                Some(l) => ndjson_emits(self.options.detail, *change) && l@ == json_object(
                    seq![
                        member("bytes_after"@, decimal(utf8(change.after@).len())),
                        member("bytes_before"@, decimal(utf8(change.before@).len())),
                    ] + (if self.options.detail == Detail::Diff {
                        seq![member("diff"@, json_quoted(unified_diff_text(change.path@, change.before@, change.after@)))]
                    } else {
                        Seq::empty()
                    }) + seq![
                        member("path"@, json_quoted(change.path@)),
                        member("rules"@, json_array(change.rules_fired@.map_values(|k: usize| decimal(k as nat)))),
                        member("type"@, "\"file\""@),
                    ]),
                None => !ndjson_emits(self.options.detail, *change),
            },
    {
        if !self.emits(change) {
            return None;
        }
        let ghost fired = change.rules_fired@.map_values(|k: usize| decimal(k as nat));
        let mut nums: Vec<String> = Vec::new();
        let mut i: usize = 0;
        while i < change.rules_fired.len()
            invariant
                fired == change.rules_fired@.map_values(|k: usize| decimal(k as nat)),
                i <= change.rules_fired@.len(),
                string_seq(nums@) == fired.subrange(0, i as int),
            decreases change.rules_fired@.len() - i,
        {
            let ghost prev = nums@;
            let d = decimal_string(change.rules_fired[i]);
            nums.push(d);
            assert(string_seq(nums@) =~= string_seq(prev).push(d@));
            assert(fired.subrange(0, i + 1) =~= fired.subrange(0, i as int).push(fired[i as int]));
            i = i + 1;
        }
        assert(fired.subrange(0, i as int) =~= fired);
        let mut ms: Vec<String> = Vec::new();
        ms.push(member_exec("bytes_after", decimal_string(change.after.as_str().as_bytes().len()).as_str()));
        ms.push(member_exec("bytes_before", decimal_string(change.before.as_str().as_bytes().len()).as_str()));
        let ghost head = string_seq(ms@);
        if self.options.detail == Detail::Diff {
            let d = unified_diff(change.path.as_str(), change.before.as_str(), change.after.as_str());
            ms.push(member_exec("diff", quote_json(d.as_str()).as_str()));
        }
        ms.push(member_exec("path", quote_json(change.path.as_str()).as_str()));
        ms.push(member_exec("rules", array_exec(&nums).as_str()));
        ms.push(member_exec("type", "\"file\""));
        proof {
            reveal_strlit("\"file\"");
        }
        assert(string_seq(ms@) =~= seq![
            member("bytes_after"@, decimal(utf8(change.after@).len())),
            member("bytes_before"@, decimal(utf8(change.before@).len())),
        ] + (if self.options.detail == Detail::Diff {
            seq![member("diff"@, json_quoted(unified_diff_text(change.path@, change.before@, change.after@)))]
        } else {
            Seq::empty()
        }) + seq![
            member("path"@, json_quoted(change.path@)),
            member("rules"@, json_array(change.rules_fired@.map_values(|k: usize| decimal(k as nat)))),
            member("type"@, "\"file\""@),
        ]);
        Some(object_exec(&ms))
    }

    /// The summary line that ends the stream: the counters, the per-rule
    /// counts and, when there are any, the advisories.
    pub fn finish(&self, report: &RunReport) -> (r: String)
        ensures
            r@ == json_object(seq![
                member("rules"@, rules_text(*report)),
                member("summary"@, summary_text(*report)),
                member("type"@, "\"summary\""@),
            ] + (if advisory_texts(*report).len() > 0 {
                seq![member("warnings"@, json_array(advisory_texts(*report).map_values(|a: Seq<char>| json_quoted(a))))]
            } else {
                Seq::empty()
            })),
    {
        let mut ms: Vec<String> = Vec::new();
        ms.push(member_exec("rules", rules_json(report).as_str()));
        ms.push(member_exec("summary", summary_json(report).as_str()));
        ms.push(member_exec("type", "\"summary\""));
        proof {
            reveal_strlit("\"summary\"");
        }
        let ghost base = string_seq(ms@);
        assert(base =~= seq![
            member("rules"@, rules_text(*report)),
            member("summary"@, summary_text(*report)),
            member("type"@, "\"summary\""@),
        ]);
        let w = warnings_array(report);
        match w {
            Some(a) => ms.push(member_exec("warnings", a.as_str())),
            None => {},
        }
        assert(string_seq(ms@) =~= base + (if advisory_texts(*report).len() > 0 {
            seq![member("warnings"@, json_array(advisory_texts(*report).map_values(|a: Seq<char>| json_quoted(a))))]
        } else {
            Seq::empty()
        }));
        object_exec(&ms)
    }
}

/// Diff output: an uncapped unified diff per changed file and nothing
/// else, so the output stays valid `patch` input.
pub struct DiffReporter {}

impl DiffReporter {
    pub fn new() -> (r: Self) {
        DiffReporter {}
    }

    /// The diff printed for a processed file, if it changed.
    pub fn report(&self, change: &FileChange) -> (r: Option<String>)
        ensures
            match r {
                Some(d) => change.before@ != change.after@
                    && d@ == unified_diff_text(change.path@, change.before@, change.after@),
                None => change.before@ == change.after@,
            },
    {
        if change.changed() {
            Some(unified_diff(change.path.as_str(), change.before.as_str(), change.after.as_str()))
        } else {
            None
        }
    }
}

} // verus!

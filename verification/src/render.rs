//! Turning a run into output an agent can afford to read.
//!
//! The rendering is bounded: unchanged files never appear, the number of
//! rendered diffs and the size of each are capped, and the counters are
//! present at every detail level. A rule that matched no file is
//! surfaced as an advisory.

use vstd::prelude::*;
use vstd::utf8::*;
use crate::text::{
    utf8, str_eq, copy_str, push_str, concat2, decimal, decimal_string_u64, decimal_string, join, join_strings,
};
use crate::report::{RunReport, RuleStat, SkippedFile, dead_upto};
use crate::walker::FileChange;

verus! {

/// How much of the run to render.
#[derive(Clone, Copy, Debug, PartialEq, Eq, Structural)]
pub enum Detail {
    /// Aggregate counters only.
    Summary,
    /// Counters, per-rule match counts and changed paths.
    Counts,
    /// Everything in `Counts` plus capped per-file unified diffs.
    Diff,
}

impl Default for Detail {
    fn default() -> (r: Self)
        ensures
            r == Detail::Counts,
    {
        Detail::Counts
    }
}

/// The wire name of a detail level.
pub open spec fn detail_name(d: Detail) -> Seq<char> {
    match d {
        Detail::Summary => "summary"@,
        Detail::Counts => "counts"@,
        Detail::Diff => "diff"@,
    }
}

/// The detail level a wire name stands for.
pub open spec fn detail_from(s: Seq<char>) -> Option<Detail> {
    if s == "summary"@ {
        Some(Detail::Summary)
    } else if s == "counts"@ {
        Some(Detail::Counts)
    } else if s == "diff"@ {
        Some(Detail::Diff)
    } else {
        None
    }
}

impl Detail {
    /// The values accepted by [`parse`](Self::parse).
    pub const NAMES: [&'static str; 3] = ["summary", "counts", "diff"];

    /// Parse the wire form used by `--detail`; `None` for anything else.
    pub fn parse(s: &str) -> (r: Option<Self>)
        ensures
            r == detail_from(s@),
    {
        if str_eq(s, "summary") {
            Some(Detail::Summary)
        } else if str_eq(s, "counts") {
            Some(Detail::Counts)
        } else if str_eq(s, "diff") {
            Some(Detail::Diff)
        } else {
            None
        }
    }

    /// The wire name of this level.
    pub fn as_str(self) -> (r: &'static str)
        ensures
            r@ == detail_name(self),
    {
        match self {
            Detail::Summary => "summary",
            Detail::Counts => "counts",
            Detail::Diff => "diff",
        }
    }
}

/// Default cap on how many per-file diffs are rendered.
pub const DEFAULT_MAX_FILES: usize = 20;
/// Default cap on the size of any single rendered diff, in bytes.
pub const DEFAULT_MAX_DIFF_BYTES: usize = 2000;

/// Rendering limits; both caps apply only to `Detail::Diff`.
#[derive(Clone, Copy, Debug)]
pub struct RenderOptions {
    pub detail: Detail,
    pub max_files: usize,
    pub max_diff_bytes: usize,
}

impl Default for RenderOptions {
    fn default() -> (r: Self)
        ensures
            r.detail == Detail::Counts,
            r.max_files == DEFAULT_MAX_FILES,
            r.max_diff_bytes == DEFAULT_MAX_DIFF_BYTES,
    {
        RenderOptions {
            detail: Detail::Counts,
            max_files: DEFAULT_MAX_FILES,
            max_diff_bytes: DEFAULT_MAX_DIFF_BYTES,
        }
    }
}

/// Accumulates the per-file half of a run within the configured caps:
/// only changed files are kept, and diffs are rendered (and capped) as
/// files arrive.
#[derive(Debug)]
pub struct ChangeCollector {
    options: RenderOptions,
    changed: Vec<String>,
    diffs: Vec<(String, String)>,
    diffs_omitted: u64,
    bytes_omitted: u64,
}

pub open spec fn string_seq(v: Seq<String>) -> Seq<Seq<char>> {
    v.map_values(|s: String| s@)
}

/// `a + b`, held at `u64::MAX` instead of overflowing.
pub open spec fn saturating(a: u64, b: int) -> u64 {
    if a + b > u64::MAX { u64::MAX } else { (a + b) as u64 }
}

/// `n` is the collector `o` after recording the processed file `change`.
pub open spec fn pushed(o: ChangeCollector, n: ChangeCollector, change: FileChange) -> bool {
    &&& n.opts() == o.opts()
    &&& change.before@ == change.after@ ==> n == o
    &&& change.before@ != change.after@ ==> {
        &&& n.changed_paths() == o.changed_paths().push(change.path@)
        &&& if o.opts().detail != Detail::Diff {
            &&& n.kept_diffs() == o.kept_diffs()
            &&& n.diffs_dropped() == o.diffs_dropped()
            &&& n.bytes_dropped() == o.bytes_dropped()
        } else if o.kept_diffs().len() >= o.opts().max_files {
            &&& n.kept_diffs() == o.kept_diffs()
            &&& n.diffs_dropped() == saturating(o.diffs_dropped(), 1)
            &&& n.bytes_dropped() == o.bytes_dropped()
        } else {
            let full = unified_diff_text(change.path@, change.before@, change.after@);
            let (text, dropped) = truncation(full, o.opts().max_diff_bytes as int);
            &&& n.kept_diffs() == o.kept_diffs().push((change.path@, text))
            &&& n.diffs_dropped() == o.diffs_dropped()
            &&& n.bytes_dropped() == saturating(o.bytes_dropped(), dropped)
        }
    }
}

impl ChangeCollector {
    /// The paths of the changed files, in order.
    pub closed spec fn changed_paths(&self) -> Seq<Seq<char>> {
        string_seq(self.changed@)
    }

    /// The rendered diffs kept so far: path and diff text.
    pub closed spec fn kept_diffs(&self) -> Seq<(Seq<char>, Seq<char>)> {
        self.diffs@.map_values(|d: (String, String)| (d.0@, d.1@))
    }

    /// How many diffs were dropped by the file cap.
    pub closed spec fn diffs_dropped(&self) -> u64 {
        self.diffs_omitted
    }

    /// How many diff bytes were dropped by the size cap.
    pub closed spec fn bytes_dropped(&self) -> u64 {
        self.bytes_omitted
    }

    pub closed spec fn opts(&self) -> RenderOptions {
        self.options
    }

    pub fn new(options: RenderOptions) -> (r: Self)
        ensures
            r.opts() == options,
            r.changed_paths().len() == 0,
            r.kept_diffs().len() == 0,
            r.diffs_dropped() == 0,
            r.bytes_dropped() == 0,
    {
        ChangeCollector {
            options,
            changed: Vec::new(),
            diffs: Vec::new(),
            diffs_omitted: 0,
            bytes_omitted: 0,
        }
    }

    pub fn options(&self) -> (r: RenderOptions)
        ensures
            r == self.opts(),
    {
        self.options
    }

    /// Record one processed file. Unchanged files are dropped; at
    /// `Detail::Diff` the file's diff is rendered while fewer than
    /// `max_files` are kept, and counted as omitted afterwards. The
    /// omission counters stop at `u64::MAX`.
    pub fn push(&mut self, change: &FileChange)
        ensures
            pushed(*old(self), *final(self), *change),
    {
        if !change.changed() {
            return;
        }
        self.changed.push(copy_str(change.path.as_str()));
        assert(string_seq(self.changed@) =~= string_seq(old(self).changed@).push(change.path@));
        if self.options.detail != Detail::Diff {
            return;
        }
        if self.diffs.len() >= self.options.max_files {
            if self.diffs_omitted < u64::MAX {
                self.diffs_omitted = self.diffs_omitted + 1;
            }
            return;
        }
        let full = unified_diff(change.path.as_str(), change.before.as_str(), change.after.as_str());
        let (text, dropped) = truncate_utf8(full, self.options.max_diff_bytes);
        let d = dropped as u64;
        if self.bytes_omitted <= u64::MAX - d {
            self.bytes_omitted = self.bytes_omitted + d;
        } else {
            self.bytes_omitted = u64::MAX;
        }
        self.diffs.push((copy_str(change.path.as_str()), text));
        assert(self.diffs@.map_values(|d: (String, String)| (d.0@, d.1@)) =~=
            old(self).diffs@.map_values(|d: (String, String)| (d.0@, d.1@)).push((change.path@, 
                truncation(unified_diff_text(change.path@, change.before@, change.after@),
                    old(self).options.max_diff_bytes as int).0)));
    }

    /// Paths of every changed file, in the order they were processed.
    pub fn changed(&self) -> (r: &[String])
        ensures
            string_seq(r@) == self.changed_paths(),
    {
        self.changed.as_slice()
    }
}

/// The unified diff `similar` renders for two texts under the given
/// `a/` and `b/` headers.
pub uninterp spec fn similar_unified_diff(
    header_a: Seq<char>,
    header_b: Seq<char>,
    before: Seq<char>,
    after: Seq<char>,
) -> Seq<char>;

/// `TextDiff::from_lines(before, after).unified_diff().header(a, b)`,
/// rendered to a string: the line diff `similar_unified_diff` names.
#[verifier::external_body]
fn similar_diff(header_a: &str, header_b: &str, before: &str, after: &str) -> (r: String)
    ensures
        r@ == similar_unified_diff(header_a@, header_b@, before@, after@),
{
    let diff = similar::TextDiff::from_lines(before, after);
    diff.unified_diff().header(header_a, header_b).to_string()
}

/// The unified diff of one file, with `a/<path>` and `b/<path>` headers.
pub open spec fn unified_diff_text(path: Seq<char>, before: Seq<char>, after: Seq<char>) -> Seq<char> {
    similar_unified_diff("a/"@ + path, "b/"@ + path, before, after)
}

/// Render a unified diff for one file pair.
pub fn unified_diff(path: &str, before: &str, after: &str) -> (r: String)
    ensures
        r@ == unified_diff_text(path@, before@, after@),
{
    let header_a = concat2("a/", path);
    let header_b = concat2("b/", path);
    similar_diff(header_a.as_str(), header_b.as_str(), before, after)
}

/// The largest character boundary at or below `end`.
pub open spec fn boundary_at_or_below(bytes: Seq<u8>, end: int) -> int
    decreases end,
{
    if end <= 0 || is_char_boundary(bytes, end) {
        if end <= 0 { 0 } else { end }
    } else {
        boundary_at_or_below(bytes, end - 1)
    }
}

/// `text` cut to at most `limit` bytes on a character boundary, with a
/// marker naming how many bytes were dropped, plus that count.
pub open spec fn truncation(text: Seq<char>, limit: int) -> (Seq<char>, int) {
    let bytes = utf8(text);
    if bytes.len() <= limit {
        (text, 0)
    } else {
        let end = boundary_at_or_below(bytes, limit);
        let dropped = bytes.len() - end;
        (decode_utf8(bytes.subrange(0, end)) + "\n… "@ + decimal(dropped as nat) + " more bytes truncated\n"@,
            dropped)
    }
}

/// Cut `text` to at most `limit` bytes on a character boundary; a cut
/// text gains a trailing marker. Returns the text and the bytes dropped.
pub fn truncate_utf8(text: String, limit: usize) -> (r: (String, usize))
    ensures
        (r.0@, r.1 as int) == truncation(text@, limit as int),
{
    let s = text.as_str();
    let len = s.as_bytes().len();
    if len <= limit {
        return (text, 0);
    }
    let mut end = limit;
    while end > 0 && !s.is_char_boundary(end)
        invariant
            end <= limit < len,
            s@ == text@,
            len == utf8(text@).len(),
            boundary_at_or_below(utf8(text@), limit as int) == boundary_at_or_below(utf8(text@), end as int),
        decreases end,
    {
        end = end - 1;
    }
    proof {
        vstd::utf8::encode_utf8_valid_utf8(text@);
        vstd::utf8::is_char_boundary_start_end_of_seq(utf8(text@));
    }
    let dropped = len - end;
    let (head, _) = s.split_at(end);
    let mut truncated = copy_str(head);
    proof {
        vstd::utf8::encode_utf8_decode_utf8(head@);
    }
    push_str(&mut truncated, "\n… ");
    push_str(&mut truncated, crate::text::decimal_string(dropped).as_str());
    push_str(&mut truncated, " more bytes truncated\n");
    (truncated, dropped)
}

/// A path as displayed.
pub fn display_path(path: &str) -> (r: String)
    ensures
        r@ == path@,
{
    copy_str(path)
}

/// The explanation of a run that changed nothing, keyed by the first
/// counter that is zero; `None` when something changed.
pub open spec fn no_change_reason(r: RunReport) -> Option<Seq<char>> {
    if r.files_changed > 0 {
        None
    } else if r.files_visited == 0 {
        Some(no_files_message())
    } else if r.files_scanned == 0 {
        Some("Visited "@ + decimal(r.files_visited as nat)
            + " file(s) but none belong to a language this script targets."@)
    } else {
        Some("Scanned "@ + decimal(r.files_scanned as nat) + " file(s); no rule matched."@)
    }
}

pub open spec fn no_files_message() -> Seq<char> {
    "No files were visited — check the paths, --\u{69}nclude/--exclude globs, and whether .gitignore is excluding the tree (--no-ignore overrides)."@
}

/// One-line explanation of a run that changed nothing, or `None` when
/// something changed.
pub fn explain_no_changes(report: &RunReport) -> (r: Option<String>)
    ensures
        match no_change_reason(*report) {
            Some(m) => r matches Some(s) && s@ == m,
            None => r is None,
        },
{
    if report.files_changed > 0 {
        return None;
    }
    if report.files_visited == 0 {
        return Some(copy_str(
            "No files were visited — check the paths, --\u{69}nclude/--exclude globs, and whether .gitignore is excluding the tree (--no-ignore overrides).",
        ));
    }
    if report.files_scanned == 0 {
        let mut s = copy_str("Visited ");
        push_str(&mut s, decimal_string_u64(report.files_visited).as_str());
        push_str(&mut s, " file(s) but none belong to a language this script targets.");
        return Some(s);
    }
    let mut s = copy_str("Scanned ");
    push_str(&mut s, decimal_string_u64(report.files_scanned).as_str());
    push_str(&mut s, " file(s); no rule matched.");
    Some(s)
}

/// The advisory for a rule that matched no file.
pub open spec fn dead_message(s: RuleStat) -> Seq<char> {
    "matched no files: "@ + s.rule@
}

/// The warnings of a run: one per dead rule, then the no-change reason.
pub open spec fn advisory_texts(r: RunReport) -> Seq<Seq<char>> {
    let dead = dead_upto(r.rules@, r.rules@.len() as int).map_values(
        |s: RuleStat| dead_message(s),
    );
    match no_change_reason(r) {
        Some(m) => dead.push(m),
        None => dead,
    }
}

/// Warnings that apply to any run: rules that matched nothing, and why
/// nothing changed when nothing did.
pub fn advisories(report: &RunReport) -> (r: Vec<String>)
    ensures
        string_seq(r@) == advisory_texts(*report),
{
    let dead = report.dead_rules();
    let ghost dv = dead@.map_values(|p: &RuleStat| *p);
    let mut out: Vec<String> = Vec::new();
    let mut i: usize = 0;
    while i < dead.len()
        invariant
            dv == dead@.map_values(|p: &RuleStat| *p),
            i <= dead@.len(),
            out@.len() == i,
            string_seq(out@) == dv.subrange(0, i as int).map_values(|s: RuleStat| dead_message(s)),
        decreases dead@.len() - i,
    {
        assert(dv[i as int] == *dead@[i as int]);
        let ghost before = out@;
        out.push(concat2("matched no files: ", dead[i].rule.as_str()));
        proof {
            let rhs = dv.subrange(0, i + 1).map_values(|s: RuleStat| dead_message(s));
            let prev = dv.subrange(0, i as int).map_values(|s: RuleStat| dead_message(s));
            assert forall|j: int| 0 <= j < i + 1 implies string_seq(out@)[j] == rhs[j] by {
                if j < i {
                    assert(string_seq(before)[j] == prev[j]);
                    assert(out@[j] == before[j]);
                }
            }
            assert(string_seq(out@) =~= rhs);
        }
        i = i + 1;
    }
    assert(dv.subrange(0, i as int) =~= dv);
    match explain_no_changes(report) {
        Some(reason) => {
            out.push(reason);
            assert(string_seq(out@) =~= advisory_texts(*report));
        },
        None => {},
    }
    out
}

/// Pushing a string extends its view by one.
proof fn lemma_string_seq_push(v: Seq<String>, s: String)
    ensures
        string_seq(v.push(s)) == string_seq(v).push(s@),
{
    assert(string_seq(v.push(s)) =~= string_seq(v).push(s@));
}

/// A lowercase hexadecimal digit.
pub open spec fn hex_digit(d: int) -> char {
    if d < 10 { (48 + d) as char } else { (87 + d) as char }
}

/// How one character is written inside a JSON string literal: `"` and
/// `\` and the five short control escapes with a backslash, the other
/// characters below U+0020 as `\u00XX`, every other character as itself.
pub open spec fn json_escape(c: char) -> Seq<char> {
    if c == '"' {
        seq!['\\', '"']
    } else if c == '\\' {
        seq!['\\', '\\']
    } else if c == '\n' {
        seq!['\\', 'n']
    } else if c == '\r' {
        seq!['\\', 'r']
    } else if c == '\t' {
        seq!['\\', 't']
    } else if c == '\x08' {
        seq!['\\', 'b']
    } else if c == '\x0C' {
        seq!['\\', 'f']
    } else if (c as int) < 32 {
        seq!['\\', 'u', '0', '0', hex_digit(c as int / 16), hex_digit(c as int % 16)]
    } else {
        seq![c]
    }
}

/// The escaped characters of `s`, in order.
pub open spec fn json_escaped(s: Seq<char>) -> Seq<char>
    decreases s.len(),
{
    if s.len() == 0 {
        Seq::empty()
    } else {
        json_escaped(s.drop_last()) + json_escape(s.last())
    }
}

/// The JSON string literal of `s`: its escaped characters in quotes.
pub open spec fn json_quoted(s: Seq<char>) -> Seq<char> {
    seq!['"'] + json_escaped(s) + seq!['"']
}

/// `serde_json::to_string` of a string: its JSON literal. serde_json's
/// `format_escaped_str` writes a quote, each character escaped by its
/// `ESCAPE` table (the short escapes, `\u00XX` with lowercase hex digits
/// for the other control characters, every other character unchanged),
/// and a quote. Writing a `str` into a `Vec` does not fail; the empty
/// text is returned in that case only.
#[verifier::external_body]
pub(crate) fn quote_json(s: &str) -> (r: String)
    ensures
        r@ == json_quoted(s@),
{
    match serde_json::to_string(s) {
        Ok(text) => text,
        Err(_) => String::new(),
    }
}

/// A JSON array of already rendered values.
pub open spec fn json_array(items: Seq<Seq<char>>) -> Seq<char> {
    "["@ + join(items, ","@) + "]"@
}

/// A JSON object of already rendered members.
pub open spec fn json_object(members: Seq<Seq<char>>) -> Seq<char> {
    "{"@ + join(members, ","@) + "}"@
}

/// `"key":value`, for a key that needs no escaping.
pub open spec fn member(key: Seq<char>, value: Seq<char>) -> Seq<char> {
    "\""@ + key + "\":"@ + value
}

pub open spec fn count(n: nat) -> Seq<char> {
    decimal(n)
}

/// The aggregate counters, present at every detail level.
pub open spec fn summary_text(r: RunReport) -> Seq<char> {
    json_object(seq![
        member("bytes_after"@, count(r.bytes_after as nat)),
        member("bytes_before"@, count(r.bytes_before as nat)),
        member("changed"@, count(r.files_changed as nat)),
        member("elapsed_ms"@, count(r.elapsed_ms as nat)),
        member("scanned"@, count(r.files_scanned as nat)),
        member("skipped"@, count(r.skipped@.len())),
        member("visited"@, count(r.files_visited as nat)),
    ])
}

/// One rule's entry: its index, its description and how many files it
/// matched (`files: 0` marks a dead rule).
pub open spec fn rule_text(s: RuleStat) -> Seq<char> {
    json_object(seq![
        member("files"@, count(s.files_matched as nat)),
        member("i"@, count(s.index as nat)),
        member("rule"@, json_quoted(s.rule@)),
    ])
}

pub open spec fn rules_text(r: RunReport) -> Seq<char> {
    json_array(r.rules@.map_values(|s: RuleStat| rule_text(s)))
}

pub open spec fn skipped_text(f: SkippedFile) -> Seq<char> {
    json_object(seq![member("path"@, json_quoted(f.path@)), member("reason"@, json_quoted(f.reason@))])
}

pub open spec fn diff_text(d: (Seq<char>, Seq<char>)) -> Seq<char> {
    json_object(seq![member("diff"@, json_quoted(d.1)), member("path"@, json_quoted(d.0))])
}

/// The members of the run document, keys in order: `changed`, `diffs`,
/// `rules`, `skipped`, `summary`, `truncated`. At `Summary` detail only
/// the counters; at `Diff` detail also the kept diffs, and what the caps
/// dropped when they dropped anything.
pub open spec fn document_members(
    detail: Detail,
    changed: Seq<Seq<char>>,
    diffs: Seq<(Seq<char>, Seq<char>)>,
    files_dropped: nat,
    bytes_dropped: nat,
    r: RunReport,
) -> Seq<Seq<char>> {
    if detail == Detail::Summary {
        seq![member("summary"@, summary_text(r))]
    } else {
        let changed_m = seq![member("changed"@, json_array(changed.map_values(|p: Seq<char>| json_quoted(p))))];
        let diffs_m = if detail == Detail::Diff {
            seq![member("diffs"@, json_array(diffs.map_values(|d: (Seq<char>, Seq<char>)| diff_text(d))))]
        } else {
            Seq::empty()
        };
        let rules_m = seq![member("rules"@, rules_text(r))];
        let skipped_m = if r.skipped@.len() > 0 {
            seq![member("skipped"@, json_array(r.skipped@.map_values(|f: SkippedFile| skipped_text(f))))]
        } else {
            Seq::empty()
        };
        let summary_m = seq![member("summary"@, summary_text(r))];
        let truncated_m = if detail == Detail::Diff && (files_dropped > 0 || bytes_dropped > 0) {
            seq![member("truncated"@, json_object(seq![
                member("bytes"@, count(bytes_dropped)),
                member("files"@, count(files_dropped)),
            ]))]
        } else {
            Seq::empty()
        };
        changed_m + diffs_m + rules_m + skipped_m + summary_m + truncated_m
    }
}

/// `"key":value` built at run time.
pub(crate) fn member_exec(key: &str, value: &str) -> (r: String)
    ensures
        r@ == member(key@, value@),
{
    let mut s = copy_str("\"");
    push_str(&mut s, key);
    push_str(&mut s, "\":");
    push_str(&mut s, value);
    s
}

/// The object of the members `parts`.
pub(crate) fn object_exec(parts: &Vec<String>) -> (r: String)
    ensures
        r@ == json_object(string_seq(parts@)),
{
    let mut s = copy_str("{");
    push_str(&mut s, join_strings(parts, ",").as_str());
    push_str(&mut s, "}");
    s
}

/// The array of the values `parts`.
pub(crate) fn array_exec(parts: &Vec<String>) -> (r: String)
    ensures
        r@ == json_array(string_seq(parts@)),
{
    let mut s = copy_str("[");
    push_str(&mut s, join_strings(parts, ",").as_str());
    push_str(&mut s, "]");
    s
}

/// The aggregate counters of a run as a JSON object.
pub fn summary_json(report: &RunReport) -> (r: String)
    ensures
        r@ == summary_text(*report),
{
    let mut m: Vec<String> = Vec::new();
    m.push(member_exec("bytes_after", decimal_string_u64(report.bytes_after).as_str()));
    m.push(member_exec("bytes_before", decimal_string_u64(report.bytes_before).as_str()));
    m.push(member_exec("changed", decimal_string_u64(report.files_changed).as_str()));
    m.push(member_exec("elapsed_ms", decimal_string_u64(report.elapsed_ms).as_str()));
    m.push(member_exec("scanned", decimal_string_u64(report.files_scanned).as_str()));
    m.push(member_exec("skipped", decimal_string(report.skipped.len()).as_str()));
    m.push(member_exec("visited", decimal_string_u64(report.files_visited).as_str()));
    assert(string_seq(m@) =~= seq![
        member("bytes_after"@, count(report.bytes_after as nat)),
        member("bytes_before"@, count(report.bytes_before as nat)),
        member("changed"@, count(report.files_changed as nat)),
        member("elapsed_ms"@, count(report.elapsed_ms as nat)),
        member("scanned"@, count(report.files_scanned as nat)),
        member("skipped"@, count(report.skipped@.len())),
        member("visited"@, count(report.files_visited as nat)),
    ]);
    object_exec(&m)
}

/// Per-rule match counts as a JSON array.
pub fn rules_json(report: &RunReport) -> (r: String)
    ensures
        r@ == rules_text(*report),
{
    let ghost want = report.rules@.map_values(|s: RuleStat| rule_text(s));
    let mut items: Vec<String> = Vec::new();
    let mut i: usize = 0;
    while i < report.rules.len()
        invariant
            want == report.rules@.map_values(|s: RuleStat| rule_text(s)),
            i <= report.rules@.len(),
            string_seq(items@) == want.subrange(0, i as int),
        decreases report.rules@.len() - i,
    {
        let stat = &report.rules[i];
        let mut m: Vec<String> = Vec::new();
        m.push(member_exec("files", decimal_string_u64(stat.files_matched).as_str()));
        m.push(member_exec("i", decimal_string(stat.index).as_str()));
        m.push(member_exec("rule", quote_json(stat.rule.as_str()).as_str()));
        assert(string_seq(m@) =~= seq![
            member("files"@, count(stat.files_matched as nat)),
            member("i"@, count(stat.index as nat)),
            member("rule"@, json_quoted(stat.rule@)),
        ]);
        let ghost prev = items@;
        let o = object_exec(&m);
        items.push(o);
        proof { lemma_string_seq_push(prev, o); }
        assert(want.subrange(0, i + 1) =~= want.subrange(0, i as int).push(want[i as int]));
        i = i + 1;
    }
    assert(want.subrange(0, i as int) =~= want);
    array_exec(&items)
}

impl ChangeCollector {
    /// The members of the run document (see [`document_members`]).
    pub open spec fn members_spec(&self, r: RunReport) -> Seq<Seq<char>> {
        document_members(self.opts().detail, self.changed_paths(), self.kept_diffs(),
            self.diffs_dropped() as nat, self.bytes_dropped() as nat, r)
    }

    fn members(&self, report: &RunReport) -> (r: Vec<String>)
        ensures
            string_seq(r@) == self.members_spec(*report),
    {
        let mut out: Vec<String> = Vec::new();
        if self.options.detail == Detail::Summary {
            out.push(member_exec("summary", summary_json(report).as_str()));
            assert(string_seq(out@) =~= self.members_spec(*report));
            return out;
        }
        let ghost cw = self.changed_paths().map_values(|p: Seq<char>| json_quoted(p));
        let mut quoted: Vec<String> = Vec::new();
        let mut i: usize = 0;
        while i < self.changed.len()
            invariant
                cw == self.changed_paths().map_values(|p: Seq<char>| json_quoted(p)),
                self.changed_paths() == string_seq(self.changed@),
                i <= self.changed@.len(),
                string_seq(quoted@) == cw.subrange(0, i as int),
            decreases self.changed@.len() - i,
        {
            let ghost prev = quoted@;
            let q = quote_json(self.changed[i].as_str());
            quoted.push(q);
            proof { lemma_string_seq_push(prev, q); }
            assert(cw.subrange(0, i + 1) =~= cw.subrange(0, i as int).push(cw[i as int]));
            i = i + 1;
        }
        assert(cw.subrange(0, i as int) =~= cw);
        out.push(member_exec("changed", array_exec(&quoted).as_str()));
        let ghost c1 = string_seq(out@);
        if self.options.detail == Detail::Diff {
            let ghost dw = self.kept_diffs().map_values(|d: (Seq<char>, Seq<char>)| diff_text(d));
            let mut items: Vec<String> = Vec::new();
            let mut j: usize = 0;
            while j < self.diffs.len()
                invariant
                    dw == self.kept_diffs().map_values(|d: (Seq<char>, Seq<char>)| diff_text(d)),
                    self.kept_diffs() == self.diffs@.map_values(|d: (String, String)| (d.0@, d.1@)),
                    j <= self.diffs@.len(),
                    string_seq(items@) == dw.subrange(0, j as int),
                decreases self.diffs@.len() - j,
            {
                let mut m: Vec<String> = Vec::new();
                m.push(member_exec("diff", quote_json(self.diffs[j].1.as_str()).as_str()));
                m.push(member_exec("path", quote_json(self.diffs[j].0.as_str()).as_str()));
                assert(string_seq(m@) =~= seq![
                    member("diff"@, json_quoted(self.diffs@[j as int].1@)),
                    member("path"@, json_quoted(self.diffs@[j as int].0@)),
                ]);
                let ghost prev = items@;
                let o = object_exec(&m);
                items.push(o);
                proof { lemma_string_seq_push(prev, o); }
                assert(dw.subrange(0, j + 1) =~= dw.subrange(0, j as int).push(dw[j as int]));
                j = j + 1;
            }
            assert(dw.subrange(0, j as int) =~= dw);
            out.push(member_exec("diffs", array_exec(&items).as_str()));
        }
        out.push(member_exec("rules", rules_json(report).as_str()));
        if report.skipped.len() > 0 {
            let ghost sw = report.skipped@.map_values(|f: SkippedFile| skipped_text(f));
            let mut items: Vec<String> = Vec::new();
            let mut j: usize = 0;
            while j < report.skipped.len()
                invariant
                    sw == report.skipped@.map_values(|f: SkippedFile| skipped_text(f)),
                    j <= report.skipped@.len(),
                    string_seq(items@) == sw.subrange(0, j as int),
                decreases report.skipped@.len() - j,
            {
                let mut m: Vec<String> = Vec::new();
                m.push(member_exec("path", quote_json(report.skipped[j].path.as_str()).as_str()));
                m.push(member_exec("reason", quote_json(report.skipped[j].reason.as_str()).as_str()));
                assert(string_seq(m@) =~= seq![
                    member("path"@, json_quoted(report.skipped@[j as int].path@)),
                    member("reason"@, json_quoted(report.skipped@[j as int].reason@)),
                ]);
                let ghost prev = items@;
                let o = object_exec(&m);
                items.push(o);
                proof { lemma_string_seq_push(prev, o); }
                assert(sw.subrange(0, j + 1) =~= sw.subrange(0, j as int).push(sw[j as int]));
                j = j + 1;
            }
            assert(sw.subrange(0, j as int) =~= sw);
            out.push(member_exec("skipped", array_exec(&items).as_str()));
        }
        out.push(member_exec("summary", summary_json(report).as_str()));
        if self.options.detail == Detail::Diff && (self.diffs_omitted > 0 || self.bytes_omitted > 0) {
            let mut m: Vec<String> = Vec::new();
            m.push(member_exec("bytes", decimal_string_u64(self.bytes_omitted).as_str()));
            m.push(member_exec("files", decimal_string_u64(self.diffs_omitted).as_str()));
            assert(string_seq(m@) =~= seq![
                member("bytes"@, count(self.bytes_omitted as nat)),
                member("files"@, count(self.diffs_omitted as nat)),
            ]);
            out.push(member_exec("truncated", object_exec(&m).as_str()));
        }
        assert(string_seq(out@) =~= self.members_spec(*report));
        out
    }

    /// The whole run as one JSON document, keys in alphabetical order.
    pub fn to_json(&self, report: &RunReport) -> (r: String)
        ensures
            r@ == json_object(self.members_spec(*report)),
    {
        object_exec(&self.members(report))
    }

    /// The document with the run's advisories added under `warnings`
    /// when there are any.
    pub fn to_json_with_warnings(&self, report: &RunReport) -> (r: String)
        ensures
            r@ == json_object(self.members_spec(*report) + (if advisory_texts(*report).len() > 0 {
                seq![member("warnings"@, json_array(advisory_texts(*report).map_values(|a: Seq<char>| json_quoted(a))))]
            } else {
                Seq::empty()
            })),
    {
        let mut ms = self.members(report);
        let ghost base = string_seq(ms@);
        let warnings = advisories(report);
        if warnings.len() > 0 {
            let ghost aw = advisory_texts(*report).map_values(|a: Seq<char>| json_quoted(a));
            let mut items: Vec<String> = Vec::new();
            let mut j: usize = 0;
            while j < warnings.len()
                invariant
                    aw == advisory_texts(*report).map_values(|a: Seq<char>| json_quoted(a)),
                    string_seq(warnings@) == advisory_texts(*report),
                    j <= warnings@.len(),
                    string_seq(items@) == aw.subrange(0, j as int),
                decreases warnings@.len() - j,
            {
                let ghost prev = items@;
                let q = quote_json(warnings[j].as_str());
                items.push(q);
                proof { lemma_string_seq_push(prev, q); }
                assert(aw.subrange(0, j + 1) =~= aw.subrange(0, j as int).push(aw[j as int]));
                j = j + 1;
            }
            assert(aw.subrange(0, j as int) =~= aw);
            ms.push(member_exec("warnings", array_exec(&items).as_str()));
        }
        assert(string_seq(ms@) =~= base + (if advisory_texts(*report).len() > 0 {
            seq![member("warnings"@, json_array(advisory_texts(*report).map_values(|a: Seq<char>| json_quoted(a))))]
        } else {
            Seq::empty()
        }));
        object_exec(&ms)
    }
}

/// The advisories of a run as a JSON array of strings, or `None` when
/// there are none.
pub(crate) fn warnings_array(report: &RunReport) -> (r: Option<String>)
    ensures
        match r {
            Some(a) => advisory_texts(*report).len() > 0
                && a@ == json_array(advisory_texts(*report).map_values(|x: Seq<char>| json_quoted(x))),
            None => advisory_texts(*report).len() == 0,
        },
{
    let warnings = advisories(report);
    if warnings.len() == 0 {
        return None;
    }
    let ghost aw = advisory_texts(*report).map_values(|a: Seq<char>| json_quoted(a));
    let mut items: Vec<String> = Vec::new();
    let mut j: usize = 0;
    while j < warnings.len()
        invariant
            aw == advisory_texts(*report).map_values(|a: Seq<char>| json_quoted(a)),
            string_seq(warnings@) == advisory_texts(*report),
            j <= warnings@.len(),
            string_seq(items@) == aw.subrange(0, j as int),
        decreases warnings@.len() - j,
    {
        let ghost prev = items@;
        let q = quote_json(warnings[j].as_str());
        items.push(q);
        proof { lemma_string_seq_push(prev, q); }
        assert(aw.subrange(0, j + 1) =~= aw.subrange(0, j as int).push(aw[j as int]));
        j = j + 1;
    }
    assert(aw.subrange(0, j as int) =~= aw);
    Some(array_exec(&items))
}

} // verus!

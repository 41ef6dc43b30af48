use colab::render::{advisories, ChangeCollector, Detail, RenderOptions};
use colab::report::RunReport;
use colab::walker::FileChange;
use serde_json::Value;

fn change(path: &str, before: &str, after: &str) -> FileChange {
    FileChange {
        path: path.to_string(),
        before: before.to_string(),
        after: after.to_string(),
        rules_fired: if before == after { vec![] } else { vec![0] },
    }
}

fn report_with(changed: u64) -> RunReport {
    let mut report = RunReport::with_rules(&["go::import \"a\" -> \"b\"", "go::symbol dead"]);
    report.files_visited = 10;
    report.files_scanned = 4;
    report.files_changed = changed;
    report
}

fn to_json(collector: &ChangeCollector, report: &RunReport) -> Value {
    serde_json::from_str(&collector.to_json(report)).expect("the document is JSON")
}

#[test]
fn unchanged_files_are_dropped() {
    let mut collector = ChangeCollector::new(RenderOptions::default());
    collector.push(&change("a.go", "same", "same"));
    collector.push(&change("b.go", "old", "new"));
    assert_eq!(collector.changed(), ["b.go".to_string()]);
}

#[test]
fn summary_detail_omits_rules_and_paths() {
    let collector = ChangeCollector::new(RenderOptions {
        detail: Detail::Summary,
        ..Default::default()
    });
    let json = to_json(&collector, &report_with(1));
    assert!(json.get("summary").is_some());
    assert!(json.get("rules").is_none());
    assert!(json.get("changed").is_none());
}

#[test]
fn counts_detail_reports_dead_rules_but_no_diffs() {
    let mut collector = ChangeCollector::new(RenderOptions::default());
    collector.push(&change("b.go", "old", "new"));
    let json = to_json(&collector, &report_with(1));

    assert_eq!(json["rules"][0]["i"], 0);
    assert_eq!(json["rules"][1]["files"], 0);
    assert_eq!(json["changed"][0], "b.go");
    assert!(json.get("diffs").is_none());
}

#[test]
fn diff_detail_caps_the_file_count_and_reports_the_residue() {
    let mut collector = ChangeCollector::new(RenderOptions {
        detail: Detail::Diff,
        max_files: 1,
        ..Default::default()
    });
    collector.push(&change("a.go", "one\n", "ONE\n"));
    collector.push(&change("b.go", "two\n", "TWO\n"));

    let json = to_json(&collector, &report_with(2));
    assert_eq!(json["diffs"].as_array().unwrap().len(), 1);
    assert_eq!(json["truncated"]["files"], 1);
    assert_eq!(json["changed"].as_array().unwrap().len(), 2);
}

#[test]
fn oversized_diffs_are_truncated_on_a_char_boundary() {
    let before = "é\n".repeat(400);
    let after = "e\n".repeat(400);
    let mut collector = ChangeCollector::new(RenderOptions {
        detail: Detail::Diff,
        max_diff_bytes: 64,
        ..Default::default()
    });
    collector.push(&change("a.go", &before, &after));

    let json = to_json(&collector, &report_with(1));
    let diff = json["diffs"][0]["diff"].as_str().unwrap();
    assert!(diff.contains("more bytes truncated"), "got: {diff}");
    assert!(json["truncated"]["bytes"].as_u64().unwrap() > 0);
}

#[test]
fn skipped_files_appear_only_when_present() {
    let mut report = report_with(0);
    let collector = ChangeCollector::new(RenderOptions::default());
    assert!(to_json(&collector, &report).get("skipped").is_none());

    report.skip("bin.py", "stream did not contain valid UTF-8");
    let json = to_json(&collector, &report);
    assert_eq!(json["skipped"][0]["path"], "bin.py");
    assert_eq!(json["summary"]["skipped"], 1);
}

fn format_report() -> RunReport {
    let mut report = RunReport::with_rules(&["go::import \"a\" -> \"b\"", "go::symbol dead"]);
    report.files_visited = 10;
    report.files_scanned = 4;
    report.files_changed = 1;
    report.rules[0].files_matched = 1;
    report
}

#[test]
fn dead_rules_are_advertised() {
    let advisories = advisories(&format_report());
    assert_eq!(advisories.len(), 1);
    assert!(advisories[0].contains("matched no files"));
}

#[test]
fn a_run_that_changed_nothing_explains_itself() {
    let mut report = format_report();
    report.files_changed = 0;
    report.rules[0].files_matched = 0;
    let advisories = advisories(&report);
    assert!(advisories.iter().any(|a| a.contains("no rule matched")));
}

#[test]
fn summary_counters_are_exact() {
    let collector = ChangeCollector::new(RenderOptions {
        detail: Detail::Summary,
        ..Default::default()
    });
    assert_eq!(
        collector.to_json(&report_with(3)),
        "{\"summary\":{\"bytes_after\":0,\"bytes_before\":0,\"changed\":3,\"elapsed_ms\":0,\"scanned\":4,\"skipped\":0,\"visited\":10}}"
    );
}

#[test]
fn the_json_reporter_adds_warnings() {
    let reporter = colab::format::JsonReporter::new(RenderOptions {
        detail: Detail::Summary,
        ..Default::default()
    });
    let json: Value = serde_json::from_str(&reporter.finish(&report_with(0))).unwrap();
    let warnings = json["warnings"].as_array().unwrap();
    assert_eq!(warnings.len(), 3);
    assert_eq!(warnings[0], "matched no files: go::import \"a\" -> \"b\"");
    assert_eq!(warnings[2], "Scanned 4 file(s); no rule matched.");
}

#[test]
fn rule_descriptions_are_escaped() {
    let collector = ChangeCollector::new(RenderOptions::default());
    let text = collector.to_json(&report_with(1));
    assert!(text.contains("\"rule\":\"go::import \\\"a\\\" -> \\\"b\\\"\""), "{text}");
}

#[test]
fn changed_lists_changed_files_in_push_order_whatever_the_cap() {
    let mut options = RenderOptions::default();
    options.detail = Detail::Diff;
    options.max_files = 1;
    let mut c = ChangeCollector::new(options);
    c.push(&change("b.go", "old", "new"));
    c.push(&change("a.go", "same", "same"));
    c.push(&change("c.go", "x", "y"));
    c.push(&change("a.go", "p", "q"));
    let paths: Vec<&str> = c.changed().iter().map(|s| s.as_str()).collect();
    assert_eq!(paths, vec!["b.go", "c.go", "a.go"]);
}

#[test]
fn rule_names_are_written_as_escaped_json_strings() {
    let report = RunReport::with_rules(&["q\"b\\s\n\u{1}é"]);
    let text = colab::render::rules_json(&report);
    assert!(text.contains("\"q\\\"b\\\\s\\n\\u0001é\""), "got: {text}");
    let doc: Value = serde_json::from_str(&text).unwrap();
    assert_eq!(doc[0]["rule"].as_str(), Some("q\"b\\s\n\u{1}é"));
}

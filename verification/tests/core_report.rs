use colab::render::{explain_no_changes, Detail};
use colab::report::RunReport;

#[test]
fn empty_results_are_explained_by_which_counter_is_zero() {
    let mut report = RunReport::default();
    assert!(explain_no_changes(&report).unwrap().contains("No files"));

    report.files_visited = 400;
    assert!(
        explain_no_changes(&report)
            .unwrap()
            .contains("none belong to a language")
    );

    report.files_scanned = 38;
    assert!(
        explain_no_changes(&report)
            .unwrap()
            .contains("no rule matched")
    );

    report.files_changed = 1;
    assert!(explain_no_changes(&report).is_none());
}

#[test]
fn detail_round_trips_through_its_wire_form() {
    for name in Detail::NAMES {
        assert_eq!(Detail::parse(name).unwrap().as_str(), name);
    }
    assert!(Detail::parse("verbose").is_none());
}

#[test]
fn seeds_every_rule_with_a_zero_count() {
    let report = RunReport::with_rules(&["a", "b"]);
    assert_eq!(report.rules.len(), 2);
    assert_eq!(report.rules[1].index, 1);
    assert!(report.rules.iter().all(|r| r.files_matched == 0));
    assert_eq!(report.dead_rules().len(), 2);
}

fn change(path: &str, before: &str, after: &str, fired: Vec<usize>) -> colab::walker::FileChange {
    colab::walker::FileChange {
        path: path.to_string(),
        before: before.to_string(),
        after: after.to_string(),
        rules_fired: fired,
    }
}

#[test]
fn record_tallies_per_rule_and_aggregate() {
    let mut report = RunReport::with_rules(&["a", "b"]);
    report.record(&change("x.go", "one", "1", vec![0]));
    report.record(&change("y.go", "two", "two", vec![]));
    report.record(&change("z.go", "three", "33333", vec![0]));

    assert_eq!(report.files_scanned, 3);
    assert_eq!(report.files_changed, 2);
    assert_eq!(report.rules[0].files_matched, 2);
    assert_eq!(report.rules[1].files_matched, 0);
    assert_eq!(report.dead_rules().iter().map(|r| r.index).collect::<Vec<_>>(), [1]);
}

#[test]
fn out_of_range_rule_index_is_ignored() {
    let mut report = RunReport::with_rules(&["only"]);
    report.record(&change("x.go", "a", "b", vec![0, 7]));
    assert_eq!(report.rules[0].files_matched, 1);
}

#[test]
fn skip_keeps_the_byte_counters_and_duration() {
    let mut report = RunReport::with_rules(&["a"]);
    report.bytes_before = 7;
    report.bytes_after = 9;
    report.elapsed_ms = 12;
    report.skip("bin.dat", "not UTF-8");
    assert_eq!((report.bytes_before, report.bytes_after, report.elapsed_ms), (7, 9, 12));
    assert_eq!(report.skipped.len(), 1);
    assert_eq!(report.skipped[0].path, "bin.dat");
    assert_eq!(report.skipped[0].reason, "not UTF-8");
}

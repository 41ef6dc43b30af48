use colab::format::{resolve_exec_mode, ExecMode, Format};
use colab::render::Detail;

#[test]
fn check_flag_overrides_format_default() {
    assert_eq!(
        resolve_exec_mode(false, false, true, Format::Human, true),
        ExecMode::Check
    );
}

#[test]
fn write_flag_overrides_format_default() {
    assert_eq!(
        resolve_exec_mode(true, false, false, Format::Json, false),
        ExecMode::Write
    );
}

#[test]
fn human_on_tty_defaults_to_write() {
    assert_eq!(
        resolve_exec_mode(false, false, false, Format::Human, true),
        ExecMode::Write
    );
}

#[test]
fn human_on_non_tty_defaults_to_dry_run() {
    assert_eq!(
        resolve_exec_mode(false, false, false, Format::Human, false),
        ExecMode::DryRun
    );
}

#[test]
fn json_defaults_to_dry_run_on_tty() {
    assert_eq!(
        resolve_exec_mode(false, false, false, Format::Json, true),
        ExecMode::DryRun
    );
}

#[test]
fn diff_defaults_to_dry_run() {
    assert_eq!(
        resolve_exec_mode(false, false, false, Format::Diff, true),
        ExecMode::DryRun
    );
}

#[test]
fn diff_format_implies_diff_detail() {
    assert_eq!(Format::Diff.default_detail(), Detail::Diff);
    assert_eq!(Format::Json.default_detail(), Detail::Counts);
    assert_eq!(Format::Human.default_detail(), Detail::Counts);
}

#[test]
fn human_writes_on_a_tty_and_dry_runs_otherwise() {
    assert_eq!(Format::Human.default_exec_mode(true), ExecMode::Write);
    assert_eq!(Format::Human.default_exec_mode(false), ExecMode::DryRun);
    assert_eq!(Format::Json.default_exec_mode(true), ExecMode::DryRun);
}

use colab::backends::registry;
use colab::error::Error;
use colab::format::{run_exit_code, ExecMode};
use colab::walker::file_matches_filters;

fn globs(ps: &[&str]) -> Vec<String> {
    ps.iter().map(|p| p.to_string()).collect()
}

#[test]
fn files_pass_when_no_filter_is_set() {
    assert_eq!(file_matches_filters("src/a.go", &globs(&[]), &globs(&[])).ok(), Some(true));
}

#[test]
fn only_globs_restrict_and_exclude_globs_drop() {
    let only = globs(&["*.go"]);
    assert_eq!(file_matches_filters("src/a.go", &only, &globs(&[])).ok(), Some(true));
    assert_eq!(file_matches_filters("src/a.rs", &only, &globs(&[])).ok(), Some(false));
    assert_eq!(file_matches_filters("src/a.go", &only, &globs(&["src/**"])).ok(), Some(false));
}

#[test]
fn an_invalid_filter_glob_is_a_configuration_error() {
    let err = file_matches_filters("a.go", &globs(&[]), &globs(&["src/["])).err().unwrap();
    assert!(matches!(&err, Error::Config(m) if m.starts_with("invalid glob `src/[`: ")));
    assert_eq!(err.exit_code(), 1);
}

#[test]
fn check_exits_ten_only_when_something_would_change() {
    assert_eq!(run_exit_code(ExecMode::Check, 3), 10);
    assert_eq!(run_exit_code(ExecMode::Check, 0), 0);
    assert_eq!(run_exit_code(ExecMode::DryRun, 3), 0);
    assert_eq!(run_exit_code(ExecMode::Write, 3), 0);
}

#[test]
fn an_unknown_language_names_the_closest_one() {
    let r = registry();
    assert!(r.lookup("go").is_ok());
    let err = r.lookup("javaa").err().unwrap();
    assert_eq!(err.exit_code(), 3);
    assert_eq!(
        err.to_string(),
        "unsupported operation: unknown language `javaa`; known languages: c, cpp, csharp, go, java, js, json (did you mean `java`?)"
    );
}

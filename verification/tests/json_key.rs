use colab::lang_json::key::MemberEdit;
use colab::operation::Operation;
use colab::backend::{LanguageBackend, RuleSpec};
use serde_json::Value;

const SETTINGS: &str = "{\n  \"permissions\": {\n    \"allow\": [\"Bash(ls:*)\"]\n  },\n  \"enabledPlugins\": {\n    \"mine@elsewhere\": true\n  }\n}\n";

fn run(op: &MemberEdit, source: &str) -> String {
    let once = op.apply(source);
    assert_eq!(op.apply(&once), once, "not idempotent: {}", op.describe());
    assert!(
        serde_json::from_str::<Value>(&once).is_ok(),
        "not valid JSON after {}:\n{once}",
        op.describe()
    );
    once
}

#[test]
fn a_member_is_added_after_the_last_in_the_same_style() {
    let op = MemberEdit::set("/enabledPlugins/code-intelligence@gb-agent-skills", "true").ok().unwrap();
    assert_eq!(
        run(&op, SETTINGS),
        "{\n  \"permissions\": {\n    \"allow\": [\"Bash(ls:*)\"]\n  },\n  \"enabledPlugins\": {\n    \"mine@elsewhere\": true,\n    \"code-intelligence@gb-agent-skills\": true\n  }\n}\n"
    );
}

#[test]
fn missing_parents_are_created() {
    let op = MemberEdit::set(
        "/extraKnownMarketplaces/gb-agent-skills",
        r#"{"source": {"source": "github", "repo": "grahambrooks/gb-agent-skills"}}"#,
    )
    .ok()
    .unwrap();
    let out = run(&op, SETTINGS);
    assert!(
        out.contains("  },\n  \"extraKnownMarketplaces\": {\"gb-agent-skills\": {\"source\": {\"source\": \"github\", \"repo\": \"grahambrooks/gb-agent-skills\"}}}\n}"),
        "{out}"
    );
}

#[test]
fn an_equal_value_however_written_is_left_alone() {
    let op = MemberEdit::set("/permissions", r#"{ "allow" : [ "Bash(ls:*)" ] }"#).ok().unwrap();
    assert_eq!(op.apply(SETTINGS), SETTINGS);
}

#[test]
fn set_replaces_a_different_value_in_place() {
    let op = MemberEdit::set("/enabledPlugins/mine@elsewhere", "false").ok().unwrap();
    assert_eq!(
        run(&op, SETTINGS),
        SETTINGS.replace("\"mine@elsewhere\": true", "\"mine@elsewhere\": false")
    );
}

#[test]
fn insert_never_overwrites() {
    let op = MemberEdit::insert("/enabledPlugins/mine@elsewhere", "false").ok().unwrap();
    assert_eq!(op.apply(SETTINGS), SETTINGS);
}

#[test]
fn delete_takes_the_separating_comma() {
    let first = MemberEdit::delete("/permissions").ok().unwrap();
    assert_eq!(
        run(&first, SETTINGS),
        "{\n  \"enabledPlugins\": {\n    \"mine@elsewhere\": true\n  }\n}\n"
    );
    let last = MemberEdit::delete("/enabledPlugins").ok().unwrap();
    assert_eq!(
        run(&last, SETTINGS),
        "{\n  \"permissions\": {\n    \"allow\": [\"Bash(ls:*)\"]\n  }\n}\n"
    );
    let only = MemberEdit::delete("/enabledPlugins/mine@elsewhere").ok().unwrap();
    assert!(run(&only, SETTINGS).contains("\"enabledPlugins\": {}"));
    assert_eq!(MemberEdit::delete("/absent").ok().unwrap().apply(SETTINGS), SETTINGS);
}

#[test]
fn an_empty_document_object_is_opened_up() {
    let op = MemberEdit::set("/a", "1").ok().unwrap();
    assert_eq!(run(&op, "{}\n"), "{\n  \"a\": 1\n}\n");
}

#[test]
fn a_one_line_object_stays_on_one_line() {
    let op = MemberEdit::set("/b", "[1, 2]").ok().unwrap();
    assert_eq!(run(&op, "{\"a\": 1}"), "{\"a\": 1, \"b\": [1, 2]}");
}

#[test]
fn array_steps_use_existing_indexes_only() {
    let op = MemberEdit::set("/list/1/name", "\"b2\"").ok().unwrap();
    let source = "{\"list\": [{\"name\": \"a\"}, {\"name\": \"b\"}]}";
    assert_eq!(run(&op, source), "{\"list\": [{\"name\": \"a\"}, {\"name\": \"b2\"}]}");
    assert_eq!(MemberEdit::set("/list/5/name", "1").ok().unwrap().apply(source), source);
}

#[test]
fn escaped_keys_are_matched_by_their_value() {
    let op = MemberEdit::set("/a~1b", "2").ok().unwrap();
    assert_eq!(run(&op, "{\"a\\/b\": 1}"), "{\"a\\/b\": 2}");
}

#[test]
fn invalid_json_and_bad_values_are_left_or_rejected() {
    let op = MemberEdit::set("/a", "1").ok().unwrap();
    assert_eq!(op.apply("{\"a\": }"), "{\"a\": }");
    assert!(MemberEdit::set("/a", "not json").is_err());
    assert!(MemberEdit::set("a", "1").is_err());
}

#[test]
fn a_rule_describes_itself_with_its_trimmed_value() {
    assert_eq!(
        MemberEdit::set("/a", "  true ").ok().unwrap().describe(),
        "json::key \"/a\" -> set true"
    );
    assert_eq!(MemberEdit::delete("/a").ok().unwrap().describe(), "json::key \"/a\" -> delete");
}

#[test]
fn errors_name_the_pointer_and_the_problem() {
    let e = MemberEdit::set("a", "1").err().unwrap();
    assert_eq!(
        e.to_string(),
        "configuration error: json::key \"a\": `a` is not a JSON Pointer: it must start with `/`, such as /enabledPlugins"
    );
    let e = MemberEdit::set("/a", "not json").err().unwrap();
    assert!(e.to_string().contains("`not json` is not a JSON value ("), "{}", e.to_string());
}

#[test]
fn multi_line_values_are_reindented_under_their_member() {
    let op = MemberEdit::set("/enabledPlugins/x", "{\n  \"k\": 1\n}").ok().unwrap();
    let out = run(&op, SETTINGS);
    assert!(out.contains("    \"x\": {\n      \"k\": 1\n    }\n  }\n}"), "{out}");
}

#[test]
fn the_json_backend_builds_key_rules() {
    let backend = colab::lang_json::JsonBackend;
    let rule = backend
        .build_rule("key", RuleSpec::SetValue { target: "/a".to_string(), value: "1".to_string() })
        .ok()
        .unwrap();
    assert_eq!(rule.apply("{}\n"), "{\n  \"a\": 1\n}\n");
    assert!(rule.is_file_relevant("settings.json"));
    assert!(!rule.is_file_relevant("settings.yaml"));
    let err = backend.build_rule("key", RuleSpec::Ensure { target: "/a".to_string() }).err().unwrap();
    assert_eq!(err.exit_code(), 3);
    let err = backend
        .build_rule("key", RuleSpec::Insert { target: "/a".to_string(), value: "{".to_string() })
        .err()
        .unwrap();
    assert_eq!(err.exit_code(), 1);
}

use colab::backend::LanguageBackend;
use colab::backends::registry;
use colab::lsp::{completions_for, diagnose, is_codemod_path, line_prefix, CompletionKind};

#[test]
fn line_prefix_handles_position_inside_first_line() {
    assert_eq!(line_prefix("hello world\n", 0, 5).unwrap(), "hello");
}

#[test]
fn line_prefix_handles_second_line() {
    assert_eq!(line_prefix("first\nsecond line\n", 1, 6).unwrap(), "second");
}

#[test]
fn line_prefix_clamps_to_line_length() {
    assert_eq!(line_prefix("ab\n", 0, 99).unwrap(), "ab");
}

#[test]
fn line_prefix_past_the_last_line_is_empty() {
    assert_eq!(line_prefix("ab", 3, 1).unwrap(), "");
    assert!(line_prefix("é", 0, 1).is_none());
}

#[test]
fn is_codemod_uri_recognises_extension() {
    assert!(is_codemod_path("/x/y.codemod"));
    assert!(!is_codemod_path("/x/y.go"));
}

#[test]
fn diagnose_returns_empty_for_valid_script() {
    let diags = diagnose(&registry(), "refactor \"x\" { match go::import \"old\" { replace \"new\" } }");
    assert!(diags.is_none(), "got: {:?}", diags);
}

#[test]
fn diagnose_emits_parse_error() {
    let diags = diagnose(&registry(), "this is not a script");
    assert_eq!(diags.unwrap().0, 2);
}

#[test]
fn diagnose_emits_unsupported_namespace_error() {
    let diags = diagnose(&registry(), "refactor \"x\" { match klingon::module \"a\" { replace \"b\" } }");
    assert_eq!(diags.unwrap().0, 3);
}

#[test]
fn completions_after_match_offer_languages() {
    let items = completions_for(&registry(), "    match ");
    let labels: Vec<_> = items.iter().map(|i| i.label.as_str()).collect();
    assert!(labels.contains(&"go"));
    assert!(labels.contains(&"java"));
    assert_eq!(items[0].insert_text.as_deref(), Some("c::"));
}

#[test]
fn completions_after_lang_offer_modules() {
    let items = completions_for(&registry(), "    match go::");
    let labels: Vec<_> = items.iter().map(|i| i.label.as_str()).collect();
    assert!(labels.contains(&"import"));
    assert!(labels.contains(&"symbol"));
    assert!(items.iter().all(|i| i.kind == CompletionKind::Module));
}

#[test]
fn completions_inside_block_offer_actions() {
    let items = completions_for(&registry(), "        match go::import \"old\" { ");
    let labels: Vec<_> = items.iter().map(|i| i.label.as_str()).collect();
    assert!(labels.contains(&"replace"));
    assert!(labels.contains(&"delete"));
    assert!(labels.contains(&"ensure"));
    assert!(labels.contains(&"replace_call"));
}

#[test]
fn keywords_are_offered_by_position() {
    let top: Vec<_> = completions_for(&registry(), "ref").into_iter().map(|i| i.label).collect();
    assert_eq!(top, vec!["refactor".to_string()]);
    let inner: Vec<_> = completions_for(&registry(), "refactor \"x\" { ").into_iter().map(|i| i.label).collect();
    assert_eq!(inner, vec!["match".to_string()]);
    assert!(completions_for(&registry(), "").is_empty());
    assert!(completions_for(&registry(), "    match klingon::").is_empty());
}

#[test]
fn module_completions_carry_the_capability_description() {
    let reg = registry();
    let items = completions_for(&reg, "match json::");
    let caps = reg.get("json").unwrap().capabilities();
    assert_eq!(items.len(), caps.len());
    assert_eq!(items[0].label, "key");
    assert_eq!(items[0].detail.as_deref(), Some(caps[0].description));
    assert_eq!(items[0].insert_text, None);
    assert!(!items[0].snippet);
}

#[test]
fn keyword_completions_are_snippets() {
    let inner = completions_for(&registry(), "refactor \"x\" { ");
    assert_eq!(inner[0].insert_text.as_deref(), Some("match $1::$2 \"$3\" { $0 }"));
    assert!(inner[0].snippet);
    assert_eq!(inner[0].kind, CompletionKind::Keyword);
    let actions = completions_for(&registry(), "match go::import \"a\" { ");
    assert_eq!(actions[0].insert_text.as_deref(), Some("replace \"$0\""));
    assert_eq!(actions[0].detail.as_deref(), Some("DSL action"));
}

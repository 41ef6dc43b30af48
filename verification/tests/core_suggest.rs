use colab::suggest::{candidates_note, closest, edit_distance};
use colab::template::render_call_template;

#[test]
fn distance_counts_single_edits() {
    assert_eq!(edit_distance("import", "import"), 0);
    assert_eq!(edit_distance("improt", "import"), 2);
    assert_eq!(edit_distance("", "abc"), 3);
    assert_eq!(edit_distance("abc", ""), 3);
}

#[test]
fn finds_a_near_miss() {
    let modules = ["call", "import", "struct_tag", "symbol"];
    assert_eq!(closest("improt", &modules), Some("import"));
    assert_eq!(closest("symbl", &modules), Some("symbol"));
    assert_eq!(closest("Import", &modules), Some("import"));
}

#[test]
fn declines_to_guess_when_nothing_is_close() {
    let modules = ["call", "import", "struct_tag", "symbol"];
    assert_eq!(closest("zzzzzzzz", &modules), None);
    assert_eq!(closest("", &modules), None);
}

#[test]
fn short_names_get_a_one_edit_budget() {
    // `rs` → `rust` is two edits; too far for a two-character input.
    assert_eq!(closest("rs", &["rust", "go"]), None);
    assert_eq!(closest("g0", &["rust", "go"]), Some("go"));
}

#[test]
fn ties_prefer_the_shorter_candidate() {
    assert_eq!(closest("us", &["use", "uses"]), Some("use"));
}

#[test]
fn note_lists_candidates_alphabetically_and_suggests() {
    let note = candidates_note("improt", "modules", &["symbol", "import", "call"]);
    assert_eq!(
        note,
        "known modules: call, import, symbol (did you mean `import`?)"
    );
}

#[test]
fn note_omits_the_suggestion_when_nothing_is_close() {
    let note = candidates_note("xyzzy", "languages", &["go", "rust"]);
    assert_eq!(note, "known languages: go, rust");
}

#[test]
fn note_handles_an_empty_registry() {
    assert_eq!(candidates_note("go", "languages", &[]), "no languages are registered");
}

#[test]
fn substitutes_args_placeholder() {
    let out = render_call_template("f($args)", "old", &["a", "b"]);
    assert_eq!(out, "f(a, b)");
}

#[test]
fn substitutes_positional_args() {
    let out = render_call_template("g($2, $1, nil)", "old", &["a", "b"]);
    assert_eq!(out, "g(b, a, nil)");
}

#[test]
fn substitutes_func_placeholder() {
    let out = render_call_template("$func($args)", "pkg.Old", &["x"]);
    assert_eq!(out, "pkg.Old(x)");
}

#[test]
fn dollar_dollar_emits_literal() {
    assert_eq!(render_call_template("$$1", "f", &["a"]), "$1");
}

#[test]
fn out_of_range_positional_expands_to_empty() {
    let out = render_call_template("h($1, $5)", "old", &["a"]);
    assert_eq!(out, "h(a, )");
}

#[test]
fn unknown_placeholder_emits_literal_dollar() {
    let out = render_call_template("$bogus", "old", &[]);
    assert_eq!(out, "$bogus");
}

#[test]
fn supports_no_args_call() {
    let out = render_call_template("g()", "old", &[]);
    assert_eq!(out, "g()");
}

#[test]
fn handles_template_without_placeholders() {
    assert_eq!(render_call_template("plain text", "f", &[]), "plain text");
}

#[test]
fn edit_distance_is_symmetric_and_zero_only_for_equal_texts() {
    assert_eq!(edit_distance("improt", "import"), edit_distance("import", "improt"));
    assert_eq!(edit_distance("kitten", "sitting"), 3);
    assert_eq!(edit_distance("sitting", "kitten"), 3);
    assert_eq!(edit_distance("same", "same"), 0);
    assert!(edit_distance("same", "sane") > 0);
    assert_eq!(edit_distance("", "abc"), 3);
}

use colab::error::{Error, ParseDetail};

#[test]
fn resolves_a_byte_offset_to_line_and_column() {
    let source = "refactor \"x\" {\n  match go::import \"a\" { replac \"b\" }\n}\n";
    let offset = source.find("replac").unwrap();
    let detail = ParseDetail::at_offset(source, offset, "Unrecognized token".to_string(), vec![]);

    assert_eq!(detail.line, 2);
    assert_eq!(detail.column, 26);
    assert_eq!(detail.offset, offset);
}

#[test]
fn snippet_puts_the_caret_under_the_column() {
    let source = "one\ntwo\n";
    let detail = ParseDetail::at_offset(source, 5, "bad".to_string(), vec![]);
    assert_eq!(detail.snippet.as_deref(), Some("two\n ^"));
}

#[test]
fn column_counts_characters_not_bytes() {
    let source = "// é é\nmatch\n";
    let offset = source.find("match").unwrap();
    let detail = ParseDetail::at_offset(source, offset, "bad".to_string(), vec![]);
    assert_eq!(detail.line, 2);
    assert_eq!(detail.column, 1);
}

#[test]
fn offset_past_the_end_clamps_to_the_last_line() {
    let source = "refactor \"x\" {\n";
    let detail = ParseDetail::at_offset(source, 9_999, "unexpected EOF".to_string(), vec![]);
    assert_eq!(detail.offset, source.len());
    assert_eq!(detail.line, 2);
}

#[test]
fn display_names_the_position_and_the_valid_tokens() {
    let detail = ParseDetail::at_offset(
        "match\n",
        0,
        "Unrecognized token `match`".to_string(),
        vec!["\"refactor\"".to_string()],
    );
    let rendered = Error::Parse(detail).to_string();
    assert!(
        rendered.starts_with("parse error at line 1, column 1:"),
        "{rendered}"
    );
    assert!(rendered.contains("expected one of: \"refactor\""));
}

#[test]
fn parse_errors_keep_exit_code_two() {
    let err = Error::Parse(ParseDetail::at_offset("x", 0, "bad".to_string(), vec![]));
    assert_eq!(err.exit_code(), 2);
}

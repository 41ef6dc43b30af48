use colab::lang_json::pointer::parse;

#[test]
fn tokens_are_unescaped() {
    assert_eq!(
        parse("/enabledPlugins/a~1b~0c").unwrap(),
        vec!["enabledPlugins", "a/b~c"]
    );
    assert_eq!(parse("/").unwrap(), vec![""]);
}

#[test]
fn malformed_pointers_are_rejected() {
    for bad in ["", "a/b", "/a~2", "/a~"] {
        assert!(parse(bad).is_err(), "{bad:?}");
    }
}

#[test]
fn pointer_errors_name_the_pointer() {
    assert_eq!(
        parse("a/b").unwrap_err(),
        "`a/b` is not a JSON Pointer: it must start with `/`, such as /enabledPlugins"
    );
    assert_eq!(
        parse("/a~2").unwrap_err(),
        "`/a~2`: `~` must be written `~0`, and `/` inside a key `~1`"
    );
}

#[test]
fn empty_tokens_are_kept() {
    assert_eq!(parse("/a//b").unwrap(), vec!["a", "", "b"]);
}

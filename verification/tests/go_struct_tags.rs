use colab::operation::Operation;

#[test]
fn renames_a_single_json_tag_value() {
        let src = "package demo\n\ntype User struct {\n\tName string `json:\"old_name\"`\n}\n";
        let out = colab::lang_go::struct_tags::rename("json:old_name", "json:new_name", src);
        assert!(out.contains("`json:\"new_name\"`"), "got: {out}");
        assert!(!out.contains("old_name"));
    }

#[test]
fn leaves_other_pairs_in_same_tag_alone() {
        let src =
            "package demo\n\ntype User struct {\n\tName string `json:\"old\" yaml:\"keep\"`\n}\n";
        let out = colab::lang_go::struct_tags::rename("json:old", "json:new", src);
        assert!(out.contains("`json:\"new\" yaml:\"keep\"`"), "got: {out}");
    }

#[test]
fn rewrites_in_multiple_fields() {
        let src = "package demo\n\ntype A struct { X int `json:\"old\"` }\ntype B struct { Y int `json:\"old\"` }\n";
        let out = colab::lang_go::struct_tags::rename("json:old", "json:new", src);
        assert!(out.matches("json:\"new\"").count() == 2, "got: {out}");
        assert!(!out.contains("json:\"old\""));
    }

#[test]
fn can_change_tag_key_and_value() {
        // Renaming `json:foo` to `protobuf:foo` swaps the key.
        let src = "package demo\n\ntype A struct { X int `json:\"foo\"` }\n";
        let out = colab::lang_go::struct_tags::rename("json:foo", "protobuf:foo", src);
        assert!(out.contains("`protobuf:\"foo\"`"), "got: {out}");
    }

#[test]
fn does_not_rewrite_on_value_mismatch() {
        let src = "package demo\n\ntype A struct { X int `json:\"different\"` }\n";
        assert_eq!(colab::lang_go::struct_tags::rename("json:foo", "json:bar", src), src);
    }

#[test]
fn does_not_match_tag_value_with_options() {
        // `json:"name,omitempty"` stores "name,omitempty" as the value;
        // a target of `json:name` must not partial-match.
        let src = "package demo\n\ntype A struct { X int `json:\"name,omitempty\"` }\n";
        assert_eq!(colab::lang_go::struct_tags::rename("json:name", "json:renamed", src), src);
    }

#[test]
fn does_not_touch_string_literals_outside_tags() {
        let src = "package demo\n\nvar s = `json:\"old\"`\nfunc f() { _ = s }\n";
        // `s` is a regular raw string literal, not a struct tag.
        assert_eq!(colab::lang_go::struct_tags::rename("json:old", "json:new", src), src);
    }

#[test]
fn struct_tags_rename_is_idempotent() {
        let src = "package demo\n\ntype A struct { X int `json:\"old\"` }\n";
        let once = colab::lang_go::struct_tags::rename("json:old", "json:new", src);
        let twice = colab::lang_go::struct_tags::rename("json:old", "json:new", &once);
        assert_eq!(once, twice);
    }

#[test]
fn returns_input_unchanged_for_malformed_pair() {
        let src = "package demo\n\ntype A struct { X int `json:\"old\"` }\n";
        assert_eq!(colab::lang_go::struct_tags::rename("noseparator", "json:new", src), src);
        assert_eq!(colab::lang_go::struct_tags::rename("json:old", "noseparator", src), src);
    }

#[test]
fn tag_replace_operation_is_relevant_for_go_files() {
        let op = colab::lang_go::struct_tags::TagReplace {
            from: "json:a".into(),
            to: "json:b".into(),
        };
        assert!(op.is_file_relevant("foo.go"));
        assert!(!op.is_file_relevant("foo.rs"));
    }

#[test]
fn a_longer_key_ending_in_the_target_key_is_another_pair() {
    let src = "package demo\n\ntype User struct {\n\tName string `myjson:\"old\" json:\"old\"`\n}\n";
    let out = colab::lang_go::struct_tags::rename("json:old", "json:new", src);
    assert_eq!(out, "package demo\n\ntype User struct {\n\tName string `myjson:\"old\" json:\"new\"`\n}\n");
}

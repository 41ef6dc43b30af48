
#[test]
fn renames_a_using_directive() {
    #[allow(non_snake_case)]
    let SRC: &str = "using System;\nusing System.Text;\n\nnamespace Demo;\n\nclass C { }\n";
        let out = colab::lang_csharp::usings::rename("System.Text", "System.Text.Json", SRC);
        assert!(out.contains("using System.Text.Json;"), "got: {out}");
        assert!(out.contains("using System;"), "other usings untouched");
    }

#[test]
fn matches_the_static_form() {
        let src = "using static Foo.Bar;\n";
        let out = colab::lang_csharp::usings::rename("Foo.Bar", "Foo.Baz", src);
        assert_eq!(out, "using static Foo.Baz;\n");
    }

#[test]
fn alias_form_targets_the_right_hand_side() {
        let src = "using Alias = Foo.Bar;\n";
        let out = colab::lang_csharp::usings::rename("Foo.Bar", "Foo.Baz", src);
        assert_eq!(out, "using Alias = Foo.Baz;\n");
        // And the alias itself is not the target.
        assert_eq!(colab::lang_csharp::usings::rename("Alias", "Other", src), src);
    }

#[test]
fn rename_does_not_match_a_substring() {
        // `System` must not partial-match `System.Text`.
        let src = "using System.Text;\n";
        let out = colab::lang_csharp::usings::rename("System", "WRONG", src);
        assert_eq!(out, src);
    }

#[test]
fn usings_rename_is_idempotent() {
    #[allow(non_snake_case)]
    let SRC: &str = "using System;\nusing System.Text;\n\nnamespace Demo;\n\nclass C { }\n";
        let once = colab::lang_csharp::usings::rename("System.Text", "System.Text.Json", SRC);
        let twice = colab::lang_csharp::usings::rename("System.Text", "System.Text.Json", &once);
        assert_eq!(once, twice);
    }

#[test]
fn deletes_the_matched_line() {
    #[allow(non_snake_case)]
    let SRC: &str = "using System;\nusing System.Text;\n\nnamespace Demo;\n\nclass C { }\n";
        let out = colab::lang_csharp::usings::delete("System.Text", SRC);
        assert!(!out.contains("System.Text"));
        assert!(out.contains("using System;"));
        assert!(out.contains("class C"));
    }

#[test]
fn usings_delete_is_idempotent() {
    #[allow(non_snake_case)]
    let SRC: &str = "using System;\nusing System.Text;\n\nnamespace Demo;\n\nclass C { }\n";
        let once = colab::lang_csharp::usings::delete("System.Text", SRC);
        let twice = colab::lang_csharp::usings::delete("System.Text", &once);
        assert_eq!(once, twice);
    }

#[test]
fn ensure_adds_after_the_existing_usings() {
    #[allow(non_snake_case)]
    let SRC: &str = "using System;\nusing System.Text;\n\nnamespace Demo;\n\nclass C { }\n";
        let out = colab::lang_csharp::usings::ensure("System.Linq", SRC);
        assert!(out.contains("using System.Linq;"), "got: {out}");
        let last_existing = out.find("using System.Text;").unwrap();
        let added = out.find("using System.Linq;").unwrap();
        let ns = out.find("namespace Demo").unwrap();
        assert!(last_existing < added && added < ns, "got: {out}");
    }

#[test]
fn ensure_is_a_noop_when_present() {
    #[allow(non_snake_case)]
    let SRC: &str = "using System;\nusing System.Text;\n\nnamespace Demo;\n\nclass C { }\n";
        assert_eq!(colab::lang_csharp::usings::ensure("System.Text", SRC), SRC);
    }

#[test]
fn ensure_prepends_when_there_are_no_usings() {
        let src = "class C { }\n";
        let out = colab::lang_csharp::usings::ensure("System", src);
        assert!(out.starts_with("using System;\n"), "got: {out}");
    }

#[test]
fn usings_ensure_is_idempotent() {
    #[allow(non_snake_case)]
    let SRC: &str = "using System;\nusing System.Text;\n\nnamespace Demo;\n\nclass C { }\n";
        let once = colab::lang_csharp::usings::ensure("System.Linq", SRC);
        let twice = colab::lang_csharp::usings::ensure("System.Linq", &once);
        assert_eq!(once, twice);
    }

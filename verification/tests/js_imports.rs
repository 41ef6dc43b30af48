use colab::operation::Operation;

#[test]
fn renames_default_import() {
        let src = "import old from 'old-mod';\n";
        let out = colab::lang_js::imports::rename("old-mod", "new-mod", src);
        assert_eq!(out, "import old from 'new-mod';\n");
    }

#[test]
fn renames_named_import() {
        let src = "import { a, b } from \"old-mod\";\n";
        let out = colab::lang_js::imports::rename("old-mod", "new-mod", src);
        assert_eq!(out, "import { a, b } from \"new-mod\";\n");
    }

#[test]
fn renames_export_from() {
        let src = "export { a } from 'old-mod';\n";
        let out = colab::lang_js::imports::rename("old-mod", "new-mod", src);
        assert_eq!(out, "export { a } from 'new-mod';\n");
    }

#[test]
fn deletes_matching_imports() {
        let src = "import a from 'os';\nimport b from 'old';\nimport c from 'fs';\n";
        let out = colab::lang_js::imports::delete("old", src);
        assert!(!out.contains("'old'"));
        assert!(out.contains("'os'"));
        assert!(out.contains("'fs'"));
    }

#[test]
fn relevance_matches_js_ts_extensions() {
        let op = colab::lang_js::imports::SpecifierRename {
            from: "a".into(),
            to: "b".into(),
        };
        for ext in &["js", "mjs", "cjs", "jsx", "ts", "tsx"] {
            assert!(
                op.is_file_relevant(&format!("foo.{}", ext)),
                "{ext} should be relevant"
            );
        }
        assert!(!op.is_file_relevant("foo.go"));
        assert!(!op.is_file_relevant("foo.py"));
    }

#[test]
fn adds_a_side_effect_import_after_the_existing_ones() {
    #[allow(non_snake_case)]
    let SRC: &str = "import a from 'alpha';\nimport 'beta';\n\nconsole.log(a);\n";
        let out = colab::lang_js::imports::ensure("polyfill", SRC);
        assert!(out.contains("import 'polyfill';"), "got: {out}");
        let last_existing = out.find("import 'beta';").unwrap();
        let added = out.find("import 'polyfill';").unwrap();
        let body = out.find("console.log").unwrap();
        assert!(last_existing < added && added < body, "got: {out}");
    }

#[test]
fn is_a_noop_when_already_imported_in_any_form() {
    #[allow(non_snake_case)]
    let SRC: &str = "import a from 'alpha';\nimport 'beta';\n\nconsole.log(a);\n";
        // Named/default import counts as present, not just side-effect.
        assert_eq!(colab::lang_js::imports::ensure("alpha", SRC), SRC);
        assert_eq!(colab::lang_js::imports::ensure("beta", SRC), SRC);
    }

#[test]
fn prepends_when_there_are_no_imports() {
        let src = "console.log(1);\n";
        let out = colab::lang_js::imports::ensure("polyfill", src);
        assert!(out.starts_with("import 'polyfill';\n"), "got: {out}");
    }

#[test]
fn is_idempotent() {
    #[allow(non_snake_case)]
    let SRC: &str = "import a from 'alpha';\nimport 'beta';\n\nconsole.log(a);\n";
        let once = colab::lang_js::imports::ensure("polyfill", SRC);
        assert_eq!(colab::lang_js::imports::ensure("polyfill", &once), once);
    }

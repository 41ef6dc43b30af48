
#[test]
fn renames_a_named_import() {
    #[allow(non_snake_case)]
    let HELLO: &str = "package demo;\n\nimport java.util.List;\nimport java.util.Map;\n\npublic class Hello {}\n";
        let out = colab::lang_java::imports::rename("java.util.List", "java.util.ArrayList", HELLO);
        assert!(out.contains("import java.util.ArrayList;"));
        assert!(!out.contains("import java.util.List;"));
        assert!(out.contains("import java.util.Map;"));
    }

#[test]
fn deletes_the_matched_import_line() {
    #[allow(non_snake_case)]
    let HELLO: &str = "package demo;\n\nimport java.util.List;\nimport java.util.Map;\n\npublic class Hello {}\n";
        let out = colab::lang_java::imports::delete("java.util.List", HELLO);
        assert!(!out.contains("java.util.List"));
        assert!(out.contains("import java.util.Map;"));
    }

#[test]
fn delete_no_match_returns_input() {
        let src = "package demo;\nimport java.util.Map;\n";
        assert_eq!(colab::lang_java::imports::delete("java.util.List", src), src);
    }

#[test]
fn ensure_adds_missing_import_after_package() {
        let src = "package demo;\n\npublic class Hello {}\n";
        let out = colab::lang_java::imports::ensure("java.util.List", src);
        assert!(out.contains("import java.util.List;"), "got: {out}");
        let pkg = out.find("package demo").unwrap();
        let imp = out.find("import java.util.List").unwrap();
        let cls = out.find("public class").unwrap();
        assert!(pkg < imp && imp < cls, "got: {out}");
    }

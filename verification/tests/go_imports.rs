
#[test]
fn renames_a_single_import() {
        let go_code = "package main\n\nimport (\n\t\"fmt\"\n\t\"some.module\"\n)\n";
        let out = colab::lang_go::imports::rename("some.module", "new.module", go_code);
        assert!(out.contains("\"new.module\""));
        assert!(!out.contains("\"some.module\""));
    }

#[test]
fn does_not_match_path_substrings() {
        let go_code = "package main\n\nimport \"yet.another.module\"\n";
        assert_eq!(colab::lang_go::imports::rename("another.module", "wrong", go_code), go_code);
    }

#[test]
fn rename_is_idempotent_on_its_own_output() {
        let go_code = "package main\n\nimport (\n\t\"some.module\"\n\t\"another.module\"\n)\n";
        let once = colab::lang_go::imports::rename("some.module", "another.module", go_code);
        let twice = colab::lang_go::imports::rename("some.module", "another.module", &once);
        assert_eq!(once, twice);
    }

#[test]
fn deletes_a_single_block_import() {
        let go_code =
            "package main\n\nimport (\n\t\"fmt\"\n\t\"some.module\"\n\t\"other.module\"\n)\n";
        let out = colab::lang_go::imports::delete("some.module", go_code);
        assert!(!out.contains("some.module"));
        assert!(out.contains("\"fmt\""));
        assert!(out.contains("\"other.module\""));
    }

#[test]
fn delete_no_match_returns_input_unchanged() {
        let go_code = "package main\n";
        assert_eq!(colab::lang_go::imports::delete("missing", go_code), go_code);
    }

#[test]
fn ensure_adds_missing_import_after_package_clause() {
        let go_code = "package main\n\nfunc main() {}\n";
        let out = colab::lang_go::imports::ensure("fmt", go_code);
        assert!(out.contains("import \"fmt\""), "got: {out}");
        // Inserted between package and func main.
        let pkg_pos = out.find("package main").unwrap();
        let import_pos = out.find("import \"fmt\"").unwrap();
        let func_pos = out.find("func main").unwrap();
        assert!(pkg_pos < import_pos && import_pos < func_pos, "got: {out}");
    }

#[test]
fn ensure_is_noop_when_already_in_block_form() {
        let go_code = "package main\n\nimport (\n\t\"fmt\"\n\t\"os\"\n)\n";
        assert_eq!(colab::lang_go::imports::ensure("fmt", go_code), go_code);
    }

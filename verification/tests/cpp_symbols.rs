
#[test]
fn renames_declaration_and_usages() {
    #[allow(non_snake_case)]
    let SRC: &str = "class Old {};\nOld make() { Old o; return o; }\n";
        let out = colab::lang_cpp::symbols::rename("Old", "New", SRC);
        assert!(out.contains("New"), "got: {out}");
        assert!(!out.contains("Old"), "got: {out}");
    }

#[test]
fn does_not_rename_inside_a_string_literal() {
    #[allow(non_snake_case)]
    let SRC: &str = "class Old {};\nOld make() { Old o; return o; }\n";
        let src = SRC.replace("Old", "New");
        // Nothing named `Old` remains, so this must be a no-op.
        assert_eq!(colab::lang_cpp::symbols::rename("Old", "OTHER", &src), src);
    }

#[test]
fn symbols_absent_target_returns_input_unchanged() {
    #[allow(non_snake_case)]
    let SRC: &str = "class Old {};\nOld make() { Old o; return o; }\n";
        assert_eq!(colab::lang_cpp::symbols::rename("NotPresentAnywhere", "X", SRC), SRC);
    }

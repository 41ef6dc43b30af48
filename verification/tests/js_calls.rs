
#[test]
fn renames_a_plain_call() {
        let src = "oldFn(a, b);\n";
        assert_eq!(colab::lang_js::calls::rewrite("oldFn", "newFn($args)", src), "newFn(a, b);\n");
    }

#[test]
fn renames_a_member_call() {
        let src = "mod.old(x);\n";
        assert_eq!(colab::lang_js::calls::rewrite("mod.old", "mod.new($args)", src), "mod.new(x);\n");
    }

#[test]
fn a_bare_name_does_not_match_a_member_call() {
        let src = "mod.old(x);\n";
        assert_eq!(colab::lang_js::calls::rewrite("old", "WRONG($args)", src), src);
    }

#[test]
fn works_on_typescript_sources_too() {
        let src = "const x: number = oldFn(1);\n";
        assert_eq!(
            colab::lang_js::calls::rewrite("oldFn", "newFn($args)", src),
            "const x: number = newFn(1);\n"
        );
    }


#[test]
fn renames_function_decl_and_calls() {
        let src = "function oldFn() {}\noldFn();\n";
        let out = colab::lang_js::symbols::rename("oldFn", "newFn", src);
        assert_eq!(out, "function newFn() {}\nnewFn();\n");
    }

#[test]
fn renames_object_property_access() {
        let src = "const x = obj.oldProp;\n";
        let out = colab::lang_js::symbols::rename("oldProp", "newProp", src);
        assert_eq!(out, "const x = obj.newProp;\n");
    }

use colab::operation::Operation;

#[test]
fn renames_function_declaration_and_calls() {
        let src = "package main\n\nfunc Foo() {}\n\nfunc main() { Foo() }\n";
        let out = colab::lang_go::symbols::rename("Foo", "Bar", src);
        assert_eq!(
            out,
            "package main\n\nfunc Bar() {}\n\nfunc main() { Bar() }\n"
        );
    }

#[test]
fn renames_struct_type_and_method_receiver() {
        let src = "package main\n\ntype Old struct { X int }\nfunc (o *Old) M() {}\n";
        let out = colab::lang_go::symbols::rename("Old", "New", src);
        assert!(out.contains("type New struct"));
        assert!(out.contains("(o *New)"));
    }

#[test]
fn does_not_rename_package_identifier_or_string_literal() {
        // `Foo` appears inside a string and as an import path — must
        // not be renamed.
        let src = "package main\n\nimport \"Foo\"\n\nvar s = \"Foo\"\nfunc main() { _ = s }\n";
        let out = colab::lang_go::symbols::rename("Foo", "Bar", src);
        assert_eq!(out, src);
    }

#[test]
fn returns_input_unchanged_when_symbol_absent() {
        let src = "package main\n\nfunc main() {}\n";
        assert_eq!(colab::lang_go::symbols::rename("Foo", "Bar", src), src);
    }

#[test]
fn symbol_rename_operation_is_relevant_for_go_files() {
        let op = colab::lang_go::symbols::SymbolRename {
            from: "a".into(),
            to: "b".into(),
        };
        assert!(op.is_file_relevant("foo.go"));
        assert!(!op.is_file_relevant("foo.rs"));
    }

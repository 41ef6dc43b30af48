
#[test]
fn renames_class_and_constructor_call() {
        let src = "package demo;\n\npublic class OldName {\n    public OldName() {}\n}\n\nclass User { OldName x = new OldName(); }\n";
        let out = colab::lang_java::symbols::rename("OldName", "NewName", src);
        assert!(out.contains("public class NewName"));
        assert!(out.contains("public NewName()"));
        assert!(out.contains("NewName x = new NewName();"));
    }

#[test]
fn renames_method_and_calls() {
        let src = "class A { void oldM() {} void caller() { oldM(); } }\n";
        let out = colab::lang_java::symbols::rename("oldM", "newM", src);
        assert_eq!(
            out,
            "class A { void newM() {} void caller() { newM(); } }\n"
        );
    }

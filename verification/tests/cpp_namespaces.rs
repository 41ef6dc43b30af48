
#[test]
fn renames_a_simple_namespace() {
        let src = "namespace old_ns {\nvoid f() {}\n}\n";
        let out = colab::lang_cpp::namespaces::rename("old_ns", "new_ns", src);
        assert!(out.contains("namespace new_ns {"), "got: {out}");
    }

#[test]
fn renames_a_nested_namespace_specifier_verbatim() {
        let src = "namespace a::b {\n}\n";
        let out = colab::lang_cpp::namespaces::rename("a::b", "c::d", src);
        assert!(out.contains("namespace c::d {"), "got: {out}");
    }

#[test]
fn a_simple_target_does_not_match_a_nested_declaration() {
        let src = "namespace a::b {\n}\n";
        assert_eq!(colab::lang_cpp::namespaces::rename("a", "WRONG", src), src);
    }

#[test]
fn anonymous_namespaces_never_match() {
        let src = "namespace {\nvoid f() {}\n}\n";
        assert_eq!(colab::lang_cpp::namespaces::rename("old_ns", "new_ns", src), src);
    }

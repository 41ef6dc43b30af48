
#[test]
fn renames_a_block_scoped_namespace() {
        let src = "namespace Old.Ns { class C { } }\n";
        let out = colab::lang_csharp::namespaces::rename("Old.Ns", "New.Ns", src);
        assert!(out.contains("namespace New.Ns {"), "got: {out}");
    }

#[test]
fn renames_a_file_scoped_namespace() {
        let src = "namespace Old.Ns;\n\nclass C { }\n";
        let out = colab::lang_csharp::namespaces::rename("Old.Ns", "New.Ns", src);
        assert!(out.contains("namespace New.Ns;"), "got: {out}");
    }

#[test]
fn does_not_match_a_prefix_of_the_declared_name() {
        let src = "namespace Old.Ns { }\n";
        assert_eq!(colab::lang_csharp::namespaces::rename("Old", "WRONG", src), src);
    }

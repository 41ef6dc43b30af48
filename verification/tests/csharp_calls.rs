
#[test]
fn does_not_match_a_bare_name_against_a_qualified_call() {
        let src = "class C { void M() { Foo.Old(1); } }\n";
        assert_eq!(colab::lang_csharp::calls::rewrite("Old", "WRONG($args)", src), src);
    }

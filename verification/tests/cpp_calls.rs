
#[test]
fn does_not_match_a_substring_of_a_longer_name() {
        let src = "void f(void) { ns_old_fn(1); }\n";
        assert_eq!(colab::lang_cpp::calls::rewrite("old_fn", "WRONG($args)", src), src);
    }

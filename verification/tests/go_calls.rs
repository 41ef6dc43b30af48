
#[test]
fn renames_call_and_keeps_args() {
        let src = "package main\nfunc main() { pkg.Old(a, b) }\n";
        let out = colab::lang_go::calls::rewrite("pkg.Old", "pkg.New($args)", src);
        assert_eq!(out, "package main\nfunc main() { pkg.New(a, b) }\n");
    }

#[test]
fn preserves_call_arguments_with_complex_expressions() {
        let src = "package main\nfunc main() { do(f(x), 1+2) }\n";
        let out = colab::lang_go::calls::rewrite("do", "doNew($args)", src);
        assert_eq!(out, "package main\nfunc main() { doNew(f(x), 1+2) }\n");
    }

#[test]
fn does_not_match_unrelated_calls() {
        let src = "package main\nfunc main() { other(1) }\n";
        assert_eq!(colab::lang_go::calls::rewrite("pkg.Old", "pkg.New($args)", src), src);
    }

#[test]
fn does_not_match_substring_of_function_name() {
        // `Old` (bare) must not match `pkg.Old` (selector).
        let src = "package main\nfunc main() { pkg.Old(1) }\n";
        assert_eq!(colab::lang_go::calls::rewrite("Old", "WrongOld($args)", src), src);
    }

#[test]
fn rewrite_is_idempotent_when_function_renamed() {
        let src = "package main\nfunc main() { pkg.Old(a, b) }\n";
        let once = colab::lang_go::calls::rewrite("pkg.Old", "pkg.New($args)", src);
        let twice = colab::lang_go::calls::rewrite("pkg.Old", "pkg.New($args)", &once);
        assert_eq!(once, twice);
    }

#[test]
fn returns_input_unchanged_when_target_absent() {
        let src = "package main\nfunc main() {}\n";
        assert_eq!(colab::lang_go::calls::rewrite("missing.Func", "other.Func($args)", src), src);
    }

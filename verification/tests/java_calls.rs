
#[test]
fn renames_a_qualified_call() {
        let src = "class A { void m() { Old.run(a, b); } }\n";
        let out = colab::lang_java::calls::rewrite("Old.run", "New.run($args)", src);
        assert_eq!(out, "class A { void m() { New.run(a, b); } }\n");
    }

#[test]
fn renames_a_bare_call() {
        let src = "class A { void m() { helper(x); } }\n";
        let out = colab::lang_java::calls::rewrite("helper", "newHelper($args)", src);
        assert_eq!(out, "class A { void m() { newHelper(x); } }\n");
    }

#[test]
fn a_bare_name_does_not_match_a_qualified_call() {
        let src = "class A { void m() { Old.run(a); } }\n";
        assert_eq!(colab::lang_java::calls::rewrite("run", "WRONG($args)", src), src);
    }

#[test]
fn matches_a_this_qualified_call() {
        let src = "class A { void m() { this.foo(y); } }\n";
        let out = colab::lang_java::calls::rewrite("this.foo", "this.bar($args)", src);
        assert_eq!(out, "class A { void m() { this.bar(y); } }\n");
    }

#[test]
fn rewrite_is_idempotent_when_the_method_is_renamed() {
        let src = "class A { void m() { Old.run(a); } }\n";
        let once = colab::lang_java::calls::rewrite("Old.run", "New.run($args)", src);
        assert_eq!(colab::lang_java::calls::rewrite("Old.run", "New.run($args)", &once), once);
    }

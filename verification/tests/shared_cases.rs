use colab::backend::LanguageBackend;

#[test]
fn lib_unknown_module_is_rejected_with_alternatives() {
    // c
    {
        let err = colab::lang_c::CBackend
            .build_rule(
                "includ",
                colab::backend::RuleSpec::Delete {
                    target: "x".into(),
                },
            )
            .unwrap_err();
        let msg = err.to_string();
        assert!(msg.contains("unknown module `c::includ`"), "{msg}");
        assert!(msg.contains("did you mean `include`?"), "{msg}");
    }

    // cpp
    {
        let err = colab::lang_cpp::CppBackend
            .build_rule(
                "namespce",
                colab::backend::RuleSpec::Replace {
                    target: "a".into(),
                    replacement: "b".into(),
                },
            )
            .unwrap_err();
        let msg = err.to_string();
        assert!(msg.contains("unknown module `cpp::namespce`"), "{msg}");
        assert!(msg.contains("did you mean `namespace`?"), "{msg}");
    }

    // csharp
    {
        let err = colab::lang_csharp::CSharpBackend
            .build_rule(
                "usng",
                colab::backend::RuleSpec::Delete {
                    target: "x".into(),
                },
            )
            .unwrap_err();
        let msg = err.to_string();
        assert!(msg.contains("unknown module `csharp::usng`"), "{msg}");
        assert!(msg.contains("did you mean `using`?"), "{msg}");
    }
}

#[test]
fn calls_renames_a_call_and_passes_args_through() {
    // cpp
    {
        let src = "void f(void) { old_fn(a, b); }\n";
        let out = colab::lang_cpp::calls::rewrite("old_fn", "new_fn($args)", src);
        assert_eq!(out, "void f(void) { new_fn(a, b); }\n");
    }

    // csharp
    {
        let src = "class C { void M() { Foo.Old(a, b); } }\n";
        let out = colab::lang_csharp::calls::rewrite("Foo.Old", "Foo.New($args)", src);
        assert_eq!(out, "class C { void M() { Foo.New(a, b); } }\n");
    }
}

#[test]
fn calls_reorders_args_via_positional_placeholders() {
    // cpp
    {
        let src = "void f(void) { old_fn(a, b); }\n";
        let out = colab::lang_cpp::calls::rewrite("old_fn", "new_fn($2, $1, NULL)", src);
        assert_eq!(out, "void f(void) { new_fn(b, a, NULL); }\n");
    }

    // csharp
    {
        let src = "class C { void M() { Foo.Old(a, b); } }\n";
        let out = colab::lang_csharp::calls::rewrite("Foo.Old", "Foo.New($2, $1, null)", src);
        assert_eq!(out, "class C { void M() { Foo.New(b, a, null); } }\n");
    }

    // go
    {
        let src = "package main\nfunc main() { pkg.Old(a, b) }\n";
        let out = colab::lang_go::calls::rewrite("pkg.Old", "pkg.New($2, $1, nil)", src);
        assert_eq!(out, "package main\nfunc main() { pkg.New(b, a, nil) }\n");
    }

    // java
    {
        let src = "class A { void m() { Old.run(a, b); } }\n";
        let out = colab::lang_java::calls::rewrite("Old.run", "New.run($2, $1, null)", src);
        assert_eq!(out, "class A { void m() { New.run(b, a, null); } }\n");
    }

    // js
    {
        let src = "oldFn(a, b);\n";
        assert_eq!(
            colab::lang_js::calls::rewrite("oldFn", "newFn($2, $1, null)", src),
            "newFn(b, a, null);\n"
        );
    }
}

#[test]
fn calls_handles_zero_args() {
    // cpp
    {
        let src = "void f(void) { x(); }\n";
        assert_eq!(colab::lang_cpp::calls::rewrite("x", "y($args)", src), "void f(void) { y(); }\n");
    }

    // csharp
    {
        let src = "class C { void M() { X(); } }\n";
        assert_eq!(colab::lang_csharp::calls::rewrite("X", "Y($args)", src), "class C { void M() { Y(); } }\n");
    }

    // go
    {
        let src = "package main\nfunc main() { x() }\n";
        let out = colab::lang_go::calls::rewrite("x", "y($args)", src);
        assert_eq!(out, "package main\nfunc main() { y() }\n");
    }

    // java
    {
        let src = "class A { void m() { x(); } }\n";
        assert_eq!(colab::lang_java::calls::rewrite("x", "y($args)", src), "class A { void m() { y(); } }\n");
    }

    // js
    {
        assert_eq!(colab::lang_js::calls::rewrite("x", "y($args)", "x();\n"), "y();\n");
    }
}

#[test]
fn calls_rewrite_is_idempotent_when_the_function_is_renamed() {
    // cpp
    {
        let src = "void f(void) { old_fn(a); }\n";
        let once = colab::lang_cpp::calls::rewrite("old_fn", "new_fn($args)", src);
        let twice = colab::lang_cpp::calls::rewrite("old_fn", "new_fn($args)", &once);
        assert_eq!(once, twice);
    }

    // csharp
    {
        let src = "class C { void M() { Foo.Old(a); } }\n";
        let once = colab::lang_csharp::calls::rewrite("Foo.Old", "Foo.New($args)", src);
        let twice = colab::lang_csharp::calls::rewrite("Foo.Old", "Foo.New($args)", &once);
        assert_eq!(once, twice);
    }

    // js
    {
        let src = "mod.old(a);\n";
        let once = colab::lang_js::calls::rewrite("mod.old", "mod.new($args)", src);
        assert_eq!(colab::lang_js::calls::rewrite("mod.old", "mod.new($args)", &once), once);
    }
}

#[test]
fn calls_absent_target_returns_input_unchanged() {
    // cpp
    {
        let src = "void f(void) { other(1); }\n";
        assert_eq!(colab::lang_cpp::calls::rewrite("old_fn", "new_fn($args)", src), src);
    }

    // csharp
    {
        let src = "class C { void M() { Other(1); } }\n";
        assert_eq!(colab::lang_csharp::calls::rewrite("Foo.Old", "Foo.New($args)", src), src);
    }

    // java
    {
        let src = "class A { void m() { other(1); } }\n";
        assert_eq!(colab::lang_java::calls::rewrite("Old.run", "New.run($args)", src), src);
    }

    // js
    {
        let src = "other(1);\n";
        assert_eq!(colab::lang_js::calls::rewrite("oldFn", "newFn($args)", src), src);
    }
}

#[test]
fn namespaces_rename_is_idempotent() {
    // cpp
    {
        let src = "namespace old_ns {\n}\n";
        let once = colab::lang_cpp::namespaces::rename("old_ns", "new_ns", src);
        let twice = colab::lang_cpp::namespaces::rename("old_ns", "new_ns", &once);
        assert_eq!(once, twice);
    }

    // csharp
    {
        let src = "namespace Old.Ns;\n";
        let once = colab::lang_csharp::namespaces::rename("Old.Ns", "New.Ns", src);
        let twice = colab::lang_csharp::namespaces::rename("Old.Ns", "New.Ns", &once);
        assert_eq!(once, twice);
    }
}

#[test]
fn namespaces_absent_target_returns_input_unchanged() {
    // cpp
    {
        let src = "namespace other {\n}\n";
        assert_eq!(colab::lang_cpp::namespaces::rename("old_ns", "new_ns", src), src);
    }

    // csharp
    {
        let src = "namespace Other { }\n";
        assert_eq!(colab::lang_csharp::namespaces::rename("Old.Ns", "New.Ns", src), src);
    }
}

#[test]
fn symbols_rename_is_idempotent() {
    // cpp
    {
    #[allow(non_snake_case)]
    let SRC: &str = "class Old {};\nOld make() { Old o; return o; }\n";
        let once = colab::lang_cpp::symbols::rename("Old", "New", SRC);
        let twice = colab::lang_cpp::symbols::rename("Old", "New", &once);
        assert_eq!(once, twice);
    }

    // go
    {
        let src = "package main\n\ntype Foo int\nfunc main() { var x Foo = 1; _ = x }\n";
        let once = colab::lang_go::symbols::rename("Foo", "Bar", src);
        let twice = colab::lang_go::symbols::rename("Foo", "Bar", &once);
        assert_eq!(once, twice);
    }

    // java
    {
        let src = "class A { void oldM() {} void caller() { oldM(); } }\n";
        let once = colab::lang_java::symbols::rename("oldM", "newM", src);
        let twice = colab::lang_java::symbols::rename("oldM", "newM", &once);
        assert_eq!(once, twice);
    }

    // js
    {
        let src = "function oldFn() {}\noldFn();\n";
        let once = colab::lang_js::symbols::rename("oldFn", "newFn", src);
        let twice = colab::lang_js::symbols::rename("oldFn", "newFn", &once);
        assert_eq!(once, twice);
    }
}

#[test]
fn imports_delete_is_idempotent() {
    // go
    {
        let go_code = "package main\n\nimport \"some.module\"\n";
        let once = colab::lang_go::imports::delete("some.module", go_code);
        let twice = colab::lang_go::imports::delete("some.module", &once);
        assert_eq!(once, twice);
    }

    // java
    {
    #[allow(non_snake_case)]
    let HELLO: &str = "package demo;\n\nimport java.util.List;\nimport java.util.Map;\n\npublic class Hello {}\n";
        let once = colab::lang_java::imports::delete("java.util.List", HELLO);
        let twice = colab::lang_java::imports::delete("java.util.List", &once);
        assert_eq!(once, twice);
    }

    // js
    {
        let src = "import x from 'old';\n";
        let once = colab::lang_js::imports::delete("old", src);
        let twice = colab::lang_js::imports::delete("old", &once);
        assert_eq!(once, twice);
    }
}

#[test]
fn imports_ensure_is_noop_when_already_imported() {
    // go
    {
        let go_code = "package main\n\nimport \"fmt\"\n\nfunc main() {}\n";
        assert_eq!(colab::lang_go::imports::ensure("fmt", go_code), go_code);
    }

    // java
    {
    #[allow(non_snake_case)]
    let HELLO: &str = "package demo;\n\nimport java.util.List;\nimport java.util.Map;\n\npublic class Hello {}\n";
        assert_eq!(colab::lang_java::imports::ensure("java.util.List", HELLO), HELLO);
    }
}

#[test]
fn imports_ensure_is_idempotent() {
    // go
    {
        let go_code = "package main\n\nfunc main() {}\n";
        let once = colab::lang_go::imports::ensure("fmt", go_code);
        let twice = colab::lang_go::imports::ensure("fmt", &once);
        assert_eq!(once, twice);
    }

    // java
    {
        let src = "package demo;\n\npublic class Hello {}\n";
        let once = colab::lang_java::imports::ensure("java.util.List", src);
        let twice = colab::lang_java::imports::ensure("java.util.List", &once);
        assert_eq!(once, twice);
    }
}

#[test]
fn packages_rename_is_idempotent() {
    // go
    {
        let src = "package oldpkg\n";
        let once = colab::lang_go::packages::rename("oldpkg", "newpkg", src);
        assert_eq!(colab::lang_go::packages::rename("oldpkg", "newpkg", &once), once);
    }

    // java
    {
        let src = "package com.old;\n";
        let once = colab::lang_java::packages::rename("com.old", "com.new", src);
        let twice = colab::lang_java::packages::rename("com.old", "com.new", &once);
        assert_eq!(once, twice);
    }
}

#[test]
fn imports_rename_does_not_match_substring() {
    // java
    {
        let src = "package demo;\nimport com.example.MyList;\n";
        // `java.util.List` must not partial-match `com.example.MyList`.
        assert_eq!(colab::lang_java::imports::rename("java.util.List", "WRONG", src), src);
    }

    // js
    {
        let src = "import x from 'my-old-mod';\n";
        assert_eq!(colab::lang_js::imports::rename("old-mod", "WRONG", src), src);
    }
}

#[test]
fn imports_rename_is_idempotent() {
    // java
    {
    #[allow(non_snake_case)]
    let HELLO: &str = "package demo;\n\nimport java.util.List;\nimport java.util.Map;\n\npublic class Hello {}\n";
        let once = colab::lang_java::imports::rename("java.util.List", "java.util.ArrayList", HELLO);
        let twice = colab::lang_java::imports::rename("java.util.List", "java.util.ArrayList", &once);
        assert_eq!(once, twice);
    }

    // js
    {
        let src = "import x from 'old-mod';\nimport y from 'other';\n";
        let once = colab::lang_js::imports::rename("old-mod", "new-mod", src);
        let twice = colab::lang_js::imports::rename("old-mod", "new-mod", &once);
        assert_eq!(once, twice);
    }
}

#[test]
fn symbols_does_not_rename_string_literal() {
    // java
    {
        let src = "class A { String s = \"OldName\"; }\n";
        assert_eq!(colab::lang_java::symbols::rename("OldName", "NewName", src), src);
    }

    // js
    {
        let src = "const x = \"oldFn\";\n";
        assert_eq!(colab::lang_js::symbols::rename("oldFn", "newFn", src), src);
    }
}

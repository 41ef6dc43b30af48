use colab::backend::LanguageBackend;
use colab::backends::registry;
use colab::dsl::compiler::{compile, enter_script, resolve_include_path};
use colab::dsl::model::{Refactoring, SingleRule};
use colab::dsl::parser::parse;
use colab::error::Error;
use colab::lang_c::symbols::SymbolRename as CSymbolRename;
use colab::lang_go::imports::ImportEnsure;
use colab::lang_go::packages::PackageRename;
use colab::lang_go::symbols::SymbolRename as GoSymbolRename;
use colab::lang_js::symbols::SymbolRename as JsSymbolRename;
use colab::operation::Operation;
use colab::rules::Rule;
use colab::scoped::ScopedOperation;
use colab::transformer::CodeTransformer;

#[test]
fn compiles_go_import_replace() {
    let refactoring = compile(
        r#"refactor "rename" { match go::import "old" { replace "new" } }"#,
        &registry(),
    )
    .unwrap();
    assert_eq!(refactoring.name, "rename");
    assert_eq!(refactoring.len(), 1);
    let display = refactoring.to_string();
    assert!(display.contains("go::import \"old\" -> \"new\""), "got: {display}");
}

#[test]
fn compiles_multiple_rules_and_applies_in_order() {
    let refactoring = compile(
        r#"
            refactor "chain" {
                match go::import "old" { replace "mid" }
                match go::import "mid" { replace "new" }
            }
            "#,
        &registry(),
    )
    .unwrap();
    assert_eq!(refactoring.len(), 2);

    let source = r#"package main
import (
    "old"
)
"#;
    let rewritten = refactoring.apply(source);
    assert!(rewritten.contains("\"new\""), "got: {rewritten}");
    assert!(!rewritten.contains("\"old\""));
    assert!(!rewritten.contains("\"mid\""));
}

#[test]
fn rejects_unsupported_namespace() {
    let err = compile(r#"refactor "x" { match rust::module "a" { replace "b" } }"#, &registry())
        .err()
        .unwrap();
    assert!(matches!(err, Error::UnsupportedOperation(_)));
}

#[test]
fn rejects_unsupported_module_within_known_lang() {
    let err = compile(r#"refactor "x" { match go::nope "a" { replace "b" } }"#, &registry())
        .err()
        .unwrap();
    assert!(matches!(err, Error::UnsupportedOperation(_)));
}

#[test]
fn compile_rejects_include_without_base_path() {
    let err = compile(r#"refactor "x" { include "other.codemod" }"#, &registry())
        .err()
        .unwrap();
    assert!(
        matches!(&err, Error::Config(msg) if msg.contains("compile_at_path")),
        "got: {}",
        err.to_string()
    );
}

fn action_body(name: &str) -> &'static str {
    match name {
        "replace" => "replace \"y\"",
        "delete" => "delete",
        "ensure" => "ensure",
        "replace_call" => "replace_call \"y($args)\"",
        "set" => "set '1'",
        "insert" => "insert '1'",
        other => panic!("unhandled action `{other}`"),
    }
}

#[test]
fn every_module_name_is_spellable_in_the_dsl() {
    let registry = registry();
    let mut checked = 0;
    for lang in registry.languages() {
        let backend = registry.get(lang).expect("registry lists it");
        for capability in backend.capabilities() {
            let action = capability.actions.first().expect("a module with no actions is unusable");
            let script = format!(
                "refactor \"t\" {{ match {lang}::{} \"x\" {{ {} }} }}",
                capability.module,
                action_body(action.name)
            );
            if let Err(e) = parse(&script) {
                panic!("`{lang}::{}` does not parse as a namespace: {}", capability.module, e.to_string());
            }
            checked += 1;
        }
    }
    assert!(checked >= 12, "expected at least one module per backend, saw {checked}");
}

#[test]
fn every_module_name_is_also_scopable() {
    let registry = registry();
    for lang in registry.languages() {
        let backend = registry.get(lang).expect("registry lists it");
        for capability in backend.capabilities() {
            let action = capability.actions.first().expect("at least one action");
            let script = format!(
                "refactor \"t\" {{ match {lang}::{} \"x\" in \"src/**\" {{ {} }} }}",
                capability.module,
                action_body(action.name)
            );
            if let Err(e) = parse(&script) {
                panic!("scoped `{lang}::{}` fails to parse: {}", capability.module, e.to_string());
            }
        }
    }
}

fn refactoring(rules: Vec<Rule>) -> Refactoring {
    Refactoring { name: "test".to_string(), rules }
}

fn package(from: &str, to: &str) -> Rule {
    Rule::GoPackageRename(PackageRename { from: from.to_string(), to: to.to_string() })
}

#[test]
fn irrelevant_rules_are_never_applied() {
    let go = Rule::GoSymbolRename(GoSymbolRename { from: "alpha".to_string(), to: "beta".to_string() });
    let js = Rule::JsSymbolRename(JsSymbolRename { from: "alpha".to_string(), to: "gamma".to_string() });
    let refactoring = refactoring(vec![go, js]);
    let outcome = refactoring.apply_at("x.js", "alpha");
    assert_eq!(outcome.output, "gamma");
    assert_eq!(outcome.rules_fired, vec![1]);
}

#[test]
fn prefilter_skips_the_parse_when_the_literal_is_absent() {
    let refactoring = refactoring(vec![package("needle", "replaced")]);

    let outcome = refactoring.apply_at("x.go", "nothing here");
    assert_eq!(outcome.output, "nothing here");
    assert!(outcome.rules_fired.is_empty());

    let outcome = refactoring.apply_at("x.go", "package needle\n");
    assert_eq!(outcome.output, "package replaced\n");
    assert_eq!(outcome.rules_fired, vec![0]);
}

#[test]
fn ensure_style_rule_fires_when_the_target_is_absent() {
    let op = Rule::GoImportEnsure(ImportEnsure { target: "ctx".to_string() });
    assert_eq!(op.prefilter(), None);
    let refactoring = refactoring(vec![op]);
    let outcome = refactoring.apply_at("x.go", "package demo\n");
    assert!(outcome.output.contains("import \"ctx\""), "{}", outcome.output);
    assert_eq!(outcome.rules_fired, vec![0]);
}

#[test]
fn prefilter_sees_text_introduced_by_an_earlier_rule() {
    let refactoring = refactoring(vec![package("one", "two"), package("two", "three")]);
    let outcome = refactoring.apply_at("x.go", "package one\n");
    assert_eq!(outcome.output, "package three\n");
    assert_eq!(outcome.rules_fired, vec![0, 1]);
}

#[test]
fn rules_that_change_nothing_are_not_reported_as_fired() {
    // The second rule's literal occurs, so it runs, but it changes nothing.
    let refactoring = refactoring(vec![package("a", "A"), package("z", "z")]);
    let outcome = refactoring.apply_at("x.go", "package a\n\nvar z = 1\n");
    assert_eq!(outcome.output, "package A\n\nvar z = 1\n");
    assert_eq!(outcome.rules_fired, vec![0]);
}

#[test]
fn path_blind_apply_still_runs_every_rule() {
    let c = Rule::CSymbolRename(CSymbolRename { from: "b".to_string(), to: "c".to_string() });
    let refactoring = refactoring(vec![package("a", "b"), c]);
    let once = package("a", "b").apply("package a\n");
    assert_eq!(once, "package b\n");
    let c = Rule::CSymbolRename(CSymbolRename { from: "b".to_string(), to: "c".to_string() });
    assert_eq!(refactoring.apply("package a\n"), c.apply(&once));
    assert!(refactoring.apply("package a\n").contains('c'));
}

#[test]
fn single_rule_reports_index_zero_and_honours_the_gate() {
    let op = package("a", "b");
    let single = SingleRule::new(&op);

    let outcome = single.apply_at("x.rs", "package a\n");
    assert_eq!(outcome.output, "package a\n");
    assert!(outcome.rules_fired.is_empty());

    let outcome = single.apply_at("x.go", "package a\n");
    assert_eq!(outcome.output, "package b\n");
    assert_eq!(outcome.rules_fired, vec![0]);
}

fn c_rename() -> Rule {
    Rule::CSymbolRename(CSymbolRename { from: "A".to_string(), to: "B".to_string() })
}

fn scoped_rule(pattern: &str) -> ScopedOperation {
    ScopedOperation::new(c_rename(), pattern).ok().unwrap()
}

#[test]
fn narrows_relevance_to_the_glob() {
    let op = scoped_rule("crates/colab-core/**");
    assert!(op.is_file_relevant("crates/colab-core/src/lib.c"));
    assert!(!op.is_file_relevant("crates/colab-cli/src/lib.c"));
}

#[test]
fn still_defers_to_the_inner_relevance_check() {
    let op = scoped_rule("crates/**");
    assert!(!op.is_file_relevant("crates/colab-core/README.md"));
}

#[test]
fn single_star_does_not_cross_directories() {
    let op = scoped_rule("src/*.c");
    assert!(op.is_file_relevant("src/lib.c"));
    assert!(!op.is_file_relevant("src/nested/lib.c"));
}

#[test]
fn delegates_apply_and_prefilter_untouched() {
    let op = scoped_rule("**/*.c");
    assert_eq!(op.apply("int A = A;"), "int B = B;");
    assert_eq!(op.prefilter(), Some("A"));
}

#[test]
fn display_shows_the_scope() {
    assert_eq!(scoped_rule("src/**").describe(), "c::symbol \"A\" -> \"B\" in \"src/**\"");
}

#[test]
fn an_invalid_glob_is_rejected_at_compile_time() {
    let err = ScopedOperation::new(c_rename(), "src/[").err().unwrap();
    assert!(err.to_string().contains("invalid scope glob"), "{}", err.to_string());
}

#[test]
fn a_script_entered_twice_is_a_circular_inclusion() {
    let mut seen: Vec<String> = Vec::new();
    assert!(enter_script(&mut seen, "/s/a.codemod", "a.codemod").is_ok());
    assert!(enter_script(&mut seen, "/s/b.codemod", "b.codemod").is_ok());
    let err = enter_script(&mut seen, "/s/a.codemod", "a.codemod").err().unwrap();
    assert!(matches!(&err, Error::Config(m) if m == "circular include: a.codemod re-includes itself"));
    assert_eq!(seen.len(), 2);
}

#[test]
fn a_scoped_rule_keeps_its_glob() {
    assert_eq!(ScopedOperation::new(c_rename(), "src/**").ok().unwrap().pattern(), "src/**");
}

#[test]
fn a_rename_run_twice_changes_nothing_the_second_time() {
    let rule = Rule::GoPackageRename(PackageRename { from: "alpha".to_string(), to: "beta".to_string() });
    let once = rule.apply("package alpha\n\nfunc F() {}\n");
    assert_eq!(once, "package beta\n\nfunc F() {}\n");
    assert!(!once.contains(rule.prefilter().unwrap()));
    assert_eq!(rule.apply(&once), once);
}

#[test]
fn a_scoped_rule_in_a_script_behaves_as_its_scope() {
    let rule = Rule::Scoped(scoped_rule("src/**"));
    assert!(rule.is_file_relevant("src/a.c"));
    assert!(!rule.is_file_relevant("lib/a.c"));
    assert_eq!(rule.apply("int A;"), "int B;");
    assert_eq!(rule.describe(), "c::symbol \"A\" -> \"B\" in \"src/**\"");
}

#[test]
fn a_glob_too_large_to_compile_is_rejected_not_a_panic() {
    let alternates: Vec<String> = (0..200_000).map(|i| format!("{:06}*z", i)).collect();
    let pattern = format!("src/{{{}}}", alternates.join(","));
    let err = ScopedOperation::new(c_rename(), &pattern).err().unwrap();
    assert!(err.to_string().contains("invalid scope glob"));
}

#[test]
fn an_unknown_language_is_named_in_a_plain_sentence() {
    let err = compile(r#"refactor "x" { match klingon::module "a" { replace "b" } }"#, &registry())
        .err()
        .unwrap();
    assert!(matches!(&err, Error::UnsupportedOperation(m) if m == "klingon::module is not a supported namespace"));
}

#[test]
fn includes_resolve_beside_the_including_script() {
    let ok = |rel: &str, base: Option<&str>| resolve_include_path(rel, base).ok().unwrap();
    assert_eq!(ok("b.codemod", Some("dir/a.codemod")), "dir/b.codemod");
    assert_eq!(ok("b.codemod", Some("a.codemod")), "b.codemod");
    assert_eq!(ok("b.codemod", Some("/a.codemod")), "/b.codemod");
    assert_eq!(ok("b.codemod", Some("./a.codemod")), "./b.codemod");
    assert_eq!(ok("b.codemod", Some("")), "./b.codemod");
    assert_eq!(ok("/abs/b.codemod", None), "/abs/b.codemod");
    let err = resolve_include_path("b.codemod", None).err().unwrap();
    assert!(matches!(&err, Error::Config(m) if m.contains("compile_at_path")));
}

use colab::backend::{BackendRegistry, LanguageBackend, RuleSpec};
use colab::backends::{registry, BACKEND_COUNT};
use colab::operation::Operation;
use colab::rules::Rule;

/// A target string no real source file will contain.
const SENTINEL: &str = "Zq_colab_absent_target_9174";

const SAMPLES: &[&str] = &[
    "",
    "\n",
    "package main\n\nimport \"fmt\"\n\nfunc main() { fmt.Println(1) }\n",
    "class A { void m() { helper(1); } }\n",
    "#include <stdio.h>\nint main(void) { return 0; }\n",
    "<?php\nnamespace App;\nuse App\\Thing;\nThing::run($a);\n",
    "require 'json'\nclass Service\n  def call; end\nend\n",
    "import Foundation\nfunc f() { g(1) }\n",
    "use std::fmt;\nfn main() { println!(\"x\"); }\n",
    "def f():\n    return 1\n",
    "const x = require('y');\nexport default x;\n",
    "[dependencies]\nserde = \"1\"\n",
];

fn sentinel_rules(registry: &BackendRegistry) -> Vec<(String, String, &'static str, Rule)> {
    let mut out = Vec::new();
    for lang in registry.languages() {
        let backend = registry.get(lang).expect("registry lists it");
        // `json::key` targets are JSON Pointers.
        let target = if lang == "json" { format!("/{SENTINEL}") } else { SENTINEL.to_string() };
        for capability in backend.capabilities() {
            for action in capability.actions.iter() {
                let spec = match action.name {
                    "replace" => RuleSpec::Replace {
                        target: target.clone(),
                        replacement: "Zq_colab_replacement".to_string(),
                    },
                    "delete" => RuleSpec::Delete { target: target.clone() },
                    "ensure" => RuleSpec::Ensure { target: target.clone() },
                    "replace_call" => RuleSpec::ReplaceCall {
                        target: target.clone(),
                        template: "Zq_colab_replacement($args)".to_string(),
                    },
                    "set" => RuleSpec::SetValue { target: target.clone(), value: "1".to_string() },
                    "insert" => RuleSpec::Insert { target: target.clone(), value: "1".to_string() },
                    other => panic!("unhandled action `{other}` — add it to this test"),
                };
                let op = match backend.build_rule(capability.module, spec) {
                    Ok(op) => op,
                    Err(e) => panic!(
                        "{lang}::{} advertises `{}` but build_rule rejected it: {}",
                        capability.module,
                        action.name,
                        e.to_string()
                    ),
                };
                out.push((lang.to_string(), capability.module.to_string(), action.name, op));
            }
        }
    }
    out
}

#[test]
fn registers_every_backend() {
    assert_eq!(registry().languages().len(), BACKEND_COUNT);
}

#[test]
fn language_names_are_unique_and_sorted() {
    let langs = registry().languages();
    let mut sorted = langs.clone();
    sorted.sort_unstable();
    assert_eq!(langs, sorted, "keep registration alphabetical");
    sorted.dedup();
    assert_eq!(sorted.len(), langs.len(), "duplicate language name");
}

#[test]
fn ensure_operations_have_no_prefilter() {
    let registry = registry();
    let mut checked = 0;
    for (lang, module, action, op) in sentinel_rules(&registry) {
        if action != "ensure" {
            continue;
        }
        assert_eq!(op.prefilter(), None, "{lang}::{module} `ensure` returns a prefilter");
        checked += 1;
    }
    assert!(checked > 0, "no ensure operations found — test is vacuous");
}

#[test]
fn a_prefilter_is_derived_from_the_match_target() {
    let registry = registry();
    let mut checked = 0;
    for (lang, module, action, op) in sentinel_rules(&registry) {
        if let Some(literal) = op.prefilter() {
            assert!(!literal.is_empty(), "{lang}::{module} `{action}` returns an empty prefilter");
            assert!(
                SENTINEL.contains(literal),
                "{lang}::{module} `{action}` prefilter {literal:?} is not derived from the target"
            );
            checked += 1;
        }
    }
    assert!(checked > 0, "no prefiltered operations found — test is vacuous");
}

#[test]
fn absence_of_the_prefilter_literal_implies_a_no_op() {
    let registry = registry();
    for (lang, module, action, op) in sentinel_rules(&registry) {
        let Some(literal) = op.prefilter() else {
            continue;
        };
        for sample in SAMPLES {
            assert!(!sample.contains(literal), "sample unexpectedly contains {literal:?}");
            assert_eq!(
                op.apply(sample),
                *sample,
                "{lang}::{module} `{action}` changed a source that does not contain {literal:?}"
            );
        }
    }
}

#[test]
fn every_advertised_action_actually_builds() {
    let registry = registry();
    let rules = sentinel_rules(&registry);
    assert!(
        rules.len() >= 38, 
        "expected the full capability matrix, built only {}",
        rules.len()
    );
}

#[test]
fn no_backend_claims_a_path_it_cannot_parse() {
    let registry = registry();
    for (lang, module, action, op) in sentinel_rules(&registry) {
        assert!(
            !op.is_file_relevant("a.definitely_not_a_language"),
            "{lang}::{module} `{action}` claims an unknown extension"
        );
    }
}

//! The Java backend: `java::import`, `java::package`, `java::symbol` and
//! `java::call`.

pub mod imports;
pub mod packages;
pub mod symbols;
pub mod calls;

use vstd::prelude::*;
use crate::backend::{
    ActionCapability, Capability, LanguageBackend, RuleSpec, unsupported, unsupported_text,
    action_word_spec, advertises, capability_views, descriptions_of, action_notes_of,
};
use crate::error::{Error, Result};
use crate::rules::Rule;
use crate::text::str_eq;
use crate::paths::{has_extension, has_ext};

verus! {

/// A file is a Java file by its `.java` extension.
pub open spec fn is_java(path: Seq<char>) -> bool {
    has_extension(path, "java"@)
}

pub fn is_java_file(path: &str) -> (r: bool)
    ensures
        r == is_java(path@),
{
    has_ext(path, "java")
}


/// The backend for the `java` namespace.
#[derive(Debug, Clone, Copy)]
pub struct JavaBackend;

/// The modules of the `java` namespace and their actions.
pub open spec fn java_offered() -> Seq<(Seq<char>, Seq<Seq<char>>)> {
    seq![
        ("import"@, seq!["replace"@, "delete"@, "ensure"@]),
        ("package"@, seq!["replace"@]),
        ("symbol"@, seq!["replace"@]),
        ("call"@, seq!["replace_call"@]),
    ]
}

/// The rule a `java::<module>` match block lowers to.
pub open spec fn java_rule(module: Seq<char>, spec: RuleSpec) -> Option<core::result::Result<Rule, Seq<char>>> {
    match spec {
        RuleSpec::Replace { target, replacement } =>
            if module == "import"@ {
                Some(Ok(Rule::JavaImportRename(imports::ImportRename { from: target, to: replacement })))
            } else if module == "package"@ {
                Some(Ok(Rule::JavaPackageRename(packages::PackageRename { from: target, to: replacement })))
            } else if module == "symbol"@ {
                Some(Ok(Rule::JavaSymbolRename(symbols::SymbolRename { from: target, to: replacement })))
            } else {
                None
            },
        RuleSpec::Delete { target } =>
            if module == "import"@ {
                Some(Ok(Rule::JavaImportDelete(imports::ImportDelete { target })))
            } else {
                None
            },
        RuleSpec::Ensure { target } =>
            if module == "import"@ {
                Some(Ok(Rule::JavaImportEnsure(imports::ImportEnsure { target })))
            } else {
                None
            },
        RuleSpec::ReplaceCall { target, template } =>
            if module == "call"@ {
                Some(Ok(Rule::JavaCallReplace(calls::CallReplace { function: target, template })))
            } else {
                None
            },
        RuleSpec::SetValue { .. } => None,
        RuleSpec::Insert { .. } => None,
    }
}

fn action(name: &'static str, description: &'static str) -> (r: ActionCapability)
    ensures
        r.name == name,
        r.description == description,
{
    ActionCapability { name, description }
}

impl LanguageBackend for JavaBackend {
    open spec fn lang_spec(&self) -> Seq<char> {
        "java"@
    }

    open spec fn summary(&self) -> Seq<char> {
        "Java source rewrites via tree-sitter-java."@
    }

    open spec fn action_notes(&self) -> Seq<Seq<Seq<char>>> {
        seq![
            seq!["Replace the matched import name with another."@, "Remove the matched import line."@, "Idempotently add `import <target>;` if missing."@],
            seq!["Replace the matched package name with another."@],
            seq!["Rewrite every `identifier`/`type_identifier` whose text equals the target."@],
            seq!["Replace matched invocations with the rendered template. Rename the method to stay idempotent."@],
        ]
    }

    open spec fn described(&self) -> Seq<Seq<char>> {
        seq![
            "Rename, delete, or ensure a Java `import` declaration."@,
            "Rewrite the file's `package` declaration."@,
            "Rename a class, method, field, or local identifier and its in-file usages. Best-effort syntactic rename — verify with `--format diff` before `--write`."@,
            "Rewrite a method invocation using a template with $1/$2/$args/$func placeholders. The target is the invocation up to its argument list, receiver included."@,
        ]
    }

    open spec fn offered(&self) -> Seq<(Seq<char>, Seq<Seq<char>>)> {
        java_offered()
    }

    open spec fn rule_for(&self, module: Seq<char>, spec: RuleSpec) -> Option<core::result::Result<Rule, Seq<char>>> {
        java_rule(module, spec)
    }

    fn lang(&self) -> (r: &'static str) {
        "java"
    }

    fn description(&self) -> (r: &'static str) {
        "Java source rewrites via tree-sitter-java."
    }

    fn capabilities(&self) -> (r: Vec<Capability>) {
        let r = vec![
            Capability {
                module: "import",
                description: "Rename, delete, or ensure a Java `import` declaration.",
                actions: vec![
                    action("replace", "Replace the matched import name with another."),
                    action("delete", "Remove the matched import line."),
                    action("ensure", "Idempotently add `import <target>;` if missing."),
                ],
            },
            Capability {
                module: "package",
                description: "Rewrite the file's `package` declaration.",
                actions: vec![
                    action("replace", "Replace the matched package name with another."),
                ],
            },
            Capability {
                module: "symbol",
                description: "Rename a class, method, field, or local identifier and its in-file usages. Best-effort syntactic rename — verify with `--format diff` before `--write`.",
                actions: vec![
                    action("replace", "Rewrite every `identifier`/`type_identifier` whose text equals the target."),
                ],
            },
            Capability {
                module: "call",
                description: "Rewrite a method invocation using a template with $1/$2/$args/$func placeholders. The target is the invocation up to its argument list, receiver included.",
                actions: vec![
                    action("replace_call", "Replace matched invocations with the rendered template. Rename the method to stay idempotent."),
                ],
            },
        ];
        proof {
            reveal_strlit("import");
            reveal_strlit("package");
            reveal_strlit("symbol");
            reveal_strlit("call");
            reveal_strlit("delete");
            reveal_strlit("ensure");
            reveal_strlit("replace");
            reveal_strlit("replace_call");
            assert(r@[0].actions@.map_values(|a: ActionCapability| a.name@) =~= seq!["replace"@, "delete"@, "ensure"@]);
            assert(r@[1].actions@.map_values(|a: ActionCapability| a.name@) =~= seq!["replace"@]);
            assert(r@[2].actions@.map_values(|a: ActionCapability| a.name@) =~= seq!["replace"@]);
            assert(r@[3].actions@.map_values(|a: ActionCapability| a.name@) =~= seq!["replace_call"@]);
            assert(capability_views(r@) =~= java_offered());
            assert(descriptions_of(r@) =~= self.described());
            assert(r@[0].actions@.map_values(|a: ActionCapability| a.description@) =~= self.action_notes()[0]);
            assert(r@[1].actions@.map_values(|a: ActionCapability| a.description@) =~= self.action_notes()[1]);
            assert(r@[2].actions@.map_values(|a: ActionCapability| a.description@) =~= self.action_notes()[2]);
            assert(r@[3].actions@.map_values(|a: ActionCapability| a.description@) =~= self.action_notes()[3]);
            assert(action_notes_of(r@) =~= self.action_notes());
        }
        r
    }

    fn build_rule(&self, module: &str, spec: RuleSpec) -> (r: Result<Rule>) {
        proof {
            reveal_strlit("import");
            reveal_strlit("package");
            reveal_strlit("symbol");
            reveal_strlit("call");
        }
        let is_0 = str_eq(module, "import");
        let is_1 = str_eq(module, "package");
        let is_2 = str_eq(module, "symbol");
        let is_3 = str_eq(module, "call");
        let supported = match &spec {
            RuleSpec::Replace { .. } => is_0 || is_1 || is_2,
            RuleSpec::Delete { .. } => is_0,
            RuleSpec::Ensure { .. } => is_0,
            RuleSpec::ReplaceCall { .. } => is_3,
            RuleSpec::SetValue { .. } => false,
            RuleSpec::Insert { .. } => false,
        };
        if !supported {
            return Err(unsupported("java", module, &spec, &self.capabilities()));
        }
        match spec {
            RuleSpec::Replace { target, replacement } => {
                if is_0 {
                    Ok(Rule::JavaImportRename(imports::ImportRename { from: target, to: replacement }))
                } else if is_1 {
                    Ok(Rule::JavaPackageRename(packages::PackageRename { from: target, to: replacement }))
                } else {
                    Ok(Rule::JavaSymbolRename(symbols::SymbolRename { from: target, to: replacement }))
                }
            },
            RuleSpec::Delete { target } => Ok(Rule::JavaImportDelete(imports::ImportDelete { target })),
            RuleSpec::Ensure { target } => Ok(Rule::JavaImportEnsure(imports::ImportEnsure { target })),
            RuleSpec::ReplaceCall { target, template } => Ok(Rule::JavaCallReplace(calls::CallReplace { function: target, template })),
            RuleSpec::SetValue { .. } => Err(unsupported("java", module, &spec, &self.capabilities())),
            RuleSpec::Insert { .. } => Err(unsupported("java", module, &spec, &self.capabilities())),
        }
    }

    proof fn lemma_builds_what_it_offers(&self, module: Seq<char>, spec: RuleSpec) {
        reveal_strlit("import");
        reveal_strlit("package");
        reveal_strlit("symbol");
        reveal_strlit("call");
        reveal_strlit("delete");
        reveal_strlit("ensure");
        reveal_strlit("insert");
        reveal_strlit("replace");
        reveal_strlit("replace_call");
        reveal_strlit("set");
        let caps = java_offered();
        let a = action_word_spec(spec);
        if java_rule(module, spec) is Some {
            let k: int = if module == "import"@ { 0 } else if module == "package"@ { 1 } else if module == "symbol"@ { 2 } else { 3 };
            let j: int = match spec {
                RuleSpec::Replace { .. } => 0,
                RuleSpec::Delete { .. } => 1,
                RuleSpec::Ensure { .. } => 2,
                RuleSpec::ReplaceCall { .. } => 0,
                RuleSpec::SetValue { .. } => 0,
                RuleSpec::Insert { .. } => 0,
            };
            assert(caps[k].1[j] == a);
            assert(caps[k].1.contains(a));
        }
        if advertises(caps, module, a) {
            let k = choose|k: int| 0 <= k < caps.len() && caps[k].0 == module && (#[trigger] caps[k]).1.contains(a);
            let j = choose|j: int| 0 <= j < caps[k].1.len() && caps[k].1[j] == a;
            assert("replace"@.len() != "delete"@.len());
            assert("replace"@.len() != "ensure"@.len());
            assert("replace"@.len() != "replace_call"@.len());
            assert("replace"@.len() != "set"@.len());
            assert("replace"@.len() != "insert"@.len());
            assert("delete"@[0] != "ensure"@[0]);
            assert("delete"@.len() != "replace_call"@.len());
            assert("delete"@.len() != "set"@.len());
            assert("delete"@[0] != "insert"@[0]);
            assert("ensure"@.len() != "replace_call"@.len());
            assert("ensure"@.len() != "set"@.len());
            assert("ensure"@[0] != "insert"@[0]);
            assert("replace_call"@.len() != "set"@.len());
            assert("replace_call"@.len() != "insert"@.len());
            assert("set"@.len() != "insert"@.len());
            assert("import"@.len() != "package"@.len());
            assert("import"@[0] != "symbol"@[0]);
            assert("import"@.len() != "call"@.len());
            assert("package"@.len() != "symbol"@.len());
            assert("package"@.len() != "call"@.len());
            assert("symbol"@.len() != "call"@.len());
            assert(java_rule(module, spec) is Some);
        }
    }
}

} // verus!

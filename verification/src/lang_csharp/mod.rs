//! The C# backend: `csharp::using`, `csharp::namespace`,
//! `csharp::symbol` and `csharp::call`.

pub mod usings;
pub mod namespaces;
pub mod symbols;
pub mod calls;

use vstd::prelude::*;
use crate::backend::{
    ActionCapability, Capability, LanguageBackend, RuleSpec, unsupported, unsupported_text,
    action_word_spec, advertises, capability_views, descriptions_of, action_notes_of,
};
use crate::error::{Error, Result};
use crate::rules::Rule;
use crate::text::str_eq;
use crate::paths::{extension_in, has_extension_in};

verus! {

/// The extensions the backend claims.
pub open spec fn csharp_extensions() -> Seq<Seq<char>> {
    seq!["cs"@, "csx"@]
}

/// A C# source or script, by extension.
pub open spec fn is_csharp(path: Seq<char>) -> bool {
    extension_in(path, csharp_extensions())
}

pub fn is_csharp_file(path: &str) -> (r: bool)
    ensures
        r == is_csharp(path@),
{
    let exts: [&str; 2] = ["cs", "csx"];
    assert(exts@.map_values(|e: &str| e@) =~= csharp_extensions());
    has_extension_in(path, &exts)
}

/// The backend for the `csharp` namespace.
#[derive(Debug, Clone, Copy)]
pub struct CSharpBackend;

/// The modules of the `csharp` namespace and their actions.
pub open spec fn csharp_offered() -> Seq<(Seq<char>, Seq<Seq<char>>)> {
    seq![
        ("using"@, seq!["replace"@, "delete"@, "ensure"@]),
        ("namespace"@, seq!["replace"@]),
        ("symbol"@, seq!["replace"@]),
        ("call"@, seq!["replace_call"@]),
    ]
}

/// The rule a `csharp::<module>` match block lowers to.
pub open spec fn csharp_rule(module: Seq<char>, spec: RuleSpec) -> Option<core::result::Result<Rule, Seq<char>>> {
    match spec {
        RuleSpec::Replace { target, replacement } =>
            if module == "using"@ {
                Some(Ok(Rule::CSharpUsingRename(usings::UsingRename { from: target, to: replacement })))
            } else if module == "namespace"@ {
                Some(Ok(Rule::CSharpNamespaceRename(namespaces::NamespaceRename { from: target, to: replacement })))
            } else if module == "symbol"@ {
                Some(Ok(Rule::CSharpSymbolRename(symbols::SymbolRename { from: target, to: replacement })))
            } else {
                None
            },
        RuleSpec::Delete { target } =>
            if module == "using"@ {
                Some(Ok(Rule::CSharpUsingDelete(usings::UsingDelete { target })))
            } else {
                None
            },
        RuleSpec::Ensure { target } =>
            if module == "using"@ {
                Some(Ok(Rule::CSharpUsingEnsure(usings::UsingEnsure { target })))
            } else {
                None
            },
        RuleSpec::ReplaceCall { target, template } =>
            if module == "call"@ {
                Some(Ok(Rule::CSharpCallReplace(calls::CallReplace { function: target, template })))
            } else {
                None
            },
        RuleSpec::SetValue { .. } => None,
        RuleSpec::Insert { .. } => None,
    }
}

fn action(name: &'static str, description: &'static str) -> (r: ActionCapability)
    ensures
        r.name == name,
        r.description == description,
{
    ActionCapability { name, description }
}

impl LanguageBackend for CSharpBackend {
    open spec fn lang_spec(&self) -> Seq<char> {
        "csharp"@
    }

    open spec fn summary(&self) -> Seq<char> {
        "C# source rewrites via tree-sitter-c-sharp."@
    }

    open spec fn action_notes(&self) -> Seq<Seq<Seq<char>>> {
        seq![
            seq!["Replace the matched using name with another."@, "Remove the matched `using` line."@, "Idempotently add `using <target>;` if missing."@],
            seq!["Replace the matched namespace name with another."@],
            seq!["Rewrite every `identifier` whose text equals the target."@],
            seq!["Replace matched invocations with the rendered template. Rename the function to stay idempotent."@],
        ]
    }

    open spec fn described(&self) -> Seq<Seq<char>> {
        seq![
            "Rename, delete, or ensure a `using` directive. Covers the plain, `using static`, and alias forms; for an alias the target is the right-hand side."@,
            "Rewrite a `namespace` declaration, block-scoped or file-scoped."@,
            "Rename a class, method, property, field, or local and its in-file usages. Best-effort syntactic rename — verify with `--format diff` before `--write`."@,
            "Rewrite an invocation using a template with $1/$2/$args/$func placeholders."@,
        ]
    }

    open spec fn offered(&self) -> Seq<(Seq<char>, Seq<Seq<char>>)> {
        csharp_offered()
    }

    open spec fn rule_for(&self, module: Seq<char>, spec: RuleSpec) -> Option<core::result::Result<Rule, Seq<char>>> {
        csharp_rule(module, spec)
    }

    fn lang(&self) -> (r: &'static str) {
        "csharp"
    }

    fn description(&self) -> (r: &'static str) {
        "C# source rewrites via tree-sitter-c-sharp."
    }

    fn capabilities(&self) -> (r: Vec<Capability>) {
        let r = vec![
            Capability {
                module: "using",
                description: "Rename, delete, or ensure a `using` directive. Covers the plain, `using static`, and alias forms; for an alias the target is the right-hand side.",
                actions: vec![
                    action("replace", "Replace the matched using name with another."),
                    action("delete", "Remove the matched `using` line."),
                    action("ensure", "Idempotently add `using <target>;` if missing."),
                ],
            },
            Capability {
                module: "namespace",
                description: "Rewrite a `namespace` declaration, block-scoped or file-scoped.",
                actions: vec![
                    action("replace", "Replace the matched namespace name with another."),
                ],
            },
            Capability {
                module: "symbol",
                description: "Rename a class, method, property, field, or local and its in-file usages. Best-effort syntactic rename — verify with `--format diff` before `--write`.",
                actions: vec![
                    action("replace", "Rewrite every `identifier` whose text equals the target."),
                ],
            },
            Capability {
                module: "call",
                description: "Rewrite an invocation using a template with $1/$2/$args/$func placeholders.",
                actions: vec![
                    action("replace_call", "Replace matched invocations with the rendered template. Rename the function to stay idempotent."),
                ],
            },
        ];
        proof {
            reveal_strlit("using");
            reveal_strlit("namespace");
            reveal_strlit("symbol");
            reveal_strlit("call");
            reveal_strlit("delete");
            reveal_strlit("ensure");
            reveal_strlit("replace");
            reveal_strlit("replace_call");
            assert(r@[0].actions@.map_values(|a: ActionCapability| a.name@) =~= seq!["replace"@, "delete"@, "ensure"@]);
            assert(r@[1].actions@.map_values(|a: ActionCapability| a.name@) =~= seq!["replace"@]);
            assert(r@[2].actions@.map_values(|a: ActionCapability| a.name@) =~= seq!["replace"@]);
            assert(r@[3].actions@.map_values(|a: ActionCapability| a.name@) =~= seq!["replace_call"@]);
            assert(capability_views(r@) =~= csharp_offered());
            assert(descriptions_of(r@) =~= self.described());
            assert(r@[0].actions@.map_values(|a: ActionCapability| a.description@) =~= self.action_notes()[0]);
            assert(r@[1].actions@.map_values(|a: ActionCapability| a.description@) =~= self.action_notes()[1]);
            assert(r@[2].actions@.map_values(|a: ActionCapability| a.description@) =~= self.action_notes()[2]);
            assert(r@[3].actions@.map_values(|a: ActionCapability| a.description@) =~= self.action_notes()[3]);
            assert(action_notes_of(r@) =~= self.action_notes());
        }
        r
    }

    fn build_rule(&self, module: &str, spec: RuleSpec) -> (r: Result<Rule>) {
        proof {
            reveal_strlit("using");
            reveal_strlit("namespace");
            reveal_strlit("symbol");
            reveal_strlit("call");
        }
        let is_0 = str_eq(module, "using");
        let is_1 = str_eq(module, "namespace");
        let is_2 = str_eq(module, "symbol");
        let is_3 = str_eq(module, "call");
        let supported = match &spec {
            RuleSpec::Replace { .. } => is_0 || is_1 || is_2,
            RuleSpec::Delete { .. } => is_0,
            RuleSpec::Ensure { .. } => is_0,
            RuleSpec::ReplaceCall { .. } => is_3,
            RuleSpec::SetValue { .. } => false,
            RuleSpec::Insert { .. } => false,
        };
        if !supported {
            return Err(unsupported("csharp", module, &spec, &self.capabilities()));
        }
        match spec {
            RuleSpec::Replace { target, replacement } => {
                if is_0 {
                    Ok(Rule::CSharpUsingRename(usings::UsingRename { from: target, to: replacement }))
                } else if is_1 {
                    Ok(Rule::CSharpNamespaceRename(namespaces::NamespaceRename { from: target, to: replacement }))
                } else {
                    Ok(Rule::CSharpSymbolRename(symbols::SymbolRename { from: target, to: replacement }))
                }
            },
            RuleSpec::Delete { target } => Ok(Rule::CSharpUsingDelete(usings::UsingDelete { target })),
            RuleSpec::Ensure { target } => Ok(Rule::CSharpUsingEnsure(usings::UsingEnsure { target })),
            RuleSpec::ReplaceCall { target, template } => Ok(Rule::CSharpCallReplace(calls::CallReplace { function: target, template })),
            RuleSpec::SetValue { .. } => Err(unsupported("csharp", module, &spec, &self.capabilities())),
            RuleSpec::Insert { .. } => Err(unsupported("csharp", module, &spec, &self.capabilities())),
        }
    }

    proof fn lemma_builds_what_it_offers(&self, module: Seq<char>, spec: RuleSpec) {
        reveal_strlit("using");
        reveal_strlit("namespace");
        reveal_strlit("symbol");
        reveal_strlit("call");
        reveal_strlit("delete");
        reveal_strlit("ensure");
        reveal_strlit("insert");
        reveal_strlit("replace");
        reveal_strlit("replace_call");
        reveal_strlit("set");
        let caps = csharp_offered();
        let a = action_word_spec(spec);
        if csharp_rule(module, spec) is Some {
            let k: int = if module == "using"@ { 0 } else if module == "namespace"@ { 1 } else if module == "symbol"@ { 2 } else { 3 };
            let j: int = match spec {
                RuleSpec::Replace { .. } => 0,
                RuleSpec::Delete { .. } => 1,
                RuleSpec::Ensure { .. } => 2,
                RuleSpec::ReplaceCall { .. } => 0,
                RuleSpec::SetValue { .. } => 0,
                RuleSpec::Insert { .. } => 0,
            };
            assert(caps[k].1[j] == a);
            assert(caps[k].1.contains(a));
        }
        if advertises(caps, module, a) {
            let k = choose|k: int| 0 <= k < caps.len() && caps[k].0 == module && (#[trigger] caps[k]).1.contains(a);
            let j = choose|j: int| 0 <= j < caps[k].1.len() && caps[k].1[j] == a;
            assert("replace"@.len() != "delete"@.len());
            assert("replace"@.len() != "ensure"@.len());
            assert("replace"@.len() != "replace_call"@.len());
            assert("replace"@.len() != "set"@.len());
            assert("replace"@.len() != "insert"@.len());
            assert("delete"@[0] != "ensure"@[0]);
            assert("delete"@.len() != "replace_call"@.len());
            assert("delete"@.len() != "set"@.len());
            assert("delete"@[0] != "insert"@[0]);
            assert("ensure"@.len() != "replace_call"@.len());
            assert("ensure"@.len() != "set"@.len());
            assert("ensure"@[0] != "insert"@[0]);
            assert("replace_call"@.len() != "set"@.len());
            assert("replace_call"@.len() != "insert"@.len());
            assert("set"@.len() != "insert"@.len());
            assert("using"@.len() != "namespace"@.len());
            assert("using"@.len() != "symbol"@.len());
            assert("using"@.len() != "call"@.len());
            assert("namespace"@.len() != "symbol"@.len());
            assert("namespace"@.len() != "call"@.len());
            assert("symbol"@.len() != "call"@.len());
            assert(csharp_rule(module, spec) is Some);
        }
    }
}

} // verus!

//! The C backend: `c::include`, `c::symbol` and `c::call`.
//!
//! `.h` files are claimed by this backend and the C++ one alike, since
//! the extension cannot tell a C header from a C++ header.

pub mod includes;
pub mod symbols;
pub mod calls;

use vstd::prelude::*;
use crate::backend::{
    ActionCapability, Capability, LanguageBackend, RuleSpec, unsupported, unsupported_text,
    action_word_spec, advertises, capability_views, descriptions_of, action_notes_of,
};
use crate::error::{Error, Result};
use crate::rules::Rule;
use crate::text::str_eq;
use crate::paths::{extension_in, has_extension_in};

verus! {

/// The extensions the backend claims.
pub open spec fn c_extensions() -> Seq<Seq<char>> {
    seq!["c"@, "h"@]
}

/// A C source or header, by extension.
pub open spec fn is_c(path: Seq<char>) -> bool {
    extension_in(path, c_extensions())
}

pub fn is_c_file(path: &str) -> (r: bool)
    ensures
        r == is_c(path@),
{
    let exts: [&str; 2] = ["c", "h"];
    assert(exts@.map_values(|e: &str| e@) =~= c_extensions());
    has_extension_in(path, &exts)
}

/// The backend for the `c` namespace.
#[derive(Debug, Clone, Copy)]
pub struct CBackend;

/// The modules of the `c` namespace and their actions.
pub open spec fn c_offered() -> Seq<(Seq<char>, Seq<Seq<char>>)> {
    seq![
        ("include"@, seq!["replace"@, "delete"@, "ensure"@]),
        ("symbol"@, seq!["replace"@]),
        ("call"@, seq!["replace_call"@]),
    ]
}

/// The rule a `c::<module>` match block lowers to.
pub open spec fn c_rule(module: Seq<char>, spec: RuleSpec) -> Option<core::result::Result<Rule, Seq<char>>> {
    match spec {
        RuleSpec::Replace { target, replacement } =>
            if module == "include"@ {
                Some(Ok(Rule::CIncludeRename(includes::IncludeRename { from: target, to: replacement })))
            } else if module == "symbol"@ {
                Some(Ok(Rule::CSymbolRename(symbols::SymbolRename { from: target, to: replacement })))
            } else {
                None
            },
        RuleSpec::Delete { target } =>
            if module == "include"@ {
                Some(Ok(Rule::CIncludeDelete(includes::IncludeDelete { target })))
            } else {
                None
            },
        RuleSpec::Ensure { target } =>
            if module == "include"@ {
                Some(Ok(Rule::CIncludeEnsure(includes::IncludeEnsure { target })))
            } else {
                None
            },
        RuleSpec::ReplaceCall { target, template } =>
            if module == "call"@ {
                Some(Ok(Rule::CCallReplace(calls::CallReplace { function: target, template })))
            } else {
                None
            },
        RuleSpec::SetValue { .. } => None,
        RuleSpec::Insert { .. } => None,
    }
}

fn action(name: &'static str, description: &'static str) -> (r: ActionCapability)
    ensures
        r.name == name,
        r.description == description,
{
    ActionCapability { name, description }
}

impl LanguageBackend for CBackend {
    open spec fn lang_spec(&self) -> Seq<char> {
        "c"@
    }

    open spec fn summary(&self) -> Seq<char> {
        "C source rewrites via tree-sitter-c."@
    }

    open spec fn action_notes(&self) -> Seq<Seq<Seq<char>>> {
        seq![
            seq!["Replace the matched include path with another."@, "Remove the matched `#include` line."@, "Idempotently add the include if missing. Wrap the target in <> to insert the system form."@],
            seq!["Rewrite every identifier-kind node whose text equals the target."@],
            seq!["Replace matched calls with the rendered template. Rename the function to stay idempotent."@],
        ]
    }

    open spec fn described(&self) -> Seq<Seq<char>> {
        seq![
            "Rename, delete, or ensure a `#include` directive. Match strings are the bare path; both `<angle>` and \"quoted\" forms match, and rename preserves the existing style."@,
            "Rename a type, function, field, or variable and its in-file usages. Best-effort syntactic rename — verify with `--format diff` before `--write`."@,
            "Rewrite a call expression using a template with $1/$2/$args/$func placeholders."@,
        ]
    }

    open spec fn offered(&self) -> Seq<(Seq<char>, Seq<Seq<char>>)> {
        c_offered()
    }

    open spec fn rule_for(&self, module: Seq<char>, spec: RuleSpec) -> Option<core::result::Result<Rule, Seq<char>>> {
        c_rule(module, spec)
    }

    fn lang(&self) -> (r: &'static str) {
        "c"
    }

    fn description(&self) -> (r: &'static str) {
        "C source rewrites via tree-sitter-c."
    }

    fn capabilities(&self) -> (r: Vec<Capability>) {
        let r = vec![
            Capability {
                module: "include",
                description: "Rename, delete, or ensure a `#include` directive. Match strings are the bare path; both `<angle>` and \"quoted\" forms match, and rename preserves the existing style.",
                actions: vec![
                    action("replace", "Replace the matched include path with another."),
                    action("delete", "Remove the matched `#include` line."),
                    action("ensure", "Idempotently add the include if missing. Wrap the target in <> to insert the system form."),
                ],
            },
            Capability {
                module: "symbol",
                description: "Rename a type, function, field, or variable and its in-file usages. Best-effort syntactic rename — verify with `--format diff` before `--write`.",
                actions: vec![
                    action("replace", "Rewrite every identifier-kind node whose text equals the target."),
                ],
            },
            Capability {
                module: "call",
                description: "Rewrite a call expression using a template with $1/$2/$args/$func placeholders.",
                actions: vec![
                    action("replace_call", "Replace matched calls with the rendered template. Rename the function to stay idempotent."),
                ],
            },
        ];
        proof {
            reveal_strlit("include");
            reveal_strlit("symbol");
            reveal_strlit("call");
            reveal_strlit("delete");
            reveal_strlit("ensure");
            reveal_strlit("replace");
            reveal_strlit("replace_call");
            assert(r@[0].actions@.map_values(|a: ActionCapability| a.name@) =~= seq!["replace"@, "delete"@, "ensure"@]);
            assert(r@[1].actions@.map_values(|a: ActionCapability| a.name@) =~= seq!["replace"@]);
            assert(r@[2].actions@.map_values(|a: ActionCapability| a.name@) =~= seq!["replace_call"@]);
            assert(capability_views(r@) =~= c_offered());
            assert(descriptions_of(r@) =~= self.described());
            assert(r@[0].actions@.map_values(|a: ActionCapability| a.description@) =~= self.action_notes()[0]);
            assert(r@[1].actions@.map_values(|a: ActionCapability| a.description@) =~= self.action_notes()[1]);
            assert(r@[2].actions@.map_values(|a: ActionCapability| a.description@) =~= self.action_notes()[2]);
            assert(action_notes_of(r@) =~= self.action_notes());
        }
        r
    }

    fn build_rule(&self, module: &str, spec: RuleSpec) -> (r: Result<Rule>) {
        proof {
            reveal_strlit("include");
            reveal_strlit("symbol");
            reveal_strlit("call");
        }
        let is_0 = str_eq(module, "include");
        let is_1 = str_eq(module, "symbol");
        let is_2 = str_eq(module, "call");
        let supported = match &spec {
            RuleSpec::Replace { .. } => is_0 || is_1,
            RuleSpec::Delete { .. } => is_0,
            RuleSpec::Ensure { .. } => is_0,
            RuleSpec::ReplaceCall { .. } => is_2,
            RuleSpec::SetValue { .. } => false,
            RuleSpec::Insert { .. } => false,
        };
        if !supported {
            return Err(unsupported("c", module, &spec, &self.capabilities()));
        }
        match spec {
            RuleSpec::Replace { target, replacement } => {
                if is_0 {
                    Ok(Rule::CIncludeRename(includes::IncludeRename { from: target, to: replacement }))
                } else {
                    Ok(Rule::CSymbolRename(symbols::SymbolRename { from: target, to: replacement }))
                }
            },
            RuleSpec::Delete { target } => Ok(Rule::CIncludeDelete(includes::IncludeDelete { target })),
            RuleSpec::Ensure { target } => Ok(Rule::CIncludeEnsure(includes::IncludeEnsure { target })),
            RuleSpec::ReplaceCall { target, template } => Ok(Rule::CCallReplace(calls::CallReplace { function: target, template })),
            RuleSpec::SetValue { .. } => Err(unsupported("c", module, &spec, &self.capabilities())),
            RuleSpec::Insert { .. } => Err(unsupported("c", module, &spec, &self.capabilities())),
        }
    }

    proof fn lemma_builds_what_it_offers(&self, module: Seq<char>, spec: RuleSpec) {
        reveal_strlit("include");
        reveal_strlit("symbol");
        reveal_strlit("call");
        reveal_strlit("delete");
        reveal_strlit("ensure");
        reveal_strlit("insert");
        reveal_strlit("replace");
        reveal_strlit("replace_call");
        reveal_strlit("set");
        let caps = c_offered();
        let a = action_word_spec(spec);
        if c_rule(module, spec) is Some {
            let k: int = if module == "include"@ { 0 } else if module == "symbol"@ { 1 } else { 2 };
            let j: int = match spec {
                RuleSpec::Replace { .. } => 0,
                RuleSpec::Delete { .. } => 1,
                RuleSpec::Ensure { .. } => 2,
                RuleSpec::ReplaceCall { .. } => 0,
                RuleSpec::SetValue { .. } => 0,
                RuleSpec::Insert { .. } => 0,
            };
            assert(caps[k].1[j] == a);
            assert(caps[k].1.contains(a));
        }
        if advertises(caps, module, a) {
            let k = choose|k: int| 0 <= k < caps.len() && caps[k].0 == module && (#[trigger] caps[k]).1.contains(a);
            let j = choose|j: int| 0 <= j < caps[k].1.len() && caps[k].1[j] == a;
            assert("replace"@.len() != "delete"@.len());
            assert("replace"@.len() != "ensure"@.len());
            assert("replace"@.len() != "replace_call"@.len());
            assert("replace"@.len() != "set"@.len());
            assert("replace"@.len() != "insert"@.len());
            assert("delete"@[0] != "ensure"@[0]);
            assert("delete"@.len() != "replace_call"@.len());
            assert("delete"@.len() != "set"@.len());
            assert("delete"@[0] != "insert"@[0]);
            assert("ensure"@.len() != "replace_call"@.len());
            assert("ensure"@.len() != "set"@.len());
            assert("ensure"@[0] != "insert"@[0]);
            assert("replace_call"@.len() != "set"@.len());
            assert("replace_call"@.len() != "insert"@.len());
            assert("set"@.len() != "insert"@.len());
            assert("include"@.len() != "symbol"@.len());
            assert("include"@.len() != "call"@.len());
            assert("symbol"@.len() != "call"@.len());
            assert(c_rule(module, spec) is Some);
        }
    }
}

} // verus!

//! The JavaScript/TypeScript backend: `js::import`, `js::symbol` and
//! `js::call`.
//!
//! The JavaScript grammar parses TypeScript module syntax as well, so
//! `.ts` and `.tsx` files are claimed too.

pub mod imports;
pub mod symbols;
pub mod calls;

use vstd::prelude::*;
use crate::backend::{
    ActionCapability, Capability, LanguageBackend, RuleSpec, unsupported, unsupported_text,
    action_word_spec, advertises, capability_views, descriptions_of, action_notes_of,
};
use crate::error::{Error, Result};
use crate::rules::Rule;
use crate::text::str_eq;
use crate::paths::{extension_in, has_extension_in};

verus! {

/// The extensions the backend claims.
pub open spec fn js_extensions() -> Seq<Seq<char>> {
    seq!["js"@, "mjs"@, "cjs"@, "jsx"@, "ts"@, "tsx"@]
}

/// A JavaScript or TypeScript source, by extension.
pub open spec fn is_js(path: Seq<char>) -> bool {
    extension_in(path, js_extensions())
}

pub fn is_js_file(path: &str) -> (r: bool)
    ensures
        r == is_js(path@),
{
    let exts: [&str; 6] = ["js", "mjs", "cjs", "jsx", "ts", "tsx"];
    assert(exts@.map_values(|e: &str| e@) =~= js_extensions());
    has_extension_in(path, &exts)
}

/// The backend for the `js` namespace.
#[derive(Debug, Clone, Copy)]
pub struct JsBackend;

/// The modules of the `js` namespace and their actions.
pub open spec fn js_offered() -> Seq<(Seq<char>, Seq<Seq<char>>)> {
    seq![
        ("import"@, seq!["replace"@, "delete"@, "ensure"@]),
        ("symbol"@, seq!["replace"@]),
        ("call"@, seq!["replace_call"@]),
    ]
}

/// The rule a `js::<module>` match block lowers to.
pub open spec fn js_rule(module: Seq<char>, spec: RuleSpec) -> Option<core::result::Result<Rule, Seq<char>>> {
    match spec {
        RuleSpec::Replace { target, replacement } =>
            if module == "import"@ {
                Some(Ok(Rule::JsSpecifierRename(imports::SpecifierRename { from: target, to: replacement })))
            } else if module == "symbol"@ {
                Some(Ok(Rule::JsSymbolRename(symbols::SymbolRename { from: target, to: replacement })))
            } else {
                None
            },
        RuleSpec::Delete { target } =>
            if module == "import"@ {
                Some(Ok(Rule::JsSpecifierDelete(imports::SpecifierDelete { target })))
            } else {
                None
            },
        RuleSpec::Ensure { target } =>
            if module == "import"@ {
                Some(Ok(Rule::JsSpecifierEnsure(imports::SpecifierEnsure { target })))
            } else {
                None
            },
        RuleSpec::ReplaceCall { target, template } =>
            if module == "call"@ {
                Some(Ok(Rule::JsCallReplace(calls::CallReplace { function: target, template })))
            } else {
                None
            },
        RuleSpec::SetValue { .. } => None,
        RuleSpec::Insert { .. } => None,
    }
}

fn action(name: &'static str, description: &'static str) -> (r: ActionCapability)
    ensures
        r.name == name,
        r.description == description,
{
    ActionCapability { name, description }
}

impl LanguageBackend for JsBackend {
    open spec fn lang_spec(&self) -> Seq<char> {
        "js"@
    }

    open spec fn summary(&self) -> Seq<char> {
        "JavaScript/TypeScript module-specifier rewrites via tree-sitter-javascript."@
    }

    open spec fn action_notes(&self) -> Seq<Seq<Seq<char>>> {
        seq![
            seq!["Replace the matched specifier with another."@, "Remove `import`/`export-from` statements with a matching specifier."@, "Idempotently add the side-effect import `import '<target>';` if the module is not imported in any form."@],
            seq!["Rewrite every `identifier`/`property_identifier`/`shorthand_property_identifier` whose text equals the target."@],
            seq!["Replace matched calls with the rendered template. Rename the function to stay idempotent."@],
        ]
    }

    open spec fn described(&self) -> Seq<Seq<char>> {
        seq![
            "Rewrite ES module specifiers (the string after `from`)."@,
            "Rename a JS/TS identifier (functions, variables, properties) and its in-file usages. Best-effort syntactic rename — verify with `--format diff` before `--write`."@,
            "Rewrite a call expression using a template with $1/$2/$args/$func placeholders."@,
        ]
    }

    open spec fn offered(&self) -> Seq<(Seq<char>, Seq<Seq<char>>)> {
        js_offered()
    }

    open spec fn rule_for(&self, module: Seq<char>, spec: RuleSpec) -> Option<core::result::Result<Rule, Seq<char>>> {
        js_rule(module, spec)
    }

    fn lang(&self) -> (r: &'static str) {
        "js"
    }

    fn description(&self) -> (r: &'static str) {
        "JavaScript/TypeScript module-specifier rewrites via tree-sitter-javascript."
    }

    fn capabilities(&self) -> (r: Vec<Capability>) {
        let r = vec![
            Capability {
                module: "import",
                description: "Rewrite ES module specifiers (the string after `from`).",
                actions: vec![
                    action("replace", "Replace the matched specifier with another."),
                    action("delete", "Remove `import`/`export-from` statements with a matching specifier."),
                    action("ensure", "Idempotently add the side-effect import `import '<target>';` if the module is not imported in any form."),
                ],
            },
            Capability {
                module: "symbol",
                description: "Rename a JS/TS identifier (functions, variables, properties) and its in-file usages. Best-effort syntactic rename — verify with `--format diff` before `--write`.",
                actions: vec![
                    action("replace", "Rewrite every `identifier`/`property_identifier`/`shorthand_property_identifier` whose text equals the target."),
                ],
            },
            Capability {
                module: "call",
                description: "Rewrite a call expression using a template with $1/$2/$args/$func placeholders.",
                actions: vec![
                    action("replace_call", "Replace matched calls with the rendered template. Rename the function to stay idempotent."),
                ],
            },
        ];
        proof {
            reveal_strlit("import");
            reveal_strlit("symbol");
            reveal_strlit("call");
            reveal_strlit("delete");
            reveal_strlit("ensure");
            reveal_strlit("replace");
            reveal_strlit("replace_call");
            assert(r@[0].actions@.map_values(|a: ActionCapability| a.name@) =~= seq!["replace"@, "delete"@, "ensure"@]);
            assert(r@[1].actions@.map_values(|a: ActionCapability| a.name@) =~= seq!["replace"@]);
            assert(r@[2].actions@.map_values(|a: ActionCapability| a.name@) =~= seq!["replace_call"@]);
            assert(capability_views(r@) =~= js_offered());
            assert(descriptions_of(r@) =~= self.described());
            assert(r@[0].actions@.map_values(|a: ActionCapability| a.description@) =~= self.action_notes()[0]);
            assert(r@[1].actions@.map_values(|a: ActionCapability| a.description@) =~= self.action_notes()[1]);
            assert(r@[2].actions@.map_values(|a: ActionCapability| a.description@) =~= self.action_notes()[2]);
            assert(action_notes_of(r@) =~= self.action_notes());
        }
        r
    }

    fn build_rule(&self, module: &str, spec: RuleSpec) -> (r: Result<Rule>) {
        proof {
            reveal_strlit("import");
            reveal_strlit("symbol");
            reveal_strlit("call");
        }
        let is_0 = str_eq(module, "import");
        let is_1 = str_eq(module, "symbol");
        let is_2 = str_eq(module, "call");
        let supported = match &spec {
            RuleSpec::Replace { .. } => is_0 || is_1,
            RuleSpec::Delete { .. } => is_0,
            RuleSpec::Ensure { .. } => is_0,
            RuleSpec::ReplaceCall { .. } => is_2,
            RuleSpec::SetValue { .. } => false,
            RuleSpec::Insert { .. } => false,
        };
        if !supported {
            return Err(unsupported("js", module, &spec, &self.capabilities()));
        }
        match spec {
            RuleSpec::Replace { target, replacement } => {
                if is_0 {
                    Ok(Rule::JsSpecifierRename(imports::SpecifierRename { from: target, to: replacement }))
                } else {
                    Ok(Rule::JsSymbolRename(symbols::SymbolRename { from: target, to: replacement }))
                }
            },
            RuleSpec::Delete { target } => Ok(Rule::JsSpecifierDelete(imports::SpecifierDelete { target })),
            RuleSpec::Ensure { target } => Ok(Rule::JsSpecifierEnsure(imports::SpecifierEnsure { target })),
            RuleSpec::ReplaceCall { target, template } => Ok(Rule::JsCallReplace(calls::CallReplace { function: target, template })),
            RuleSpec::SetValue { .. } => Err(unsupported("js", module, &spec, &self.capabilities())),
            RuleSpec::Insert { .. } => Err(unsupported("js", module, &spec, &self.capabilities())),
        }
    }

    proof fn lemma_builds_what_it_offers(&self, module: Seq<char>, spec: RuleSpec) {
        reveal_strlit("import");
        reveal_strlit("symbol");
        reveal_strlit("call");
        reveal_strlit("delete");
        reveal_strlit("ensure");
        reveal_strlit("insert");
        reveal_strlit("replace");
        reveal_strlit("replace_call");
        reveal_strlit("set");
        let caps = js_offered();
        let a = action_word_spec(spec);
        if js_rule(module, spec) is Some {
            let k: int = if module == "import"@ { 0 } else if module == "symbol"@ { 1 } else { 2 };
            let j: int = match spec {
                RuleSpec::Replace { .. } => 0,
                RuleSpec::Delete { .. } => 1,
                RuleSpec::Ensure { .. } => 2,
                RuleSpec::ReplaceCall { .. } => 0,
                RuleSpec::SetValue { .. } => 0,
                RuleSpec::Insert { .. } => 0,
            };
            assert(caps[k].1[j] == a);
            assert(caps[k].1.contains(a));
        }
        if advertises(caps, module, a) {
            let k = choose|k: int| 0 <= k < caps.len() && caps[k].0 == module && (#[trigger] caps[k]).1.contains(a);
            let j = choose|j: int| 0 <= j < caps[k].1.len() && caps[k].1[j] == a;
            assert("replace"@.len() != "delete"@.len());
            assert("replace"@.len() != "ensure"@.len());
            assert("replace"@.len() != "replace_call"@.len());
            assert("replace"@.len() != "set"@.len());
            assert("replace"@.len() != "insert"@.len());
            assert("delete"@[0] != "ensure"@[0]);
            assert("delete"@.len() != "replace_call"@.len());
            assert("delete"@.len() != "set"@.len());
            assert("delete"@[0] != "insert"@[0]);
            assert("ensure"@.len() != "replace_call"@.len());
            assert("ensure"@.len() != "set"@.len());
            assert("ensure"@[0] != "insert"@[0]);
            assert("replace_call"@.len() != "set"@.len());
            assert("replace_call"@.len() != "insert"@.len());
            assert("set"@.len() != "insert"@.len());
            assert("import"@[0] != "symbol"@[0]);
            assert("import"@.len() != "call"@.len());
            assert("symbol"@.len() != "call"@.len());
            assert(js_rule(module, spec) is Some);
        }
    }
}

} // verus!

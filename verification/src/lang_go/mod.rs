//! The Go backend: `go::import`, `go::package`, `go::symbol`,
//! `go::struct_tag` and `go::call`.

pub mod imports;
pub mod packages;
pub mod symbols;
pub mod struct_tags;
pub mod calls;

use vstd::prelude::*;
use crate::backend::{
    ActionCapability, Capability, LanguageBackend, RuleSpec, unsupported, unsupported_text,
    action_word_spec, advertises, capability_views, descriptions_of, action_notes_of,
};
use crate::error::{Error, Result};
use crate::rules::Rule;
use crate::text::str_eq;

verus! {

/// The backend for the `go` namespace.
#[derive(Debug, Clone, Copy)]
pub struct GoBackend;

/// The modules of the `go` namespace and their actions.
pub open spec fn go_offered() -> Seq<(Seq<char>, Seq<Seq<char>>)> {
    seq![
        ("import"@, seq!["replace"@, "delete"@, "ensure"@]),
        ("package"@, seq!["replace"@]),
        ("symbol"@, seq!["replace"@]),
        ("struct_tag"@, seq!["replace"@]),
        ("call"@, seq!["replace_call"@]),
    ]
}

/// The rule a `go::<module>` match block lowers to.
pub open spec fn go_rule(module: Seq<char>, spec: RuleSpec) -> Option<core::result::Result<Rule, Seq<char>>> {
    match spec {
        RuleSpec::Replace { target, replacement } =>
            if module == "import"@ {
                Some(Ok(Rule::GoImportRename(imports::ImportRename { from: target, to: replacement })))
            } else if module == "package"@ {
                Some(Ok(Rule::GoPackageRename(packages::PackageRename { from: target, to: replacement })))
            } else if module == "symbol"@ {
                Some(Ok(Rule::GoSymbolRename(symbols::SymbolRename { from: target, to: replacement })))
            } else if module == "struct_tag"@ {
                Some(Ok(Rule::GoTagReplace(struct_tags::TagReplace { from: target, to: replacement })))
            } else {
                None
            },
        RuleSpec::Delete { target } =>
            if module == "import"@ {
                Some(Ok(Rule::GoImportDelete(imports::ImportDelete { target })))
            } else {
                None
            },
        RuleSpec::Ensure { target } =>
            if module == "import"@ {
                Some(Ok(Rule::GoImportEnsure(imports::ImportEnsure { target })))
            } else {
                None
            },
        RuleSpec::ReplaceCall { target, template } =>
            if module == "call"@ {
                Some(Ok(Rule::GoCallReplace(calls::CallReplace { function: target, template })))
            } else {
                None
            },
        RuleSpec::SetValue { .. } => None,
        RuleSpec::Insert { .. } => None,
    }
}

fn action(name: &'static str, description: &'static str) -> (r: ActionCapability)
    ensures
        r.name == name,
        r.description == description,
{
    ActionCapability { name, description }
}

impl LanguageBackend for GoBackend {
    open spec fn lang_spec(&self) -> Seq<char> {
        "go"@
    }

    open spec fn summary(&self) -> Seq<char> {
        "Go source rewrites via tree-sitter."@
    }

    open spec fn action_notes(&self) -> Seq<Seq<Seq<char>>> {
        seq![
            seq!["Replace the matched import path with another."@, "Remove the matched import line."@, "Idempotently add the import if it is missing."@],
            seq!["Replace the matched package name with another."@],
            seq!["Rewrite every `identifier`/`type_identifier`/`field_identifier` whose text equals the target."@],
            seq!["Replace the matched key/value pair with the supplied one."@],
            seq!["Replace the entire call with the rendered template. Idempotency requires the template to rename the function."@],
        ]
    }

    open spec fn described(&self) -> Seq<Seq<char>> {
        seq![
            "Rename, delete, or ensure a Go import path. Path matching is exact."@,
            "Rename the `package` clause of a Go file. Only the package name is rewritten; move the import path with a `go::import` rule."@,
            "Rename a top-level identifier and its in-file usages (functions, types, struct fields, method receivers). Best-effort syntactic rename — verify with `--format diff` before `--write`."@,
            "Rewrite a `<key>:\"<value>\"` pair inside any struct field tag. Match string is `<key>:<value>` (no quotes around value). Other pairs in the same tag literal are left untouched."@,
            "Rewrite call expressions whose function text equals the target. Templates use `$1`/`$2` (positional args), `$args` (full arg list), `$func` (matched name), `$$` (literal $)."@,
        ]
    }

    open spec fn offered(&self) -> Seq<(Seq<char>, Seq<Seq<char>>)> {
        go_offered()
    }

    open spec fn rule_for(&self, module: Seq<char>, spec: RuleSpec) -> Option<core::result::Result<Rule, Seq<char>>> {
        go_rule(module, spec)
    }

    fn lang(&self) -> (r: &'static str) {
        "go"
    }

    fn description(&self) -> (r: &'static str) {
        "Go source rewrites via tree-sitter."
    }

    fn capabilities(&self) -> (r: Vec<Capability>) {
        let r = vec![
            Capability {
                module: "import",
                description: "Rename, delete, or ensure a Go import path. Path matching is exact.",
                actions: vec![
                    action("replace", "Replace the matched import path with another."),
                    action("delete", "Remove the matched import line."),
                    action("ensure", "Idempotently add the import if it is missing."),
                ],
            },
            Capability {
                module: "package",
                description: "Rename the `package` clause of a Go file. Only the package name is rewritten; move the import path with a `go::import` rule.",
                actions: vec![
                    action("replace", "Replace the matched package name with another."),
                ],
            },
            Capability {
                module: "symbol",
                description: "Rename a top-level identifier and its in-file usages (functions, types, struct fields, method receivers). Best-effort syntactic rename — verify with `--format diff` before `--write`.",
                actions: vec![
                    action("replace", "Rewrite every `identifier`/`type_identifier`/`field_identifier` whose text equals the target."),
                ],
            },
            Capability {
                module: "struct_tag",
                description: "Rewrite a `<key>:\"<value>\"` pair inside any struct field tag. Match string is `<key>:<value>` (no quotes around value). Other pairs in the same tag literal are left untouched.",
                actions: vec![
                    action("replace", "Replace the matched key/value pair with the supplied one."),
                ],
            },
            Capability {
                module: "call",
                description: "Rewrite call expressions whose function text equals the target. Templates use `$1`/`$2` (positional args), `$args` (full arg list), `$func` (matched name), `$$` (literal $).",
                actions: vec![
                    action("replace_call", "Replace the entire call with the rendered template. Idempotency requires the template to rename the function."),
                ],
            },
        ];
        proof {
            reveal_strlit("import");
            reveal_strlit("package");
            reveal_strlit("symbol");
            reveal_strlit("struct_tag");
            reveal_strlit("call");
            reveal_strlit("delete");
            reveal_strlit("ensure");
            reveal_strlit("replace");
            reveal_strlit("replace_call");
            assert(r@[0].actions@.map_values(|a: ActionCapability| a.name@) =~= seq!["replace"@, "delete"@, "ensure"@]);
            assert(r@[1].actions@.map_values(|a: ActionCapability| a.name@) =~= seq!["replace"@]);
            assert(r@[2].actions@.map_values(|a: ActionCapability| a.name@) =~= seq!["replace"@]);
            assert(r@[3].actions@.map_values(|a: ActionCapability| a.name@) =~= seq!["replace"@]);
            assert(r@[4].actions@.map_values(|a: ActionCapability| a.name@) =~= seq!["replace_call"@]);
            assert(capability_views(r@) =~= go_offered());
            assert(descriptions_of(r@) =~= self.described());
            assert(r@[0].actions@.map_values(|a: ActionCapability| a.description@) =~= self.action_notes()[0]);
            assert(r@[1].actions@.map_values(|a: ActionCapability| a.description@) =~= self.action_notes()[1]);
            assert(r@[2].actions@.map_values(|a: ActionCapability| a.description@) =~= self.action_notes()[2]);
            assert(r@[3].actions@.map_values(|a: ActionCapability| a.description@) =~= self.action_notes()[3]);
            assert(r@[4].actions@.map_values(|a: ActionCapability| a.description@) =~= self.action_notes()[4]);
            assert(action_notes_of(r@) =~= self.action_notes());
        }
        r
    }

    fn build_rule(&self, module: &str, spec: RuleSpec) -> (r: Result<Rule>) {
        proof {
            reveal_strlit("import");
            reveal_strlit("package");
            reveal_strlit("symbol");
            reveal_strlit("struct_tag");
            reveal_strlit("call");
        }
        let is_0 = str_eq(module, "import");
        let is_1 = str_eq(module, "package");
        let is_2 = str_eq(module, "symbol");
        let is_3 = str_eq(module, "struct_tag");
        let is_4 = str_eq(module, "call");
        let supported = match &spec {
            RuleSpec::Replace { .. } => is_0 || is_1 || is_2 || is_3,
            RuleSpec::Delete { .. } => is_0,
            RuleSpec::Ensure { .. } => is_0,
            RuleSpec::ReplaceCall { .. } => is_4,
            RuleSpec::SetValue { .. } => false,
            RuleSpec::Insert { .. } => false,
        };
        if !supported {
            return Err(unsupported("go", module, &spec, &self.capabilities()));
        }
        match spec {
            RuleSpec::Replace { target, replacement } => {
                if is_0 {
                    Ok(Rule::GoImportRename(imports::ImportRename { from: target, to: replacement }))
                } else if is_1 {
                    Ok(Rule::GoPackageRename(packages::PackageRename { from: target, to: replacement }))
                } else if is_2 {
                    Ok(Rule::GoSymbolRename(symbols::SymbolRename { from: target, to: replacement }))
                } else {
                    Ok(Rule::GoTagReplace(struct_tags::TagReplace { from: target, to: replacement }))
                }
            },
            RuleSpec::Delete { target } => Ok(Rule::GoImportDelete(imports::ImportDelete { target })),
            RuleSpec::Ensure { target } => Ok(Rule::GoImportEnsure(imports::ImportEnsure { target })),
            RuleSpec::ReplaceCall { target, template } => Ok(Rule::GoCallReplace(calls::CallReplace { function: target, template })),
            RuleSpec::SetValue { .. } => Err(unsupported("go", module, &spec, &self.capabilities())),
            RuleSpec::Insert { .. } => Err(unsupported("go", module, &spec, &self.capabilities())),
        }
    }

    proof fn lemma_builds_what_it_offers(&self, module: Seq<char>, spec: RuleSpec) {
        reveal_strlit("import");
        reveal_strlit("package");
        reveal_strlit("symbol");
        reveal_strlit("struct_tag");
        reveal_strlit("call");
        reveal_strlit("delete");
        reveal_strlit("ensure");
        reveal_strlit("insert");
        reveal_strlit("replace");
        reveal_strlit("replace_call");
        reveal_strlit("set");
        let caps = go_offered();
        let a = action_word_spec(spec);
        if go_rule(module, spec) is Some {
            let k: int = if module == "import"@ { 0 } else if module == "package"@ { 1 } else if module == "symbol"@ { 2 } else if module == "struct_tag"@ { 3 } else { 4 };
            let j: int = match spec {
                RuleSpec::Replace { .. } => 0,
                RuleSpec::Delete { .. } => 1,
                RuleSpec::Ensure { .. } => 2,
                RuleSpec::ReplaceCall { .. } => 0,
                RuleSpec::SetValue { .. } => 0,
                RuleSpec::Insert { .. } => 0,
            };
            assert(caps[k].1[j] == a);
            assert(caps[k].1.contains(a));
        }
        if advertises(caps, module, a) {
            let k = choose|k: int| 0 <= k < caps.len() && caps[k].0 == module && (#[trigger] caps[k]).1.contains(a);
            let j = choose|j: int| 0 <= j < caps[k].1.len() && caps[k].1[j] == a;
            assert("replace"@.len() != "delete"@.len());
            assert("replace"@.len() != "ensure"@.len());
            assert("replace"@.len() != "replace_call"@.len());
            assert("replace"@.len() != "set"@.len());
            assert("replace"@.len() != "insert"@.len());
            assert("delete"@[0] != "ensure"@[0]);
            assert("delete"@.len() != "replace_call"@.len());
            assert("delete"@.len() != "set"@.len());
            assert("delete"@[0] != "insert"@[0]);
            assert("ensure"@.len() != "replace_call"@.len());
            assert("ensure"@.len() != "set"@.len());
            assert("ensure"@[0] != "insert"@[0]);
            assert("replace_call"@.len() != "set"@.len());
            assert("replace_call"@.len() != "insert"@.len());
            assert("set"@.len() != "insert"@.len());
            assert("import"@.len() != "package"@.len());
            assert("import"@[0] != "symbol"@[0]);
            assert("import"@.len() != "struct_tag"@.len());
            assert("import"@.len() != "call"@.len());
            assert("package"@.len() != "symbol"@.len());
            assert("package"@.len() != "struct_tag"@.len());
            assert("package"@.len() != "call"@.len());
            assert("symbol"@.len() != "struct_tag"@.len());
            assert("symbol"@.len() != "call"@.len());
            assert("struct_tag"@.len() != "call"@.len());
            assert(go_rule(module, spec) is Some);
        }
    }
}

} // verus!

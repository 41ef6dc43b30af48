//! The JSON backend: config-file edits rather than source rewrites.
//!
//! One module, `json::key`, addresses a member by JSON Pointer (RFC 6901,
//! `/enabledPlugins/name@marketplace`) and `set`s, `insert`s or `delete`s
//! it. Edits are made to the text in place, located with tree-sitter-json,
//! so key order, indentation and everything else in the file is kept.
//! `set` and `insert` create what is missing, so scope them with
//! `in "<glob>"` or run them on named files.

pub mod pointer;
pub mod layout;
pub mod key;

use vstd::prelude::*;
use crate::backend::{
    ActionCapability, Capability, LanguageBackend, RuleSpec, unsupported, unsupported_text,
    action_word_spec, advertises, capability_views, descriptions_of, action_notes_of,
};
use crate::error::{Error, Result};
use crate::rules::Rule;
use crate::text::str_eq;
use key::{MemberEdit, Mode, key_problem, check_key};

verus! {

/// The backend for the `json` namespace.
#[derive(Debug, Clone, Copy)]
pub struct JsonBackend;

/// The modules of the `json` namespace and their actions.
pub open spec fn json_offered() -> Seq<(Seq<char>, Seq<Seq<char>>)> {
    seq![("key"@, seq!["delete"@, "set"@, "insert"@])]
}

/// The rule a `json::<module>` match block lowers to, or the message of
/// its malformed pointer or value.
pub open spec fn json_rule(module: Seq<char>, spec: RuleSpec) -> Option<core::result::Result<Rule, Seq<char>>> {
    if module != "key"@ {
        None
    } else {
        match spec {
            RuleSpec::SetValue { target, value } => Some(match key_problem(target@, Some(value@)) {
                Some(m) => Err(m),
                None => Ok(Rule::JsonKeyEdit(MemberEdit { raw_pointer: target, mode: Mode::SetValue { text: value } })),
            }),
            RuleSpec::Insert { target, value } => Some(match key_problem(target@, Some(value@)) {
                Some(m) => Err(m),
                None => Ok(Rule::JsonKeyEdit(MemberEdit { raw_pointer: target, mode: Mode::Insert { text: value } })),
            }),
            RuleSpec::Delete { target } => Some(match key_problem(target@, None) {
                Some(m) => Err(m),
                None => Ok(Rule::JsonKeyEdit(MemberEdit { raw_pointer: target, mode: Mode::Delete })),
            }),
            _ => None,
        }
    }
}

fn action(name: &'static str, description: &'static str) -> (r: ActionCapability)
    ensures
        r.name == name,
        r.description == description,
{
    ActionCapability { name, description }
}

impl LanguageBackend for JsonBackend {
    open spec fn lang_spec(&self) -> Seq<char> {
        "json"@
    }

    open spec fn summary(&self) -> Seq<char> {
        "JSON config edits by JSON Pointer, in place via tree-sitter-json."@
    }

    open spec fn action_notes(&self) -> Seq<Seq<Seq<char>>> {
        seq![
            seq!["Remove the member; a missing one is a no-op."@, "Give the member this value, creating it and missing parent objects, or overwriting a value that differs."@, "Add the member with this value only when it is absent."@],
        ]
    }

    open spec fn described(&self) -> Seq<Seq<char>> {
        seq![
            "Edit an object member addressed by JSON Pointer (`/a/b`, with `~1` for `/` and `~0` for `~`). Values are JSON, compared by meaning; the rest of the file keeps its text."@,
        ]
    }

    open spec fn offered(&self) -> Seq<(Seq<char>, Seq<Seq<char>>)> {
        json_offered()
    }

    open spec fn rule_for(&self, module: Seq<char>, spec: RuleSpec) -> Option<core::result::Result<Rule, Seq<char>>> {
        json_rule(module, spec)
    }

    fn lang(&self) -> (r: &'static str) {
        "json"
    }

    fn description(&self) -> (r: &'static str) {
        "JSON config edits by JSON Pointer, in place via tree-sitter-json."
    }

    fn capabilities(&self) -> (r: Vec<Capability>) {
        let r = vec![
            Capability {
                module: "key",
                description: "Edit an object member addressed by JSON Pointer (`/a/b`, with `~1` for `/` and `~0` for `~`). Values are JSON, compared by meaning; the rest of the file keeps its text.",
                actions: vec![
                    action("delete", "Remove the member; a missing one is a no-op."),
                    action("set", "Give the member this value, creating it and missing parent objects, or overwriting a value that differs."),
                    action("insert", "Add the member with this value only when it is absent."),
                ],
            },
        ];
        proof {
            reveal_strlit("key");
            reveal_strlit("delete");
            reveal_strlit("set");
            reveal_strlit("insert");
            assert(r@[0].actions@.map_values(|a: ActionCapability| a.name@) =~= seq!["delete"@, "set"@, "insert"@]);
            assert(capability_views(r@) =~= json_offered());
            assert(descriptions_of(r@) =~= self.described());
            assert(r@[0].actions@.map_values(|a: ActionCapability| a.description@) =~= self.action_notes()[0]);
            assert(action_notes_of(r@) =~= self.action_notes());
        }
        r
    }

    fn build_rule(&self, module: &str, spec: RuleSpec) -> (r: Result<Rule>) {
        proof {
            reveal_strlit("key");
        }
        let is_key = str_eq(module, "key");
        let supported = match &spec {
            RuleSpec::SetValue { .. } => is_key,
            RuleSpec::Insert { .. } => is_key,
            RuleSpec::Delete { .. } => is_key,
            _ => false,
        };
        if !supported {
            return Err(unsupported("json", module, &spec, &self.capabilities()));
        }
        match spec {
            RuleSpec::SetValue { target, value } => match check_key(target.as_str(), Some(value.as_str())) {
                Ok(()) => Ok(Rule::JsonKeyEdit(MemberEdit { raw_pointer: target, mode: Mode::SetValue { text: value } })),
                Err(e) => Err(e),
            },
            RuleSpec::Insert { target, value } => match check_key(target.as_str(), Some(value.as_str())) {
                Ok(()) => Ok(Rule::JsonKeyEdit(MemberEdit { raw_pointer: target, mode: Mode::Insert { text: value } })),
                Err(e) => Err(e),
            },
            RuleSpec::Delete { target } => match check_key(target.as_str(), None) {
                Ok(()) => Ok(Rule::JsonKeyEdit(MemberEdit { raw_pointer: target, mode: Mode::Delete })),
                Err(e) => Err(e),
            },
            _ => Err(unsupported("json", module, &spec, &self.capabilities())),
        }
    }

    proof fn lemma_builds_what_it_offers(&self, module: Seq<char>, spec: RuleSpec) {
        reveal_strlit("key");
        reveal_strlit("delete");
        reveal_strlit("ensure");
        reveal_strlit("insert");
        reveal_strlit("replace");
        reveal_strlit("replace_call");
        reveal_strlit("set");
        let caps = json_offered();
        let a = action_word_spec(spec);
        if json_rule(module, spec) is Some {
            let j: int = match spec {
                RuleSpec::Delete { .. } => 0,
                RuleSpec::SetValue { .. } => 1,
                _ => 2,
            };
            assert(caps[0].1[j] == a);
            assert(caps[0].1.contains(a));
        }
        if advertises(caps, module, a) {
            let k = choose|k: int| 0 <= k < caps.len() && caps[k].0 == module && (#[trigger] caps[k]).1.contains(a);
            let j = choose|j: int| 0 <= j < caps[k].1.len() && caps[k].1[j] == a;
            assert("replace"@.len() != "delete"@.len());
            assert("replace"@.len() != "set"@.len());
            assert("replace"@.len() != "insert"@.len());
            assert("ensure"@.len() != "set"@.len());
            assert("ensure"@[0] != "delete"@[0]);
            assert("ensure"@[0] != "insert"@[0]);
            assert("replace_call"@.len() != "delete"@.len());
            assert("replace_call"@.len() != "set"@.len());
            assert("replace_call"@.len() != "insert"@.len());
            assert(json_rule(module, spec) is Some);
        }
    }
}

} // verus!

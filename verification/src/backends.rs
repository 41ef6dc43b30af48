//! Every language backend compiled into the library, and the registry
//! that holds them.

use vstd::prelude::*;
use crate::backend::{LanguageBackend, RuleSpec, Capability, BackendRegistry};
use crate::error::Result;
use crate::rules::Rule;
use crate::lang_c::CBackend;
use crate::lang_cpp::CppBackend;
use crate::lang_csharp::CSharpBackend;
use crate::lang_go::GoBackend;
use crate::lang_java::JavaBackend;
use crate::lang_js::JsBackend;
use crate::lang_json::JsonBackend;

verus! {

/// One of the compiled-in language backends.
pub enum Backend {
    C(CBackend),
    Cpp(CppBackend),
    CSharp(CSharpBackend),
    Go(GoBackend),
    Java(JavaBackend),
    Js(JsBackend),
    Json(JsonBackend),
}

impl LanguageBackend for Backend {
    open spec fn lang_spec(&self) -> Seq<char> {
        match self {
            Backend::C(b) => b.lang_spec(),
            Backend::Cpp(b) => b.lang_spec(),
            Backend::CSharp(b) => b.lang_spec(),
            Backend::Go(b) => b.lang_spec(),
            Backend::Java(b) => b.lang_spec(),
            Backend::Js(b) => b.lang_spec(),
            Backend::Json(b) => b.lang_spec(),
        }
    }

    open spec fn action_notes(&self) -> Seq<Seq<Seq<char>>> {
        match self {
            Backend::C(b) => b.action_notes(),
            Backend::Cpp(b) => b.action_notes(),
            Backend::CSharp(b) => b.action_notes(),
            Backend::Go(b) => b.action_notes(),
            Backend::Java(b) => b.action_notes(),
            Backend::Js(b) => b.action_notes(),
            Backend::Json(b) => b.action_notes(),
        }
    }

    open spec fn summary(&self) -> Seq<char> {
        match self {
            Backend::C(b) => b.summary(),
            Backend::Cpp(b) => b.summary(),
            Backend::CSharp(b) => b.summary(),
            Backend::Go(b) => b.summary(),
            Backend::Java(b) => b.summary(),
            Backend::Js(b) => b.summary(),
            Backend::Json(b) => b.summary(),
        }
    }

    open spec fn described(&self) -> Seq<Seq<char>> {
        match self {
            Backend::C(b) => b.described(),
            Backend::Cpp(b) => b.described(),
            Backend::CSharp(b) => b.described(),
            Backend::Go(b) => b.described(),
            Backend::Java(b) => b.described(),
            Backend::Js(b) => b.described(),
            Backend::Json(b) => b.described(),
        }
    }

    open spec fn offered(&self) -> Seq<(Seq<char>, Seq<Seq<char>>)> {
        match self {
            Backend::C(b) => b.offered(),
            Backend::Cpp(b) => b.offered(),
            Backend::CSharp(b) => b.offered(),
            Backend::Go(b) => b.offered(),
            Backend::Java(b) => b.offered(),
            Backend::Js(b) => b.offered(),
            Backend::Json(b) => b.offered(),
        }
    }

    open spec fn rule_for(&self, module: Seq<char>, spec: RuleSpec) -> Option<core::result::Result<Rule, Seq<char>>> {
        match self {
            Backend::C(b) => b.rule_for(module, spec),
            Backend::Cpp(b) => b.rule_for(module, spec),
            Backend::CSharp(b) => b.rule_for(module, spec),
            Backend::Go(b) => b.rule_for(module, spec),
            Backend::Java(b) => b.rule_for(module, spec),
            Backend::Js(b) => b.rule_for(module, spec),
            Backend::Json(b) => b.rule_for(module, spec),
        }
    }

    fn lang(&self) -> (r: &'static str) {
        match self {
            Backend::C(b) => b.lang(),
            Backend::Cpp(b) => b.lang(),
            Backend::CSharp(b) => b.lang(),
            Backend::Go(b) => b.lang(),
            Backend::Java(b) => b.lang(),
            Backend::Js(b) => b.lang(),
            Backend::Json(b) => b.lang(),
        }
    }

    fn description(&self) -> (r: &'static str) {
        match self {
            Backend::C(b) => b.description(),
            Backend::Cpp(b) => b.description(),
            Backend::CSharp(b) => b.description(),
            Backend::Go(b) => b.description(),
            Backend::Java(b) => b.description(),
            Backend::Js(b) => b.description(),
            Backend::Json(b) => b.description(),
        }
    }

    fn capabilities(&self) -> (r: Vec<Capability>) {
        match self {
            Backend::C(b) => b.capabilities(),
            Backend::Cpp(b) => b.capabilities(),
            Backend::CSharp(b) => b.capabilities(),
            Backend::Go(b) => b.capabilities(),
            Backend::Java(b) => b.capabilities(),
            Backend::Js(b) => b.capabilities(),
            Backend::Json(b) => b.capabilities(),
        }
    }

    fn build_rule(&self, module: &str, spec: RuleSpec) -> (r: Result<Rule>) {
        match self {
            Backend::C(b) => b.build_rule(module, spec),
            Backend::Cpp(b) => b.build_rule(module, spec),
            Backend::CSharp(b) => b.build_rule(module, spec),
            Backend::Go(b) => b.build_rule(module, spec),
            Backend::Java(b) => b.build_rule(module, spec),
            Backend::Js(b) => b.build_rule(module, spec),
            Backend::Json(b) => b.build_rule(module, spec),
        }
    }

    proof fn lemma_builds_what_it_offers(&self, module: Seq<char>, spec: RuleSpec) {
        match self {
            Backend::C(b) => b.lemma_builds_what_it_offers(module, spec),
            Backend::Cpp(b) => b.lemma_builds_what_it_offers(module, spec),
            Backend::CSharp(b) => b.lemma_builds_what_it_offers(module, spec),
            Backend::Go(b) => b.lemma_builds_what_it_offers(module, spec),
            Backend::Java(b) => b.lemma_builds_what_it_offers(module, spec),
            Backend::Js(b) => b.lemma_builds_what_it_offers(module, spec),
            Backend::Json(b) => b.lemma_builds_what_it_offers(module, spec),
        }
    }
}

/// The language names of the compiled-in backends, in registration order.
pub open spec fn registered_langs() -> Seq<Seq<char>> {
    seq!["c"@, "cpp"@, "csharp"@, "go"@, "java"@, "js"@, "json"@]
}

/// How many backends [`registry`] registers.
pub const BACKEND_COUNT: usize = 7;

/// A registry holding every compiled-in backend, in alphabetical order
/// of their namespaces.
pub fn registry() -> (r: BackendRegistry)
    ensures
        r.entries() == seq![
            Backend::C(CBackend),
            Backend::Cpp(CppBackend),
            Backend::CSharp(CSharpBackend),
            Backend::Go(GoBackend),
            Backend::Java(JavaBackend),
            Backend::Js(JsBackend),
            Backend::Json(JsonBackend),
        ],
        r.langs() == registered_langs(),
        r.entries().len() == BACKEND_COUNT,
{
    let mut r = BackendRegistry::new();
    r.register(Backend::C(CBackend));
    r.register(Backend::Cpp(CppBackend));
    r.register(Backend::CSharp(CSharpBackend));
    r.register(Backend::Go(GoBackend));
    r.register(Backend::Java(JavaBackend));
    r.register(Backend::Js(JsBackend));
    r.register(Backend::Json(JsonBackend));
    r
}

} // verus!

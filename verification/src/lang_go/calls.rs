//! Rewrite Go call expressions with a template.
//!
//! `match go::call "pkg.Old" { replace_call "pkg.New($2, $1, nil)" }`
//! rewrites every `pkg.Old(...)` call. The callee is matched by exact
//! equality with the text of the call's `function` child, so `pkg.Old`,
//! `Old` and `(*T).Old` are distinct.

use vstd::prelude::*;
use crate::text::{copy_str, push_str, str_views};
use crate::syntax::Grammar;
use crate::calls::{Callee, calls_rewritten, rewrite_calls};
use crate::operation::Operation;
use crate::lang_go::imports::{is_go, is_go_file};

verus! {

pub open spec fn call_kinds() -> Seq<Seq<char>> {
    seq!["call_expression"@]
}

/// The source with every call of `function` replaced by the rendered
/// template.
pub open spec fn rewrite_result(function: Seq<char>, template: Seq<char>, source: Seq<char>) -> Seq<char> {
    calls_rewritten(Grammar::Go, call_kinds(), Callee::FunctionField, function, template, source)
}

/// Rewrite every `call_expression` whose function text is `function`.
pub fn rewrite(function: &str, template: &str, source_code: &str) -> (r: String)
    ensures
        r@ == rewrite_result(function@, template@, source_code@),
{
    let kinds: [&str; 1] = ["call_expression"];
    assert(str_views(kinds@) =~= call_kinds());
    rewrite_calls(Grammar::Go, &kinds, Callee::FunctionField, function, template, source_code)
}

/// Replace calls of a Go function with a rendered template.
#[derive(Debug)]
pub struct CallReplace {
    pub function: String,
    pub template: String,
}

impl Operation for CallReplace {
    open spec fn relevant_spec(&self, path: Seq<char>) -> bool {
        is_go(path)
    }

    open spec fn apply_spec(&self, source: Seq<char>) -> Seq<char> {
        rewrite_result(self.function@, self.template@, source)
    }

    open spec fn prefilter_spec(&self) -> Option<Seq<char>> {
        None
    }

    open spec fn describe_spec(&self) -> Seq<char> {
        "go::call \""@ + self.function@ + "\" -> replace_call \""@ + self.template@ + "\""@
    }

    fn is_file_relevant(&self, path: &str) -> (r: bool) {
        is_go_file(path)
    }

    fn apply(&self, source_code: &str) -> (r: String) {
        rewrite(self.function.as_str(), self.template.as_str(), source_code)
    }

    fn prefilter(&self) -> (r: Option<&str>) {
        None
    }

    fn describe(&self) -> (r: String) {
        let mut s = copy_str("go::call \"");
        push_str(&mut s, self.function.as_str());
        push_str(&mut s, "\" -> replace_call \"");
        push_str(&mut s, self.template.as_str());
        push_str(&mut s, "\"");
        s
    }
}

} // verus!

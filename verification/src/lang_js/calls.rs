//! Rewrite JavaScript call expressions with a template.
//!
//! Matching is exact equality on the text of the call's `function`
//! child, so `api.old` and `old` are distinct.

use vstd::prelude::*;
use crate::text::{copy_str, push_str, str_views};
use crate::syntax::Grammar;
use crate::calls::{Callee, calls_rewritten, rewrite_calls};
use crate::operation::Operation;
use crate::lang_js::{is_js, is_js_file};

verus! {

/// The node kinds that are calls.
pub open spec fn call_kinds() -> Seq<Seq<char>> {
    seq!["call_expression"@]
}

/// The source with every call of `function` replaced by the rendered
/// template.
pub open spec fn rewrite_result(function: Seq<char>, template: Seq<char>, source: Seq<char>) -> Seq<char> {
    calls_rewritten(Grammar::JavaScript, call_kinds(), Callee::FunctionField, function, template, source)
}

/// Rewrite every call of `function` with `template`.
pub fn rewrite(function: &str, template: &str, source_code: &str) -> (r: String)
    ensures
        r@ == rewrite_result(function@, template@, source_code@),
{
    let kinds: [&str; 1] = ["call_expression"];
    assert(str_views(kinds@) =~= call_kinds());
    rewrite_calls(Grammar::JavaScript, &kinds, Callee::FunctionField, function, template, source_code)
}

/// Replace calls of a JS function with a rendered template.
#[derive(Debug)]
pub struct CallReplace {
    pub function: String,
    pub template: String,
}

impl Operation for CallReplace {
    open spec fn relevant_spec(&self, path: Seq<char>) -> bool {
        is_js(path)
    }

    open spec fn apply_spec(&self, source: Seq<char>) -> Seq<char> {
        rewrite_result(self.function@, self.template@, source)
    }

    open spec fn prefilter_spec(&self) -> Option<Seq<char>> {
        Some(self.function@)
    }

    open spec fn describe_spec(&self) -> Seq<char> {
        "js::call \""@ + self.function@ + "\" -> replace_call \""@ + self.template@ + "\""@
    }

    fn is_file_relevant(&self, path: &str) -> (r: bool) {
        is_js_file(path)
    }

    fn apply(&self, source_code: &str) -> (r: String) {
        rewrite(self.function.as_str(), self.template.as_str(), source_code)
    }

    fn prefilter(&self) -> (r: Option<&str>) {
        Some(self.function.as_str())
    }

    fn describe(&self) -> (r: String) {
        let mut s = copy_str("js::call \"");
        push_str(&mut s, self.function.as_str());
        push_str(&mut s, "\" -> replace_call \"");
        push_str(&mut s, self.template.as_str());
        push_str(&mut s, "\"");
        s
    }
}

} // verus!

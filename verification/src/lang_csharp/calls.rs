//! Rewrite C# invocations with a template.
//!
//! Matching is exact equality on the text of the invocation's `function`
//! child. Each argument is an `argument` node, whose text (with any
//! `ref`/`out` modifier) is what `$1` and `$args` stand for.

use vstd::prelude::*;
use crate::text::{copy_str, push_str, str_views};
use crate::syntax::Grammar;
use crate::calls::{Callee, calls_rewritten, rewrite_calls};
use crate::operation::Operation;
use crate::lang_csharp::{is_csharp, is_csharp_file};

verus! {

/// The node kinds that are calls.
pub open spec fn call_kinds() -> Seq<Seq<char>> {
    seq!["invocation_expression"@]
}

/// The source with every call of `function` replaced by the rendered
/// template.
pub open spec fn rewrite_result(function: Seq<char>, template: Seq<char>, source: Seq<char>) -> Seq<char> {
    calls_rewritten(Grammar::CSharp, call_kinds(), Callee::FunctionField, function, template, source)
}

/// Rewrite every call of `function` with `template`.
pub fn rewrite(function: &str, template: &str, source_code: &str) -> (r: String)
    ensures
        r@ == rewrite_result(function@, template@, source_code@),
{
    let kinds: [&str; 1] = ["invocation_expression"];
    assert(str_views(kinds@) =~= call_kinds());
    rewrite_calls(Grammar::CSharp, &kinds, Callee::FunctionField, function, template, source_code)
}

/// Replace invocations of a C# method with a rendered template.
#[derive(Debug)]
pub struct CallReplace {
    pub function: String,
    pub template: String,
}

impl Operation for CallReplace {
    open spec fn relevant_spec(&self, path: Seq<char>) -> bool {
        is_csharp(path)
    }

    open spec fn apply_spec(&self, source: Seq<char>) -> Seq<char> {
        rewrite_result(self.function@, self.template@, source)
    }

    open spec fn prefilter_spec(&self) -> Option<Seq<char>> {
        Some(self.function@)
    }

    open spec fn describe_spec(&self) -> Seq<char> {
        "csharp::call \""@ + self.function@ + "\" -> replace_call \""@ + self.template@ + "\""@
    }

    fn is_file_relevant(&self, path: &str) -> (r: bool) {
        is_csharp_file(path)
    }

    fn apply(&self, source_code: &str) -> (r: String) {
        rewrite(self.function.as_str(), self.template.as_str(), source_code)
    }

    fn prefilter(&self) -> (r: Option<&str>) {
        Some(self.function.as_str())
    }

    fn describe(&self) -> (r: String) {
        let mut s = copy_str("csharp::call \"");
        push_str(&mut s, self.function.as_str());
        push_str(&mut s, "\" -> replace_call \"");
        push_str(&mut s, self.template.as_str());
        push_str(&mut s, "\"");
        s
    }
}

} // verus!

//! Rewrite Java method invocations with a template.
//!
//! The callee is the source from the start of the invocation up to its
//! argument list, trailing whitespace removed, so the receiver is part of
//! the target: `Old.run` and a bare `run` are distinct.

use vstd::prelude::*;
use crate::text::{copy_str, push_str, str_views};
use crate::syntax::Grammar;
use crate::calls::{Callee, calls_rewritten, rewrite_calls};
use crate::operation::Operation;
use crate::lang_java::{is_java, is_java_file};

verus! {

pub open spec fn call_kinds() -> Seq<Seq<char>> {
    seq!["method_invocation"@]
}

/// The source with every call of `function` replaced by the rendered
/// template.
pub open spec fn rewrite_result(function: Seq<char>, template: Seq<char>, source: Seq<char>) -> Seq<char> {
    calls_rewritten(Grammar::Java, call_kinds(), Callee::BeforeArguments, function, template, source)
}

/// Rewrite every method invocation whose callee is `function`.
pub fn rewrite(function: &str, template: &str, source_code: &str) -> (r: String)
    ensures
        r@ == rewrite_result(function@, template@, source_code@),
{
    let kinds: [&str; 1] = ["method_invocation"];
    assert(str_views(kinds@) =~= call_kinds());
    rewrite_calls(Grammar::Java, &kinds, Callee::BeforeArguments, function, template, source_code)
}

/// Replace invocations of a Java method with a rendered template.
#[derive(Debug)]
pub struct CallReplace {
    pub function: String,
    pub template: String,
}

impl Operation for CallReplace {
    open spec fn relevant_spec(&self, path: Seq<char>) -> bool {
        is_java(path)
    }

    open spec fn apply_spec(&self, source: Seq<char>) -> Seq<char> {
        rewrite_result(self.function@, self.template@, source)
    }

    open spec fn prefilter_spec(&self) -> Option<Seq<char>> {
        Some(self.function@)
    }

    open spec fn describe_spec(&self) -> Seq<char> {
        "java::call \""@ + self.function@ + "\" -> replace_call \""@ + self.template@ + "\""@
    }

    fn is_file_relevant(&self, path: &str) -> (r: bool) {
        is_java_file(path)
    }

    fn apply(&self, source_code: &str) -> (r: String) {
        rewrite(self.function.as_str(), self.template.as_str(), source_code)
    }

    fn prefilter(&self) -> (r: Option<&str>) {
        Some(self.function.as_str())
    }

    fn describe(&self) -> (r: String) {
        let mut s = copy_str("java::call \"");
        push_str(&mut s, self.function.as_str());
        push_str(&mut s, "\" -> replace_call \"");
        push_str(&mut s, self.template.as_str());
        push_str(&mut s, "\"");
        s
    }
}

} // verus!

//! Rename a C++ `namespace` declaration.
//!
//! A `namespace_definition` names itself in its `name` field, either a
//! `namespace_identifier` or a nested `a::b` specifier; an anonymous
//! namespace has no name and never matches. Matching is exact on the
//! declared name. Only the declaration is rewritten: qualified uses are
//! a `cpp::symbol` job.

use vstd::prelude::*;
use crate::text::{copy_str, push_str, str_views};
use crate::syntax::Grammar;
use crate::rewrite::{renamed_in_field, rename_in_field, gather, field_rename_step, field_rename_of, law_field_rename_edits};
use crate::syntax::{parsed_syntax, text_is, field_child};
use crate::text::utf8;
use crate::edits::rewritten;
use crate::operation::Operation;
use crate::lang_cpp::{is_cpp, is_cpp_file};

verus! {

/// The declaration kinds whose `name` is renamed.
pub open spec fn declaration_kinds() -> Seq<Seq<char>> {
    seq!["namespace_definition"@]
}

/// The source with every declaration named `from` renamed to `to`.
pub open spec fn rename_result(from: Seq<char>, to: Seq<char>, source: Seq<char>) -> Seq<char> {
    renamed_in_field(Grammar::Cpp, declaration_kinds(), "name"@, from, to, source)
}

/// Rename every declaration whose `name` is exactly `from`.
pub fn rename(from: &str, to: &str, source_code: &str) -> (r: String)
    ensures
        r@ == rename_result(from@, to@, source_code@),
{
    let kinds: [&str; 1] = ["namespace_definition"];
    assert(str_views(kinds@) =~= declaration_kinds());
    rename_in_field(Grammar::Cpp, &kinds, "name", from, to, source_code)
}

/// Rename a C++ namespace declaration.
#[derive(Debug)]
pub struct NamespaceRename {
    pub from: String,
    pub to: String,
}

impl Operation for NamespaceRename {
    open spec fn relevant_spec(&self, path: Seq<char>) -> bool {
        is_cpp(path)
    }

    open spec fn apply_spec(&self, source: Seq<char>) -> Seq<char> {
        rename_result(self.from@, self.to@, source)
    }

    open spec fn prefilter_spec(&self) -> Option<Seq<char>> {
        Some(self.from@)
    }

    open spec fn describe_spec(&self) -> Seq<char> {
        "cpp::namespace \""@ + self.from@ + "\" -> \""@ + self.to@ + "\""@
    }

    fn is_file_relevant(&self, path: &str) -> (r: bool) {
        is_cpp_file(path)
    }

    fn apply(&self, source_code: &str) -> (r: String) {
        rename(self.from.as_str(), self.to.as_str(), source_code)
    }

    fn prefilter(&self) -> (r: Option<&str>) {
        Some(self.from.as_str())
    }

    fn describe(&self) -> (r: String) {
        let mut s = copy_str("cpp::namespace \"");
        push_str(&mut s, self.from.as_str());
        push_str(&mut s, "\" -> \"");
        push_str(&mut s, self.to.as_str());
        push_str(&mut s, "\"");
        s
    }
}

/// A namespace rename replaces, with `to`, exactly the `name` of each
/// a `namespace_definition` whose name reads `from`, and edits nothing else.
pub proof fn law_namespace_rename_edits(from: Seq<char>, to: Seq<char>, source: Seq<char>)
    ensures
        parsed_syntax(Grammar::Cpp, source) matches Some(ns) ==> {
            let src = utf8(source);
            let es = gather(ns.len() as int, field_rename_step(src, ns, declaration_kinds(), "name"@, utf8(from), utf8(to)));
            &&& rename_result(from, to, source) == rewritten(source, es)
            &&& forall|i: int, c: int| #![trigger field_child(ns, i, "name"@), ns[c]]
                0 <= i < ns.len() && seq!["namespace_definition"@].contains(ns[i].kind) && field_child(ns, i, "name"@) == Some(c)
                && text_is(src, ns[c], utf8(from)) ==> es.contains((ns[c].start, ns[c].end, utf8(to)))
            &&& forall|k: int| 0 <= k < es.len() ==> field_rename_of(src, ns, seq!["namespace_definition"@], "name"@, utf8(from), utf8(to), #[trigger] es[k])
        },
{
    if let Some(ns) = parsed_syntax(Grammar::Cpp, source) {
        assert(declaration_kinds() =~= seq!["namespace_definition"@]);
        law_field_rename_edits(utf8(source), ns, declaration_kinds(), "name"@, utf8(from), utf8(to));
    }
}

} // verus!

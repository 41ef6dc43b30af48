//! Rename a C# `namespace` declaration, block-scoped or file-scoped.
//!
//! Both declaration forms carry the declared name in their `name`
//! field; matching is exact on that name.

use vstd::prelude::*;
use crate::text::{copy_str, push_str, str_views};
use crate::syntax::Grammar;
use crate::rewrite::{renamed_in_field, rename_in_field, gather, field_rename_step, field_rename_of, law_field_rename_edits};
use crate::syntax::{parsed_syntax, text_is, field_child};
use crate::text::utf8;
use crate::edits::rewritten;
use crate::operation::Operation;
use crate::lang_csharp::{is_csharp, is_csharp_file};

verus! {

/// The declaration kinds whose `name` is renamed.
pub open spec fn declaration_kinds() -> Seq<Seq<char>> {
    seq!["namespace_declaration"@, "file_scoped_namespace_declaration"@]
}

/// The source with every declaration named `from` renamed to `to`.
pub open spec fn rename_result(from: Seq<char>, to: Seq<char>, source: Seq<char>) -> Seq<char> {
    renamed_in_field(Grammar::CSharp, declaration_kinds(), "name"@, from, to, source)
}

/// Rename every declaration whose `name` is exactly `from`.
pub fn rename(from: &str, to: &str, source_code: &str) -> (r: String)
    ensures
        r@ == rename_result(from@, to@, source_code@),
{
    let kinds: [&str; 2] = ["namespace_declaration", "file_scoped_namespace_declaration"];
    assert(str_views(kinds@) =~= declaration_kinds());
    rename_in_field(Grammar::CSharp, &kinds, "name", from, to, source_code)
}

/// Rename a C# namespace declaration.
#[derive(Debug)]
pub struct NamespaceRename {
    pub from: String,
    pub to: String,
}

impl Operation for NamespaceRename {
    open spec fn relevant_spec(&self, path: Seq<char>) -> bool {
        is_csharp(path)
    }

    open spec fn apply_spec(&self, source: Seq<char>) -> Seq<char> {
        rename_result(self.from@, self.to@, source)
    }

    open spec fn prefilter_spec(&self) -> Option<Seq<char>> {
        Some(self.from@)
    }

    open spec fn describe_spec(&self) -> Seq<char> {
        "csharp::namespace \""@ + self.from@ + "\" -> \""@ + self.to@ + "\""@
    }

    fn is_file_relevant(&self, path: &str) -> (r: bool) {
        is_csharp_file(path)
    }

    fn apply(&self, source_code: &str) -> (r: String) {
        rename(self.from.as_str(), self.to.as_str(), source_code)
    }

    fn prefilter(&self) -> (r: Option<&str>) {
        Some(self.from.as_str())
    }

    fn describe(&self) -> (r: String) {
        let mut s = copy_str("csharp::namespace \"");
        push_str(&mut s, self.from.as_str());
        push_str(&mut s, "\" -> \"");
        push_str(&mut s, self.to.as_str());
        push_str(&mut s, "\"");
        s
    }
}

/// A namespace rename replaces, with `to`, exactly the `name` of each
/// a `namespace_declaration` or `file_scoped_namespace_declaration` whose name reads `from`, and edits nothing else.
pub proof fn law_namespace_rename_edits(from: Seq<char>, to: Seq<char>, source: Seq<char>)
    ensures
        parsed_syntax(Grammar::CSharp, source) matches Some(ns) ==> {
            let src = utf8(source);
            let es = gather(ns.len() as int, field_rename_step(src, ns, declaration_kinds(), "name"@, utf8(from), utf8(to)));
            &&& rename_result(from, to, source) == rewritten(source, es)
            &&& forall|i: int, c: int| #![trigger field_child(ns, i, "name"@), ns[c]]
                0 <= i < ns.len() && seq!["namespace_declaration"@, "file_scoped_namespace_declaration"@].contains(ns[i].kind) && field_child(ns, i, "name"@) == Some(c)
                && text_is(src, ns[c], utf8(from)) ==> es.contains((ns[c].start, ns[c].end, utf8(to)))
            &&& forall|k: int| 0 <= k < es.len() ==> field_rename_of(src, ns, seq!["namespace_declaration"@, "file_scoped_namespace_declaration"@], "name"@, utf8(from), utf8(to), #[trigger] es[k])
        },
{
    if let Some(ns) = parsed_syntax(Grammar::CSharp, source) {
        assert(declaration_kinds() =~= seq!["namespace_declaration"@, "file_scoped_namespace_declaration"@]);
        law_field_rename_edits(utf8(source), ns, declaration_kinds(), "name"@, utf8(from), utf8(to));
    }
}

} // verus!

//! Symbol rename for C++.
//!
//! Rewrites `identifier`, `type_identifier`, `field_identifier` and
//! `namespace_identifier` nodes whose text equals the target, so a
//! qualified use such as `foo::thing` is covered as well. The rename is
//! syntactic: scopes are not analysed.

use vstd::prelude::*;
use crate::text::{copy_str, push_str, str_views};
use crate::syntax::Grammar;
use crate::rewrite::{renamed_by_kind, rename_by_kind, kind_rename_edits, law_kind_rename_edits};
use crate::syntax::{parsed_syntax, text_is};
use crate::text::utf8;
use crate::edits::rewritten;
use crate::operation::Operation;
use crate::lang_cpp::{is_cpp, is_cpp_file};

verus! {

/// The node kinds the rename rewrites.
pub open spec fn rename_kinds() -> Seq<Seq<char>> {
    seq!["identifier"@, "type_identifier"@, "field_identifier"@, "namespace_identifier"@]
}

/// The source with every node of those kinds spelled `from` renamed to `to`.
pub open spec fn rename_result(from: Seq<char>, to: Seq<char>, source: Seq<char>) -> Seq<char> {
    renamed_by_kind(Grammar::Cpp, rename_kinds(), from, to, source)
}

/// Rename every identifier-kind node whose text is `from`.
pub fn rename(from: &str, to: &str, source_code: &str) -> (r: String)
    ensures
        r@ == rename_result(from@, to@, source_code@),
{
    let kinds: [&str; 4] = ["identifier", "type_identifier", "field_identifier", "namespace_identifier"];
    assert(str_views(kinds@) =~= rename_kinds());
    rename_by_kind(Grammar::Cpp, &kinds, from, to, source_code)
}

/// Rename a C++ identifier and its in-file usages.
#[derive(Debug)]
pub struct SymbolRename {
    pub from: String,
    pub to: String,
}

impl Operation for SymbolRename {
    open spec fn relevant_spec(&self, path: Seq<char>) -> bool {
        is_cpp(path)
    }

    open spec fn apply_spec(&self, source: Seq<char>) -> Seq<char> {
        rename_result(self.from@, self.to@, source)
    }

    open spec fn prefilter_spec(&self) -> Option<Seq<char>> {
        Some(self.from@)
    }

    open spec fn describe_spec(&self) -> Seq<char> {
        "cpp::symbol \""@ + self.from@ + "\" -> \""@ + self.to@ + "\""@
    }

    fn is_file_relevant(&self, path: &str) -> (r: bool) {
        is_cpp_file(path)
    }

    fn apply(&self, source_code: &str) -> (r: String) {
        rename(self.from.as_str(), self.to.as_str(), source_code)
    }

    fn prefilter(&self) -> (r: Option<&str>) {
        Some(self.from.as_str())
    }

    fn describe(&self) -> (r: String) {
        let mut s = copy_str("cpp::symbol \"");
        push_str(&mut s, self.from.as_str());
        push_str(&mut s, "\" -> \"");
        push_str(&mut s, self.to.as_str());
        push_str(&mut s, "\"");
        s
    }
}

/// A C++ symbol rename replaces the whole span of every `identifier`, `type_identifier`, `field_identifier`, `namespace_identifier`
/// node whose text is `from` with `to`, and edits nothing else.
pub proof fn law_symbol_rename_edits(from: Seq<char>, to: Seq<char>, source: Seq<char>)
    ensures
        parsed_syntax(Grammar::Cpp, source) matches Some(ns) ==> {
            let src = utf8(source);
            let es = kind_rename_edits(src, ns, rename_kinds(), utf8(from), utf8(to));
            &&& rename_result(from, to, source) == rewritten(source, es)
            &&& forall|i: int| 0 <= i < ns.len() && seq!["identifier"@, "type_identifier"@, "field_identifier"@, "namespace_identifier"@].contains(#[trigger] ns[i].kind)
                && text_is(src, ns[i], utf8(from)) ==> es.contains((ns[i].start, ns[i].end, utf8(to)))
            &&& forall|k: int| 0 <= k < es.len() ==> exists|i: int| 0 <= i < ns.len()
                && seq!["identifier"@, "type_identifier"@, "field_identifier"@, "namespace_identifier"@].contains(ns[i].kind) && text_is(src, ns[i], utf8(from))
                && #[trigger] es[k] == (ns[i].start, ns[i].end, utf8(to))
        },
{
    if let Some(ns) = parsed_syntax(Grammar::Cpp, source) {
        assert(rename_kinds() =~= seq!["identifier"@, "type_identifier"@, "field_identifier"@, "namespace_identifier"@]);
        law_kind_rename_edits(utf8(source), ns, rename_kinds(), utf8(from), utf8(to));
    }
}

} // verus!

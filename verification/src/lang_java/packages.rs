//! Rename a Java `package` declaration.
//!
//! Only the first name equal to the target, among the (scoped)
//! identifiers of the package declarations at the top of the file, is
//! rewritten.

use vstd::prelude::*;
use crate::text::{utf8, copy_str, push_str, bytes_of};
use crate::syntax::{
    Grammar, NodeView, SyntaxNode, parsed_syntax, parse_syntax, views, named_children,
    named_children_of, kind_is, text_is, node_text_is, idx_is,
};
use crate::edits::{Edit, edit_views, rewritten, rewrite_source};
use crate::operation::Operation;
use crate::lang_java::{is_java, is_java_file};

verus! {

/// The first of the nodes `cs` that is a (scoped) identifier spelled
/// `from`.
pub open spec fn first_name_match(src: Seq<u8>, ns: Seq<NodeView>, cs: Seq<int>, from: Seq<u8>) -> Option<int>
    decreases cs.len(),
{
    if cs.len() == 0 {
        None
    } else {
        let k = cs[0];
        if 0 <= k < ns.len() && (ns[k].kind == "scoped_identifier"@ || ns[k].kind == "identifier"@)
            && text_is(src, ns[k], from) {
            Some(k)
        } else {
            first_name_match(src, ns, cs.drop_first(), from)
        }
    }
}

/// The first matching name inside the package declarations among `cs`.
pub open spec fn first_package_name(src: Seq<u8>, ns: Seq<NodeView>, cs: Seq<int>, from: Seq<u8>) -> Option<int>
    decreases cs.len(),
{
    if cs.len() == 0 {
        None
    } else {
        let c = cs[0];
        let here = if 0 <= c < ns.len() && ns[c].kind == "package_declaration"@ {
            first_name_match(src, ns, named_children(ns, c), from)
        } else {
            None
        };
        match here {
            Some(k) => Some(k),
            None => first_package_name(src, ns, cs.drop_first(), from),
        }
    }
}

proof fn lemma_first_name_match(src: Seq<u8>, ns: Seq<NodeView>, cs: Seq<int>, from: Seq<u8>)
    ensures
        first_name_match(src, ns, cs, from) matches Some(k) ==> cs.contains(k) && 0 <= k < ns.len()
            && (ns[k].kind == "scoped_identifier"@ || ns[k].kind == "identifier"@) && text_is(src, ns[k], from),
    decreases cs.len(),
{
    if cs.len() > 0 {
        lemma_first_name_match(src, ns, cs.drop_first(), from);
        if let Some(k) = first_name_match(src, ns, cs.drop_first(), from) {
            let a = choose|a: int| 0 <= a < cs.drop_first().len() && cs.drop_first()[a] == k;
            assert(cs[a + 1] == k);
        }
        assert(cs[0] == cs[0]);
    }
}

/// Node `k` is the (scoped) name, reading `from`, of a package
/// declaration among the nodes `cs`.
pub open spec fn package_name_among(src: Seq<u8>, ns: Seq<NodeView>, cs: Seq<int>, from: Seq<u8>, k: int) -> bool {
    exists|c: int| #![trigger ns[c]] cs.contains(c) && 0 <= c < ns.len() && ns[c].kind == "package_declaration"@
        && named_children(ns, c).contains(k) && 0 <= k < ns.len()
        && (ns[k].kind == "scoped_identifier"@ || ns[k].kind == "identifier"@) && text_is(src, ns[k], from)
}

proof fn lemma_first_package_name(src: Seq<u8>, ns: Seq<NodeView>, cs: Seq<int>, from: Seq<u8>)
    ensures
        first_package_name(src, ns, cs, from) matches Some(k) ==> package_name_among(src, ns, cs, from, k),
    decreases cs.len(),
{
    if cs.len() > 0 {
        let c = cs[0];
        lemma_first_package_name(src, ns, cs.drop_first(), from);
        if 0 <= c < ns.len() && ns[c].kind == "package_declaration"@ {
            lemma_first_name_match(src, ns, named_children(ns, c), from);
        }
        if let Some(k) = first_package_name(src, ns, cs, from) {
            if 0 <= c < ns.len() && ns[c].kind == "package_declaration"@ && first_name_match(src, ns, named_children(ns, c), from) is Some {
                assert(cs.contains(c) && ns[c] == ns[c]);
            } else {
                assert(package_name_among(src, ns, cs.drop_first(), from, k));
                let d = choose|d: int| #![trigger ns[d]] cs.drop_first().contains(d) && 0 <= d < ns.len() && ns[d].kind == "package_declaration"@
                    && named_children(ns, d).contains(k) && 0 <= k < ns.len()
                    && (ns[k].kind == "scoped_identifier"@ || ns[k].kind == "identifier"@) && text_is(src, ns[k], from);
                let a = choose|a: int| 0 <= a < cs.drop_first().len() && cs.drop_first()[a] == d;
                assert(cs[a + 1] == d && ns[d] == ns[d]);
            }
        }
    }
}

/// A package rename changes at most one name: the result is the source
/// itself, or the source with one name of the file's package declaration
/// that reads `from` (and only that name's span) replaced by `to`.
pub proof fn law_package_rename_touches_only_the_name(from: Seq<char>, to: Seq<char>, source: Seq<char>)
    ensures
        parsed_syntax(Grammar::Java, source) matches Some(ns) ==> {
            ||| rename_result(from, to, source) == source
            ||| exists|k: int| #![trigger ns[k]] ns.len() > 0
                && package_name_among(utf8(source), ns, named_children(ns, 0), utf8(from), k)
                && rename_result(from, to, source) == rewritten(source, seq![(ns[k].start, ns[k].end, utf8(to))])
        },
{
    if let Some(ns) = parsed_syntax(Grammar::Java, source) {
        if ns.len() > 0 {
            lemma_first_package_name(utf8(source), ns, named_children(ns, 0), utf8(from));
            if let Some(k) = first_package_name(utf8(source), ns, named_children(ns, 0), utf8(from)) {
                assert(ns[k] == ns[k]);
            }
        }
    }
}

/// The source with the first package name spelled `from` replaced by `to`.
pub open spec fn rename_result(from: Seq<char>, to: Seq<char>, source: Seq<char>) -> Seq<char> {
    match parsed_syntax(Grammar::Java, source) {
        Some(ns) => {
            let src = utf8(source);
            if ns.len() == 0 {
                source
            } else {
                match first_package_name(src, ns, named_children(ns, 0), utf8(from)) {
                    Some(k) => rewritten(source, seq![(ns[k].start, ns[k].end, utf8(to))]),
                    None => source,
                }
            }
        },
        None => source,
    }
}

/// Exec form of [`first_name_match`] over the named children of `c`.
fn find_name_match(src: &[u8], nodes: &Vec<SyntaxNode>, c: usize, from: &[u8]) -> (r: Option<usize>)
    requires
        c < nodes@.len(),
    ensures
        idx_is(r, first_name_match(src@, views(nodes@), named_children(views(nodes@), c as int), from@), nodes@.len() as int),
{
    let ghost ns = views(nodes@);
    let cs = named_children_of(nodes, c);
    let ghost cv = cs@.map_values(|k: usize| k as int);
    let mut j: usize = 0;
    assert(cv.skip(0) =~= cv);
    while j < cs.len()
        invariant
            ns == views(nodes@),
            cv == cs@.map_values(|k: usize| k as int),
            cv == named_children(ns, c as int),
            j <= cs@.len(),
            forall|q: int| 0 <= q < cs@.len() ==> c < #[trigger] cs@[q] < nodes@.len(),
            first_name_match(src@, ns, cv, from@) == first_name_match(src@, ns, cv.skip(j as int), from@),
        decreases cs@.len() - j,
    {
        let k = cs[j];
        assert(cv.skip(j as int)[0] == k);
        assert(cv.skip(j as int).drop_first() =~= cv.skip(j + 1));
        assert(ns[k as int] == nodes@[k as int]@);
        if (kind_is(nodes, k, "scoped_identifier") || kind_is(nodes, k, "identifier"))
            && node_text_is(src, &nodes[k], from) {
            return Some(k);
        }
        j = j + 1;
    }
    None
}

/// Rename the package declaration `package from;` to `package to;`.
pub fn rename(from: &str, to: &str, source_code: &str) -> (r: String)
    ensures
        r@ == rename_result(from@, to@, source_code@),
{
    let nodes = match parse_syntax(Grammar::Java, source_code) {
        Some(n) => n,
        None => return copy_str(source_code),
    };
    if nodes.len() == 0 {
        return copy_str(source_code);
    }
    let src = source_code.as_bytes();
    let target = from.as_bytes();
    let ghost ns = views(nodes@);
    let cs = named_children_of(&nodes, 0);
    let ghost cv = cs@.map_values(|k: usize| k as int);
    let mut j: usize = 0;
    assert(cv.skip(0) =~= cv);
    while j < cs.len()
        invariant
            ns == views(nodes@),
            parsed_syntax(Grammar::Java, source_code@) == Some(ns),
            src@ == utf8(source_code@),
            target@ == utf8(from@),
            cv == cs@.map_values(|k: usize| k as int),
            cv == named_children(ns, 0),
            j <= cs@.len(),
            forall|q: int| 0 <= q < cs@.len() ==> 0 < #[trigger] cs@[q] < nodes@.len(),
            first_package_name(src@, ns, cv, target@) == first_package_name(src@, ns, cv.skip(j as int), target@),
        decreases cs@.len() - j,
    {
        let c = cs[j];
        assert(cv.skip(j as int)[0] == c);
        assert(cv.skip(j as int).drop_first() =~= cv.skip(j + 1));
        assert(ns[c as int] == nodes@[c as int]@);
        if kind_is(&nodes, c, "package_declaration") {
            match find_name_match(src, &nodes, c, target) {
                Some(k) => {
                    assert(ns[k as int] == nodes@[k as int]@);
                    let mut edits: Vec<Edit> = Vec::new();
                    edits.push(Edit { start: nodes[k].start, end: nodes[k].end, text: bytes_of(to) });
                    assert(edit_views(edits@) =~= seq![(ns[k as int].start, ns[k as int].end, utf8(to@))]);
                    return rewrite_source(source_code, &edits);
                },
                None => {},
            }
        }
        j = j + 1;
    }
    copy_str(source_code)
}

/// Rename a Java package declaration.
#[derive(Debug)]
pub struct PackageRename {
    pub from: String,
    pub to: String,
}

impl Operation for PackageRename {
    open spec fn relevant_spec(&self, path: Seq<char>) -> bool {
        is_java(path)
    }

    open spec fn apply_spec(&self, source: Seq<char>) -> Seq<char> {
        rename_result(self.from@, self.to@, source)
    }

    open spec fn prefilter_spec(&self) -> Option<Seq<char>> {
        None
    }

    open spec fn describe_spec(&self) -> Seq<char> {
        "java::package \""@ + self.from@ + "\" -> \""@ + self.to@ + "\""@
    }

    fn is_file_relevant(&self, path: &str) -> (r: bool) {
        is_java_file(path)
    }

    fn apply(&self, source_code: &str) -> (r: String) {
        rename(self.from.as_str(), self.to.as_str(), source_code)
    }

    fn prefilter(&self) -> (r: Option<&str>) {
        None
    }

    fn describe(&self) -> (r: String) {
        let mut s = copy_str("java::package \"");
        push_str(&mut s, self.from.as_str());
        push_str(&mut s, "\" -> \"");
        push_str(&mut s, self.to.as_str());
        push_str(&mut s, "\"");
        s
    }
}

} // verus!

//! Rename a Go `package` clause.
//!
//! A `package_clause` holds a `package_identifier` with the package name.
//! Only that identifier is rewritten: qualifiers such as `oldpkg.Run()`
//! elsewhere in the file are other nodes.

use vstd::prelude::*;
use crate::text::{utf8, copy_str, push_str, bytes_of};
use crate::syntax::{
    Grammar, NodeView, SyntaxNode, parsed_syntax, parse_syntax, views, named_children,
    named_children_of, kind_is, text_is, node_text_is,
};
use crate::edits::{Edit, edit_views, rewritten, rewrite_source, copy_bytes};
use crate::rewrite::{gather, lemma_gather_from, lemma_gather_holds};
use crate::operation::Operation;
use crate::lang_go::imports::{is_go, is_go_file};

verus! {

/// The renames among the nodes `cs`: those that are package identifiers
/// spelled `from`.
pub open spec fn identifier_edits(src: Seq<u8>, ns: Seq<NodeView>, cs: Seq<int>, from: Seq<u8>, to: Seq<u8>) -> Seq<(int, int, Seq<u8>)>
    decreases cs.len(),
{
    if cs.len() == 0 {
        Seq::empty()
    } else {
        let rest = identifier_edits(src, ns, cs.drop_last(), from, to);
        let k = cs.last();
        if 0 <= k < ns.len() && ns[k].kind == "package_identifier"@ && text_is(src, ns[k], from) {
            rest.push((ns[k].start, ns[k].end, to))
        } else {
            rest
        }
    }
}

pub open spec fn package_at(src: Seq<u8>, ns: Seq<NodeView>, from: Seq<u8>, to: Seq<u8>, i: int) -> Seq<(int, int, Seq<u8>)> {
    if 0 <= i < ns.len() && ns[i].kind == "package_clause"@ {
        identifier_edits(src, ns, named_children(ns, i), from, to)
    } else {
        Seq::empty()
    }
}

pub open spec fn package_step(src: Seq<u8>, ns: Seq<NodeView>, from: Seq<u8>, to: Seq<u8>) -> spec_fn(int) -> Seq<(int, int, Seq<u8>)> {
    |i: int| package_at(src, ns, from, to, i)
}

/// The source with the package name `from` in every package clause
/// replaced by `to`.
pub open spec fn rename_result(from: Seq<char>, to: Seq<char>, source: Seq<char>) -> Seq<char> {
    match parsed_syntax(Grammar::Go, source) {
        Some(ns) => rewritten(source, gather(ns.len() as int, package_step(utf8(source), ns, utf8(from), utf8(to)))),
        None => source,
    }
}

/// `e` renames a package name: its span is exactly a
/// `package_identifier` among the named children of a `package_clause`,
/// that identifier reads `from`, and it writes `to`.
pub open spec fn renames_the_package(src: Seq<u8>, ns: Seq<NodeView>, from: Seq<u8>, to: Seq<u8>, e: (int, int, Seq<u8>)) -> bool {
    exists|i: int, k: int| #![trigger ns[i], ns[k]]
        0 <= i < ns.len() && ns[i].kind == "package_clause"@ && named_children(ns, i).contains(k)
        && 0 <= k < ns.len() && ns[k].kind == "package_identifier"@ && text_is(src, ns[k], from)
        && e.0 == ns[k].start && e.1 == ns[k].end && e.2 == to
}

/// `e` renames one of the package identifiers among `cs` that read
/// `from`.
pub open spec fn renames_identifier_among(src: Seq<u8>, ns: Seq<NodeView>, cs: Seq<int>, from: Seq<u8>, to: Seq<u8>, e: (int, int, Seq<u8>)) -> bool {
    exists|k: int| #![trigger ns[k]] cs.contains(k) && 0 <= k < ns.len() && ns[k].kind == "package_identifier"@
        && text_is(src, ns[k], from) && e.0 == ns[k].start && e.1 == ns[k].end && e.2 == to
}

proof fn lemma_identifier_edits(src: Seq<u8>, ns: Seq<NodeView>, cs: Seq<int>, from: Seq<u8>, to: Seq<u8>)
    ensures
        forall|m: int| 0 <= m < identifier_edits(src, ns, cs, from, to).len()
            ==> renames_identifier_among(src, ns, cs, from, to, #[trigger] identifier_edits(src, ns, cs, from, to)[m]),
        forall|k: int| cs.contains(k) && 0 <= k < ns.len() && ns[k].kind == "package_identifier"@ && text_is(src, #[trigger] ns[k], from)
            ==> identifier_edits(src, ns, cs, from, to).contains((ns[k].start, ns[k].end, to)),
    decreases cs.len(),
{
    if cs.len() > 0 {
        let init = cs.drop_last();
        lemma_identifier_edits(src, ns, init, from, to);
        let rest = identifier_edits(src, ns, init, from, to);
        let all = identifier_edits(src, ns, cs, from, to);
        let last = cs.last();
        let hit = 0 <= last < ns.len() && ns[last].kind == "package_identifier"@ && text_is(src, ns[last], from);
        assert(all == if hit { rest.push((ns[last].start, ns[last].end, to)) } else { rest });
        assert forall|m: int| 0 <= m < all.len() implies renames_identifier_among(src, ns, cs, from, to, #[trigger] all[m]) by {
            if m < rest.len() {
                assert(all[m] == rest[m]);
                assert(renames_identifier_among(src, ns, init, from, to, rest[m]));
                let k = choose|k: int| #![trigger ns[k]] init.contains(k) && 0 <= k < ns.len() && ns[k].kind == "package_identifier"@
                    && text_is(src, ns[k], from) && rest[m].0 == ns[k].start && rest[m].1 == ns[k].end && rest[m].2 == to;
                let a = choose|a: int| 0 <= a < init.len() && init[a] == k;
                assert(cs[a] == k);
                assert(ns[k] == ns[k]);
            } else {
                assert(cs[cs.len() - 1] == last);
                assert(ns[last] == ns[last]);
            }
        }
        assert forall|k: int| cs.contains(k) && 0 <= k < ns.len() && ns[k].kind == "package_identifier"@ && text_is(src, #[trigger] ns[k], from)
            implies all.contains((ns[k].start, ns[k].end, to)) by {
            let a = choose|a: int| 0 <= a < cs.len() && cs[a] == k;
            if a < cs.len() - 1 {
                assert(init[a] == k);
                assert(rest.contains((ns[k].start, ns[k].end, to)));
                let m = choose|m: int| 0 <= m < rest.len() && rest[m] == (ns[k].start, ns[k].end, to);
                assert(all[m] == rest[m]);
            } else {
                assert(all[all.len() - 1] == (ns[k].start, ns[k].end, to));
            }
        }
    }
}

/// A package rename edits only package names reading `from`, each over
/// the name alone, writing `to`; and every package name reading `from`
/// in a package clause gets that edit.
pub proof fn law_package_rename_edits(src: Seq<u8>, ns: Seq<NodeView>, from: Seq<u8>, to: Seq<u8>)
    ensures
        forall|m: int| 0 <= m < gather(ns.len() as int, package_step(src, ns, from, to)).len()
            ==> renames_the_package(src, ns, from, to, #[trigger] gather(ns.len() as int, package_step(src, ns, from, to))[m]),
        forall|i: int, k: int| #![trigger ns[i], ns[k]]
            0 <= i < ns.len() && ns[i].kind == "package_clause"@ && named_children(ns, i).contains(k)
            && 0 <= k < ns.len() && ns[k].kind == "package_identifier"@ && text_is(src, ns[k], from)
            ==> gather(ns.len() as int, package_step(src, ns, from, to)).contains((ns[k].start, ns[k].end, to)),
{
    let f = package_step(src, ns, from, to);
    let n = ns.len() as int;
    assert forall|m: int| 0 <= m < gather(n, f).len()
        implies renames_the_package(src, ns, from, to, #[trigger] gather(n, f)[m]) by {
        lemma_gather_from(n, f, m);
        let (i, j) = choose|i: int, j: int| 0 <= i < n && 0 <= j < f(i).len() && gather(n, f)[m] == #[trigger] f(i)[j];
        lemma_identifier_edits(src, ns, named_children(ns, i), from, to);
        assert(ns[i].kind == "package_clause"@);
        let e = identifier_edits(src, ns, named_children(ns, i), from, to)[j];
        assert(renames_identifier_among(src, ns, named_children(ns, i), from, to, e));
        let k = choose|k: int| #![trigger ns[k]] named_children(ns, i).contains(k) && 0 <= k < ns.len() && ns[k].kind == "package_identifier"@
            && text_is(src, ns[k], from) && e.0 == ns[k].start && e.1 == ns[k].end && e.2 == to;
        assert(ns[i] == ns[i] && ns[k] == ns[k]);
    }
    assert forall|i: int, k: int| #![trigger ns[i], ns[k]]
        0 <= i < ns.len() && ns[i].kind == "package_clause"@ && named_children(ns, i).contains(k)
        && 0 <= k < ns.len() && ns[k].kind == "package_identifier"@ && text_is(src, ns[k], from)
        implies gather(n, f).contains((ns[k].start, ns[k].end, to)) by {
        lemma_identifier_edits(src, ns, named_children(ns, i), from, to);
        assert(text_is(src, ns[k], from));
        let j = choose|j: int| 0 <= j < f(i).len() && #[trigger] f(i)[j] == (ns[k].start, ns[k].end, to);
        lemma_gather_holds(n, f, i, j);
    }
}

/// Append the renames among the named children of package clause `i`.
fn clause_edits(src: &[u8], nodes: &Vec<SyntaxNode>, i: usize, from: &[u8], to: &Vec<u8>, edits: &mut Vec<Edit>)
    requires
        i < nodes@.len(),
    ensures
        edit_views(final(edits)@) == edit_views(old(edits)@)
            + identifier_edits(src@, views(nodes@), named_children(views(nodes@), i as int), from@, to@),
{
    let ghost ns = views(nodes@);
    let ghost start = edit_views(edits@);
    let cs = named_children_of(nodes, i);
    let ghost cv = cs@.map_values(|k: usize| k as int);
    let mut j: usize = 0;
    assert(cv.subrange(0, 0) =~= Seq::<int>::empty());
    while j < cs.len()
        invariant
            ns == views(nodes@),
            cv == cs@.map_values(|k: usize| k as int),
            j <= cs@.len(),
            forall|q: int| 0 <= q < cs@.len() ==> i < #[trigger] cs@[q] < nodes@.len(),
            edit_views(edits@) == start + identifier_edits(src@, ns, cv.subrange(0, j as int), from@, to@),
        decreases cs@.len() - j,
    {
        let k = cs[j];
        assert(cv.subrange(0, j + 1).drop_last() =~= cv.subrange(0, j as int));
        assert(cv.subrange(0, j + 1).last() == k as int);
        assert(ns[k as int] == nodes@[k as int]@);
        let ghost prev = edit_views(edits@);
        let ghost sub = cv.subrange(0, j + 1);
        assert(identifier_edits(src@, ns, sub, from@, to@) == ({
            let rest = identifier_edits(src@, ns, sub.drop_last(), from@, to@);
            if 0 <= k < ns.len() && ns[k as int].kind == "package_identifier"@ && text_is(src@, ns[k as int], from@) {
                rest.push((ns[k as int].start, ns[k as int].end, to@))
            } else {
                rest
            }
        }));
        if kind_is(nodes, k, "package_identifier") && node_text_is(src, &nodes[k], from) {
            edits.push(Edit { start: nodes[k].start, end: nodes[k].end, text: copy_bytes(to) });
            assert(edit_views(edits@) =~= prev.push((nodes@[k as int].start as int, nodes@[k as int].end as int, to@)));
        }
        assert(edit_views(edits@) =~= start + identifier_edits(src@, ns, cv.subrange(0, j + 1), from@, to@));
        j = j + 1;
    }
    assert(cv.subrange(0, j as int) =~= cv);
}

/// Rename the package clause `package from` to `package to`.
pub fn rename(from: &str, to: &str, source_code: &str) -> (r: String)
    ensures
        r@ == rename_result(from@, to@, source_code@),
{
    let nodes = match parse_syntax(Grammar::Go, source_code) {
        Some(n) => n,
        None => return copy_str(source_code),
    };
    let src = source_code.as_bytes();
    let target = from.as_bytes();
    let text = bytes_of(to);
    let ghost ns = views(nodes@);
    let ghost step = package_step(src@, ns, target@, text@);
    let mut edits: Vec<Edit> = Vec::new();
    let mut i: usize = 0;
    while i < nodes.len()
        invariant
            ns == views(nodes@),
            step == package_step(src@, ns, target@, text@),
            i <= nodes@.len(),
            edit_views(edits@) == gather(i as int, step),
        decreases nodes@.len() - i,
    {
        assert(step(i as int) == package_at(src@, ns, target@, text@, i as int));
        assert(ns[i as int] == nodes@[i as int]@);
        if kind_is(&nodes, i, "package_clause") {
            clause_edits(src, &nodes, i, target, &text, &mut edits);
        }
        assert(edit_views(edits@) =~= gather(i as int + 1, step));
        i = i + 1;
    }
    rewrite_source(source_code, &edits)
}

/// Rename a Go package clause.
#[derive(Debug)]
pub struct PackageRename {
    pub from: String,
    pub to: String,
}

impl Operation for PackageRename {
    open spec fn relevant_spec(&self, path: Seq<char>) -> bool {
        is_go(path)
    }

    open spec fn apply_spec(&self, source: Seq<char>) -> Seq<char> {
        rename_result(self.from@, self.to@, source)
    }

    open spec fn prefilter_spec(&self) -> Option<Seq<char>> {
        Some(self.from@)
    }

    open spec fn describe_spec(&self) -> Seq<char> {
        "go::package \""@ + self.from@ + "\" -> \""@ + self.to@ + "\""@
    }

    fn is_file_relevant(&self, path: &str) -> (r: bool) {
        is_go_file(path)
    }

    fn apply(&self, source_code: &str) -> (r: String) {
        rename(self.from.as_str(), self.to.as_str(), source_code)
    }

    fn prefilter(&self) -> (r: Option<&str>) {
        Some(self.from.as_str())
    }

    fn describe(&self) -> (r: String) {
        let mut s = copy_str("go::package \"");
        push_str(&mut s, self.from.as_str());
        push_str(&mut s, "\" -> \"");
        push_str(&mut s, self.to.as_str());
        push_str(&mut s, "\"");
        s
    }
}

} // verus!

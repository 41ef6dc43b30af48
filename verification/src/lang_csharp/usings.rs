//! Operations on C# `using` directives: rename, delete, ensure.
//!
//! The plain, `using static` and alias forms are all matched on the
//! dotted name being imported: the last `qualified_name` or `identifier`
//! child of the directive, so `using Alias = Foo.Bar;` is named
//! `Foo.Bar`.

use vstd::prelude::*;
use vstd::utf8::*;
use crate::text::{utf8, bytes_of, copy_str, push_str, find_byte_from, find_byte};
use crate::syntax::{
    Grammar, NodeView, SyntaxNode, parsed_syntax, parse_syntax, views, named_children,
    named_children_of, kind_is, named_child_of_kind, idx_is, find_named_child_of_kind, in_range,
    node_bytes, text_is, node_text_is,
};
use crate::edits::{Edit, edit_views, rewritten, rewrite_source, line_start, line_end, line_span, covers_lines, lemma_line_bounds_cover};
use crate::rewrite::{gather, lemma_gather_holds, lemma_gather_single};
use crate::operation::Operation;
use crate::lang_csharp::{is_csharp, is_csharp_file};

verus! {

/// The last of the nodes `cs` that is a qualified name or an identifier
/// with valid UTF-8 text.
pub open spec fn last_name(src: Seq<u8>, ns: Seq<NodeView>, cs: Seq<int>) -> Option<int>
    decreases cs.len(),
{
    if cs.len() == 0 {
        None
    } else {
        let k = cs.last();
        if 0 <= k < ns.len() && (ns[k].kind == "qualified_name"@ || ns[k].kind == "identifier"@)
            && (match node_bytes(src, ns[k]) { Some(b) => valid_utf8(b), None => false }) {
            Some(k)
        } else {
            last_name(src, ns, cs.drop_last())
        }
    }
}

/// The name node of using directive `i`.
pub open spec fn using_name(src: Seq<u8>, ns: Seq<NodeView>, i: int) -> Option<int> {
    if 0 <= i < ns.len() && ns[i].kind == "using_directive"@ {
        last_name(src, ns, named_children(ns, i))
    } else {
        None
    }
}

/// The name node of node `i` when it is a using directive of `target`.
pub open spec fn matching_name(src: Seq<u8>, ns: Seq<NodeView>, target: Seq<u8>, i: int) -> Option<int> {
    match using_name(src, ns, i) {
        Some(k) => if text_is(src, ns[k], target) { Some(k) } else { None },
        None => None,
    }
}

fn find_using_name(src: &[u8], nodes: &Vec<SyntaxNode>, i: usize) -> (r: Option<usize>)
    requires
        i < nodes@.len(),
    ensures
        idx_is(r, using_name(src@, views(nodes@), i as int), nodes@.len() as int),
{
    let ghost ns = views(nodes@);
    assert(ns[i as int] == nodes@[i as int]@);
    if !kind_is(nodes, i, "using_directive") {
        return None;
    }
    let cs = named_children_of(nodes, i);
    let ghost cv = cs@.map_values(|k: usize| k as int);
    let mut j = cs.len();
    assert(cv.subrange(0, j as int) =~= cv);
    while j > 0
        invariant
            ns == views(nodes@),
            cv == cs@.map_values(|k: usize| k as int),
            cv == named_children(ns, i as int),
            using_name(src@, ns, i as int) == last_name(src@, ns, cv),
            j <= cs@.len(),
            forall|q: int| 0 <= q < cs@.len() ==> i < #[trigger] cs@[q] < nodes@.len(),
            last_name(src@, ns, cv) == last_name(src@, ns, cv.subrange(0, j as int)),
        decreases j,
    {
        let k = cs[j - 1];
        assert(cv.subrange(0, j as int).last() == k as int);
        assert(cv.subrange(0, j as int).drop_last() =~= cv.subrange(0, j - 1));
        assert(ns[k as int] == nodes@[k as int]@);
        let n = &nodes[k];
        if (kind_is(nodes, k, "qualified_name") || kind_is(nodes, k, "identifier"))
            && n.start <= n.end && n.end <= src.len()
            && crate::text::decode_range(src, n.start, n.end).is_some() {
            return Some(k);
        }
        j = j - 1;
    }
    assert(cv.subrange(0, 0) =~= Seq::<int>::empty());
    None
}

fn find_matching_name(src: &[u8], nodes: &Vec<SyntaxNode>, target: &[u8], i: usize) -> (r: Option<usize>)
    requires
        i < nodes@.len(),
    ensures
        idx_is(r, matching_name(src@, views(nodes@), target@, i as int), nodes@.len() as int),
{
    match find_using_name(src, nodes, i) {
        Some(k) => {
            assert(views(nodes@)[k as int] == nodes@[k as int]@);
            if node_text_is(src, &nodes[k], target) { Some(k) } else { None }
        },
        None => None,
    }
}

pub open spec fn rename_at(src: Seq<u8>, ns: Seq<NodeView>, from: Seq<u8>, to: Seq<u8>, i: int) -> Seq<(int, int, Seq<u8>)> {
    match matching_name(src, ns, from, i) {
        Some(k) => seq![(ns[k].start, ns[k].end, to)],
        None => Seq::empty(),
    }
}

pub open spec fn rename_step(src: Seq<u8>, ns: Seq<NodeView>, from: Seq<u8>, to: Seq<u8>) -> spec_fn(int) -> Seq<(int, int, Seq<u8>)> {
    |i: int| rename_at(src, ns, from, to, i)
}

/// The name node found among `cs` is one of them, a qualified name or
/// an identifier.
proof fn lemma_last_name(src: Seq<u8>, ns: Seq<NodeView>, cs: Seq<int>)
    ensures
        last_name(src, ns, cs) matches Some(k) ==> cs.contains(k) && 0 <= k < ns.len()
            && (ns[k].kind == "qualified_name"@ || ns[k].kind == "identifier"@),
    decreases cs.len(),
{
    if cs.len() > 0 {
        lemma_last_name(src, ns, cs.drop_last());
        if let Some(k) = last_name(src, ns, cs.drop_last()) {
            let a = choose|a: int| 0 <= a < cs.drop_last().len() && cs.drop_last()[a] == k;
            assert(cs[a] == k);
        }
        assert(cs[cs.len() - 1] == cs.last());
    }
}

/// `e` replaces the name of a using directive with `to`: its span is
/// exactly a qualified name or identifier among the named children of a
/// `using_directive`, and that name reads `from`.
pub open spec fn renames_a_using(src: Seq<u8>, ns: Seq<NodeView>, from: Seq<u8>, to: Seq<u8>, e: (int, int, Seq<u8>)) -> bool {
    exists|i: int, q: int| #![trigger ns[i], ns[q]]
        0 <= i < ns.len() && ns[i].kind == "using_directive"@
        && named_children(ns, i).contains(q) && 0 <= q < ns.len()
        && (ns[q].kind == "qualified_name"@ || ns[q].kind == "identifier"@)
        && text_is(src, ns[q], from)
        && e.0 == ns[q].start && e.1 == ns[q].end && e.2 == to
}

/// A rename edits only using names that read `from`, each over the name
/// alone (an alias, `static` and `using` stay), writing `to`; and every
/// using directive whose name reads `from` gets that edit.
pub proof fn law_using_rename_edits(src: Seq<u8>, ns: Seq<NodeView>, from: Seq<u8>, to: Seq<u8>)
    ensures
        forall|k: int| 0 <= k < gather(ns.len() as int, rename_step(src, ns, from, to)).len()
            ==> renames_a_using(src, ns, from, to, #[trigger] gather(ns.len() as int, rename_step(src, ns, from, to))[k]),
        forall|i: int, q: int| #![trigger using_name(src, ns, i), ns[q]]
            using_name(src, ns, i) == Some(q) && text_is(src, ns[q], from)
            ==> gather(ns.len() as int, rename_step(src, ns, from, to)).contains((ns[q].start, ns[q].end, to)),
{
    let f = rename_step(src, ns, from, to);
    let n = ns.len() as int;
    assert forall|j: int| 0 <= j < n implies #[trigger] f(j).len() <= 1 by {}
    assert forall|k: int| 0 <= k < gather(n, f).len() implies renames_a_using(src, ns, from, to, #[trigger] gather(n, f)[k]) by {
        let i = lemma_gather_single(n, f, k);
        let q = matching_name(src, ns, from, i)->Some_0;
        lemma_last_name(src, ns, named_children(ns, i));
        assert(ns[i] == ns[i] && ns[q] == ns[q]);
    }
    assert forall|i: int, q: int| #![trigger using_name(src, ns, i), ns[q]]
        using_name(src, ns, i) == Some(q) && text_is(src, ns[q], from)
        implies gather(n, f).contains((ns[q].start, ns[q].end, to)) by {
        assert(0 <= i < n);
        assert(f(i)[0] == (ns[q].start, ns[q].end, to));
        lemma_gather_holds(n, f, i, 0);
    }
}

/// The source with the name of every using directive of `from` replaced by `to`.
pub open spec fn rename_result(from: Seq<char>, to: Seq<char>, source: Seq<char>) -> Seq<char> {
    match parsed_syntax(Grammar::CSharp, source) {
        Some(ns) => rewritten(source, gather(ns.len() as int, rename_step(utf8(source), ns, utf8(from), utf8(to)))),
        None => source,
    }
}

/// Rename every using directive whose name is exactly `from` to `to`.
pub fn rename(from: &str, to: &str, source_code: &str) -> (r: String)
    ensures
        r@ == rename_result(from@, to@, source_code@),
{
    let nodes = match parse_syntax(Grammar::CSharp, source_code) {
        Some(n) => n,
        None => return copy_str(source_code),
    };
    let src = source_code.as_bytes();
    let target = from.as_bytes();
    let text = bytes_of(to);
    let ghost ns = views(nodes@);
    let ghost step = rename_step(src@, ns, target@, text@);
    let mut edits: Vec<Edit> = Vec::new();
    let mut i: usize = 0;
    while i < nodes.len()
        invariant
            ns == views(nodes@),
            step == rename_step(src@, ns, target@, text@),
            i <= nodes@.len(),
            edit_views(edits@) == gather(i as int, step),
        decreases nodes@.len() - i,
    {
        assert(step(i as int) == rename_at(src@, ns, target@, text@, i as int));
        match find_matching_name(src, &nodes, target, i) {
            Some(k) => {
                assert(ns[k as int] == nodes@[k as int]@);
                edits.push(Edit { start: nodes[k].start, end: nodes[k].end, text: crate::edits::copy_bytes(&text) });
            },
            None => {},
        }
        assert(edit_views(edits@) =~= gather(i as int + 1, step));
        i = i + 1;
    }
    rewrite_source(source_code, &edits)
}

pub open spec fn delete_at(src: Seq<u8>, ns: Seq<NodeView>, target: Seq<u8>, i: int) -> Seq<(int, int, Seq<u8>)> {
    if matching_name(src, ns, target, i) is Some && in_range(src, ns[i]) {
        seq![(line_start(src, ns[i].start), line_end(src, ns[i].end), Seq::<u8>::empty())]
    } else {
        Seq::empty()
    }
}

pub open spec fn delete_step(src: Seq<u8>, ns: Seq<NodeView>, target: Seq<u8>) -> spec_fn(int) -> Seq<(int, int, Seq<u8>)> {
    |i: int| delete_at(src, ns, target, i)
}

/// The source without the lines of the using directives of `target`.
/// `e` erases the lines of a using directive of `target`: exactly the whole lines
/// the statement touches, and nothing is written instead.
pub open spec fn erases_a_match(src: Seq<u8>, ns: Seq<NodeView>, target: Seq<u8>, e: (int, int, Seq<u8>)) -> bool {
    exists|i: int| #[trigger] matching_name(src, ns, target, i) is Some
        && covers_lines(src, e.0, e.1, ns[i].start, ns[i].end) && e.2.len() == 0
}

/// A delete erases only the lines of using directives of `target` (other lines
/// stay), and every such statement lying inside the text has its lines
/// erased.
pub proof fn law_delete_edits(src: Seq<u8>, ns: Seq<NodeView>, target: Seq<u8>)
    ensures
        forall|k: int| 0 <= k < gather(ns.len() as int, delete_step(src, ns, target)).len()
            ==> erases_a_match(src, ns, target, #[trigger] gather(ns.len() as int, delete_step(src, ns, target))[k]),
        forall|i: int| #[trigger] matching_name(src, ns, target, i) is Some && in_range(src, ns[i])
            ==> exists|k: int| 0 <= k < gather(ns.len() as int, delete_step(src, ns, target)).len()
                && covers_lines(src, (#[trigger] gather(ns.len() as int, delete_step(src, ns, target))[k]).0,
                    gather(ns.len() as int, delete_step(src, ns, target))[k].1, ns[i].start, ns[i].end),
{
    let f = delete_step(src, ns, target);
    let n = ns.len() as int;
    assert forall|j: int| 0 <= j < n implies #[trigger] f(j).len() <= 1 by {}
    assert forall|k: int| 0 <= k < gather(n, f).len()
        implies erases_a_match(src, ns, target, #[trigger] gather(n, f)[k]) by {
        let i = lemma_gather_single(n, f, k);
        lemma_line_bounds_cover(src, ns[i].start, ns[i].end);
    }
    assert forall|i: int| #[trigger] matching_name(src, ns, target, i) is Some && in_range(src, ns[i])
        implies exists|k: int| 0 <= k < gather(n, f).len()
            && covers_lines(src, (#[trigger] gather(n, f)[k]).0, gather(n, f)[k].1, ns[i].start, ns[i].end) by {
        lemma_line_bounds_cover(src, ns[i].start, ns[i].end);
        assert(f(i).len() == 1);
        lemma_gather_holds(n, f, i, 0);
    }
}

pub open spec fn delete_result(target: Seq<char>, source: Seq<char>) -> Seq<char> {
    match parsed_syntax(Grammar::CSharp, source) {
        Some(ns) => rewritten(source, gather(ns.len() as int, delete_step(utf8(source), ns, utf8(target)))),
        None => source,
    }
}

/// Remove every using directive of `target`, erasing the lines it spans.
pub fn delete(target: &str, source_code: &str) -> (r: String)
    ensures
        r@ == delete_result(target@, source_code@),
{
    let nodes = match parse_syntax(Grammar::CSharp, source_code) {
        Some(n) => n,
        None => return copy_str(source_code),
    };
    let src = source_code.as_bytes();
    let t = target.as_bytes();
    let ghost ns = views(nodes@);
    let ghost step = delete_step(src@, ns, t@);
    let mut edits: Vec<Edit> = Vec::new();
    let mut i: usize = 0;
    while i < nodes.len()
        invariant
            ns == views(nodes@),
            step == delete_step(src@, ns, t@),
            i <= nodes@.len(),
            edit_views(edits@) == gather(i as int, step),
        decreases nodes@.len() - i,
    {
        assert(step(i as int) == delete_at(src@, ns, t@, i as int));
        assert(ns[i as int] == nodes@[i as int]@);
        let m = find_matching_name(src, &nodes, t, i);
        if m.is_some() && nodes[i].start <= nodes[i].end && nodes[i].end <= src.len() {
            let (ls, le) = line_span(src, nodes[i].start, nodes[i].end);
            edits.push(Edit { start: ls, end: le, text: Vec::new() });
        }
        assert(edit_views(edits@) =~= gather(i as int + 1, step));
        i = i + 1;
    }
    rewrite_source(source_code, &edits)
}

/// Some using directive is named `target`.
pub open spec fn any_using(src: Seq<u8>, ns: Seq<NodeView>, target: Seq<u8>) -> bool {
    exists|i: int| 0 <= i < ns.len() && (#[trigger] matching_name(src, ns, target, i)) is Some
}

/// The last of the nodes `cs` that is a using directive.
pub open spec fn last_using(ns: Seq<NodeView>, cs: Seq<int>) -> Option<int>
    decreases cs.len(),
{
    if cs.len() == 0 {
        None
    } else if 0 <= cs.last() < ns.len() && ns[cs.last()].kind == "using_directive"@ {
        Some(cs.last())
    } else {
        last_using(ns, cs.drop_last())
    }
}

/// Just past the newline that ends the last top-level using directive
/// (the end of the file when none follows), or the top of the file.
pub open spec fn insertion_point(src: Seq<u8>, ns: Seq<NodeView>) -> int {
    if ns.len() == 0 {
        0
    } else {
        match last_using(ns, named_children(ns, 0)) {
            Some(c) => match find_byte_from(src, 10u8, ns[c].end) {
                Some(p) => p + 1,
                None => src.len() as int,
            },
            None => 0,
        }
    }
}

/// The line `ensure` inserts.
pub open spec fn using_line(target: Seq<char>) -> Seq<char> {
    "using "@ + target + ";\n"@
}

/// Ensuring: a file that already has a using directive of `target` is left exactly as it
/// is; otherwise one line is inserted at a single place, nothing removed,
/// and it reads as the directive for `target`.
pub proof fn law_ensure_adds_one_line_or_nothing(target: Seq<char>, source: Seq<char>, ns: Seq<NodeView>)
    ensures
        (exists|i: int| 0 <= i < ns.len() && (#[trigger] matching_name(utf8(source), ns, utf8(target), i)) is Some)
            ==> ensure_over(target, source, ns) == source,
        !(exists|i: int| 0 <= i < ns.len() && (#[trigger] matching_name(utf8(source), ns, utf8(target), i)) is Some)
            ==> exists|pos: int| ensure_over(target, source, ns)
                == #[trigger] rewritten(source, seq![(pos, pos, utf8("using "@ + target + ";\n"@))]),
{
    let pos = insertion_point(utf8(source), ns);
    assert(ensure_over(target, source, ns) == source
        || ensure_over(target, source, ns) == rewritten(source, seq![(pos, pos, utf8("using "@ + target + ";\n"@))]));
}

pub open spec fn ensure_over(target: Seq<char>, source: Seq<char>, ns: Seq<NodeView>) -> Seq<char> {
    let src = utf8(source);
    if any_using(src, ns, utf8(target)) {
        source
    } else {
        let pos = insertion_point(src, ns);
        rewritten(source, seq![(pos, pos, utf8(using_line(target)))])
    }
}

pub open spec fn ensure_result(target: Seq<char>, source: Seq<char>) -> Seq<char> {
    match parsed_syntax(Grammar::CSharp, source) {
        Some(ns) => ensure_over(target, source, ns),
        None => source,
    }
}

/// Exec form of [`last_using`] over the top-level nodes.
fn find_last_using(nodes: &Vec<SyntaxNode>) -> (r: Option<usize>)
    ensures
        idx_is(r, if nodes@.len() == 0 { None } else { last_using(views(nodes@), named_children(views(nodes@), 0)) }, nodes@.len() as int),
{
    if nodes.len() == 0 {
        return None;
    }
    let ghost ns = views(nodes@);
    let cs = named_children_of(nodes, 0);
    let ghost cv = cs@.map_values(|k: usize| k as int);
    let mut j = cs.len();
    assert(cv.subrange(0, j as int) =~= cv);
    while j > 0
        invariant
            ns == views(nodes@),
            nodes@.len() > 0,
            cv == cs@.map_values(|k: usize| k as int),
            cv == named_children(ns, 0),
            j <= cs@.len(),
            forall|q: int| 0 <= q < cs@.len() ==> 0 < #[trigger] cs@[q] < nodes@.len(),
            last_using(ns, cv) == last_using(ns, cv.subrange(0, j as int)),
        decreases j,
    {
        let c = cs[j - 1];
        assert(cv.subrange(0, j as int).last() == c as int);
        assert(cv.subrange(0, j as int).drop_last() =~= cv.subrange(0, j - 1));
        assert(ns[c as int] == nodes@[c as int]@);
        if kind_is(nodes, c, "using_directive") {
            return Some(c);
        }
        j = j - 1;
    }
    assert(cv.subrange(0, 0) =~= Seq::<int>::empty());
    None
}

/// When no using directive is named `target`, insert `using <target>;`
/// after the last top-level one (at the top when there is none).
pub fn ensure(target: &str, source_code: &str) -> (r: String)
    ensures
        r@ == ensure_result(target@, source_code@),
{
    let nodes = match parse_syntax(Grammar::CSharp, source_code) {
        Some(n) => n,
        None => return copy_str(source_code),
    };
    let src = source_code.as_bytes();
    let t = target.as_bytes();
    let n = src.len();
    let ghost ns = views(nodes@);
    let mut i: usize = 0;
    while i < nodes.len()
        invariant
            ns == views(nodes@),
            parsed_syntax(Grammar::CSharp, source_code@) == Some(ns),
            src@ == utf8(source_code@),
            t@ == utf8(target@),
            i <= nodes@.len(),
            forall|k: int| 0 <= k < i ==> (#[trigger] matching_name(src@, ns, t@, k)) is None,
        decreases nodes@.len() - i,
    {
        if find_matching_name(src, &nodes, t, i).is_some() {
            return copy_str(source_code);
        }
        i = i + 1;
    }
    let pos = match find_last_using(&nodes) {
        Some(c) => {
            assert(ns[c as int] == nodes@[c as int]@);
            let end = nodes[c].end;
            proof {
                crate::text::lemma_find_byte_bounds(src@, 10u8, end as int);
            }
            match find_byte(src, 10u8, end) {
                Some(p) => p + 1,
                None => n,
            }
        },
        None => 0,
    };
    let mut line = copy_str("using ");
    push_str(&mut line, target);
    push_str(&mut line, ";\n");
    let mut edits: Vec<Edit> = Vec::new();
    edits.push(Edit { start: pos, end: pos, text: bytes_of(line.as_str()) });
    assert(edit_views(edits@) =~= seq![(pos as int, pos as int, utf8(using_line(target@)))]);
    rewrite_source(source_code, &edits)
}

/// Rename C# using directives named `from` to `to`.
#[derive(Debug)]
pub struct UsingRename {
    pub from: String,
    pub to: String,
}

impl Operation for UsingRename {
    open spec fn relevant_spec(&self, path: Seq<char>) -> bool {
        is_csharp(path)
    }

    open spec fn apply_spec(&self, source: Seq<char>) -> Seq<char> {
        rename_result(self.from@, self.to@, source)
    }

    open spec fn prefilter_spec(&self) -> Option<Seq<char>> {
        Some(self.from@)
    }

    open spec fn describe_spec(&self) -> Seq<char> {
        "csharp::using \""@ + self.from@ + "\" -> \""@ + self.to@ + "\""@
    }

    fn is_file_relevant(&self, path: &str) -> (r: bool) {
        is_csharp_file(path)
    }

    fn apply(&self, source_code: &str) -> (r: String) {
        rename(self.from.as_str(), self.to.as_str(), source_code)
    }

    fn prefilter(&self) -> (r: Option<&str>) {
        Some(self.from.as_str())
    }

    fn describe(&self) -> (r: String) {
        let mut s = copy_str("csharp::using \"");
        push_str(&mut s, self.from.as_str());
        push_str(&mut s, "\" -> \"");
        push_str(&mut s, self.to.as_str());
        push_str(&mut s, "\"");
        s
    }
}

/// Remove the C# using directives of a name.
#[derive(Debug)]
pub struct UsingDelete {
    pub target: String,
}

impl Operation for UsingDelete {
    open spec fn relevant_spec(&self, path: Seq<char>) -> bool {
        is_csharp(path)
    }

    open spec fn apply_spec(&self, source: Seq<char>) -> Seq<char> {
        delete_result(self.target@, source)
    }

    open spec fn prefilter_spec(&self) -> Option<Seq<char>> {
        Some(self.target@)
    }

    open spec fn describe_spec(&self) -> Seq<char> {
        "csharp::using \""@ + self.target@ + "\" -> delete"@
    }

    fn is_file_relevant(&self, path: &str) -> (r: bool) {
        is_csharp_file(path)
    }

    fn apply(&self, source_code: &str) -> (r: String) {
        delete(self.target.as_str(), source_code)
    }

    fn prefilter(&self) -> (r: Option<&str>) {
        Some(self.target.as_str())
    }

    fn describe(&self) -> (r: String) {
        let mut s = copy_str("csharp::using \"");
        push_str(&mut s, self.target.as_str());
        push_str(&mut s, "\" -> delete");
        s
    }
}

/// Idempotently add a C# using directive if it is missing.
#[derive(Debug)]
pub struct UsingEnsure {
    pub target: String,
}

impl Operation for UsingEnsure {
    open spec fn relevant_spec(&self, path: Seq<char>) -> bool {
        is_csharp(path)
    }

    open spec fn apply_spec(&self, source: Seq<char>) -> Seq<char> {
        ensure_result(self.target@, source)
    }

    open spec fn prefilter_spec(&self) -> Option<Seq<char>> {
        None
    }

    open spec fn describe_spec(&self) -> Seq<char> {
        "csharp::using \""@ + self.target@ + "\" -> ensure"@
    }

    fn is_file_relevant(&self, path: &str) -> (r: bool) {
        is_csharp_file(path)
    }

    fn apply(&self, source_code: &str) -> (r: String) {
        ensure(self.target.as_str(), source_code)
    }

    fn prefilter(&self) -> (r: Option<&str>) {
        None
    }

    fn describe(&self) -> (r: String) {
        let mut s = copy_str("csharp::using \"");
        push_str(&mut s, self.target.as_str());
        push_str(&mut s, "\" -> ensure");
        s
    }
}

} // verus!

//! ES module specifier rewriting.
//!
//! An `import_statement` or `export_statement` names its module in a
//! `source` field holding a `string`. The inner value of that string,
//! without quotes, is matched exactly and only those bytes are replaced.

use vstd::prelude::*;
use vstd::utf8::*;
use crate::text::{utf8, bytes_of, copy_str, push_str, find_byte_from, find_byte, decode_range, bytes_eq};
use crate::syntax::{
    Grammar, NodeView, SyntaxNode, parsed_syntax, parse_syntax, views, field_child, child_by_field,
    named_children, named_children_of, kind_is, idx_is, in_range, node_bytes,
};
use crate::edits::{Edit, edit_views, rewritten, rewrite_source, line_start, span_line_end, whole_lines, copy_bytes, covers_lines, lemma_line_bounds_cover};
use crate::rewrite::{gather, lemma_gather_holds, lemma_gather_single};
use crate::operation::Operation;
use crate::lang_js::{is_js, is_js_file};

verus! {

/// The first of the nodes `cs` that is a `string_fragment` with valid
/// UTF-8 text.
pub open spec fn first_fragment(src: Seq<u8>, ns: Seq<NodeView>, cs: Seq<int>) -> Option<int>
    decreases cs.len(),
{
    if cs.len() == 0 {
        None
    } else {
        let k = cs[0];
        if 0 <= k < ns.len() && ns[k].kind == "string_fragment"@
            && (match node_bytes(src, ns[k]) { Some(b) => valid_utf8(b), None => false }) {
            Some(k)
        } else {
            first_fragment(src, ns, cs.drop_first())
        }
    }
}

/// The byte range of the value of string node `s`: its first fragment,
/// or else everything between its first and last byte when that is text.
pub open spec fn string_inner(src: Seq<u8>, ns: Seq<NodeView>, s: int) -> Option<(int, int)> {
    match first_fragment(src, ns, named_children(ns, s)) {
        Some(k) => Some((ns[k].start, ns[k].end)),
        None => {
            let lo = ns[s].start + 1;
            let hi = ns[s].end - 1;
            if ns[s].end > ns[s].start + 1 && 0 <= lo <= hi <= src.len() && valid_utf8(src.subrange(lo, hi)) {
                Some((lo, hi))
            } else {
                None
            }
        },
    }
}

/// The value range of statement `i`'s module specifier when it is
/// exactly `target`.
pub open spec fn matching_specifier(src: Seq<u8>, ns: Seq<NodeView>, target: Seq<u8>, i: int) -> Option<(int, int)> {
    if 0 <= i < ns.len() && (ns[i].kind == "import_statement"@ || ns[i].kind == "export_statement"@) {
        match field_child(ns, i, "source"@) {
            Some(s) => if ns[s].kind == "string"@ {
                match string_inner(src, ns, s) {
                    Some((lo, hi)) => if src.subrange(lo, hi) == target { Some((lo, hi)) } else { None },
                    None => None,
                }
            } else {
                None
            },
            None => None,
        }
    } else {
        None
    }
}

fn find_string_inner(src: &[u8], nodes: &Vec<SyntaxNode>, s: usize) -> (r: Option<(usize, usize)>)
    requires
        s < nodes@.len(),
    ensures
        match string_inner(src@, views(nodes@), s as int) {
            Some((lo, hi)) => r matches Some((a, b)) && a == lo && b == hi && 0 <= lo <= hi <= src@.len(),
            None => r is None,
        },
{
    let ghost ns = views(nodes@);
    assert(ns[s as int] == nodes@[s as int]@);
    let cs = named_children_of(nodes, s);
    let ghost cv = cs@.map_values(|k: usize| k as int);
    let mut j: usize = 0;
    assert(cv.skip(0) =~= cv);
    while j < cs.len()
        invariant
            ns == views(nodes@),
            cv == cs@.map_values(|k: usize| k as int),
            cv == named_children(ns, s as int),
            j <= cs@.len(),
            forall|q: int| 0 <= q < cs@.len() ==> s < #[trigger] cs@[q] < nodes@.len(),
            first_fragment(src@, ns, cv) == first_fragment(src@, ns, cv.skip(j as int)),
        decreases cs@.len() - j,
    {
        let k = cs[j];
        assert(cv.skip(j as int)[0] == k);
        assert(cv.skip(j as int).drop_first() =~= cv.skip(j + 1));
        assert(ns[k as int] == nodes@[k as int]@);
        let n = &nodes[k];
        if kind_is(nodes, k, "string_fragment") && n.start <= n.end && n.end <= src.len()
            && decode_range(src, n.start, n.end).is_some() {
            return Some((n.start, n.end));
        }
        j = j + 1;
    }
    let st = nodes[s].start;
    let en = nodes[s].end;
    if en > st && en - st > 1 && en - 1 <= src.len() && decode_range(src, st + 1, en - 1).is_some() {
        Some((st + 1, en - 1))
    } else {
        None
    }
}

fn find_matching_specifier(src: &[u8], nodes: &Vec<SyntaxNode>, target: &[u8], i: usize) -> (r: Option<(usize, usize)>)
    requires
        i < nodes@.len(),
    ensures
        match matching_specifier(src@, views(nodes@), target@, i as int) {
            Some((lo, hi)) => r matches Some((a, b)) && a == lo && b == hi && 0 <= lo <= hi <= src@.len(),
            None => r is None,
        },
{
    let ghost ns = views(nodes@);
    assert(ns[i as int] == nodes@[i as int]@);
    if !(kind_is(nodes, i, "import_statement") || kind_is(nodes, i, "export_statement")) {
        return None;
    }
    match child_by_field(nodes, i, "source") {
        Some(s) => {
            assert(ns[s as int] == nodes@[s as int]@);
            if !kind_is(nodes, s, "string") {
                return None;
            }
            match find_string_inner(src, nodes, s) {
                Some((lo, hi)) => {
                    let same = hi - lo == target.len() && crate::text::bytes_at(src, lo, target);
                    proof {
                        if same {
                            assert(src@.subrange(lo as int, hi as int) =~= target@);
                        } else if hi - lo == target@.len() {
                            assert(src@.subrange(lo as int, lo + target@.len()) =~= src@.subrange(lo as int, hi as int));
                        }
                    }
                    if same { Some((lo, hi)) } else { None }
                },
                None => None,
            }
        },
        None => None,
    }
}

pub open spec fn rename_at(src: Seq<u8>, ns: Seq<NodeView>, from: Seq<u8>, to: Seq<u8>, i: int) -> Seq<(int, int, Seq<u8>)> {
    match matching_specifier(src, ns, from, i) {
        Some((lo, hi)) => seq![(lo, hi, to)],
        None => Seq::empty(),
    }
}

pub open spec fn rename_step(src: Seq<u8>, ns: Seq<NodeView>, from: Seq<u8>, to: Seq<u8>) -> spec_fn(int) -> Seq<(int, int, Seq<u8>)> {
    |i: int| rename_at(src, ns, from, to, i)
}

/// The fragment found among `cs` is one of them, a `string_fragment`.
proof fn lemma_first_fragment(src: Seq<u8>, ns: Seq<NodeView>, cs: Seq<int>)
    ensures
        first_fragment(src, ns, cs) matches Some(k) ==> cs.contains(k) && 0 <= k < ns.len()
            && ns[k].kind == "string_fragment"@ && node_bytes(src, ns[k]) is Some,
    decreases cs.len(),
{
    if cs.len() > 0 {
        lemma_first_fragment(src, ns, cs.drop_first());
        if let Some(k) = first_fragment(src, ns, cs.drop_first()) {
            let a = choose|a: int| 0 <= a < cs.drop_first().len() && cs.drop_first()[a] == k;
            assert(cs[a + 1] == k);
        }
        assert(cs[0] == cs[0]);
    }
}

/// `e` replaces the value of the module specifier of an `import` or
/// `export` statement with `to`: its span is the text of that string
/// between its quotes (its `string_fragment`, or everything inside the
/// quotes), that text is `from`, and the quotes and all else stay.
pub open spec fn renames_a_specifier(src: Seq<u8>, ns: Seq<NodeView>, from: Seq<u8>, to: Seq<u8>, e: (int, int, Seq<u8>)) -> bool {
    exists|i: int, s: int| #![trigger ns[i], ns[s]]
        0 <= i < ns.len() && (ns[i].kind == "import_statement"@ || ns[i].kind == "export_statement"@)
        && field_child(ns, i, "source"@) == Some(s) && ns[s].kind == "string"@
        && ((exists|q: int| #![trigger ns[q]] named_children(ns, s).contains(q) && 0 <= q < ns.len()
                && ns[q].kind == "string_fragment"@ && e.0 == ns[q].start && e.1 == ns[q].end)
            || (e.0 == ns[s].start + 1 && e.1 == ns[s].end - 1))
        && 0 <= e.0 <= e.1 <= src.len() && src.subrange(e.0, e.1) == from
        && e.2 == to
}

/// A rename edits only specifiers whose value is `from`, each over the
/// value alone, writing `to`.
pub proof fn law_specifier_rename_edits(src: Seq<u8>, ns: Seq<NodeView>, from: Seq<u8>, to: Seq<u8>)
    ensures
        forall|k: int| 0 <= k < gather(ns.len() as int, rename_step(src, ns, from, to)).len()
            ==> renames_a_specifier(src, ns, from, to, #[trigger] gather(ns.len() as int, rename_step(src, ns, from, to))[k]),
{
    let f = rename_step(src, ns, from, to);
    let n = ns.len() as int;
    assert forall|j: int| 0 <= j < n implies #[trigger] f(j).len() <= 1 by {}
    assert forall|k: int| 0 <= k < gather(n, f).len() implies renames_a_specifier(src, ns, from, to, #[trigger] gather(n, f)[k]) by {
        let i = lemma_gather_single(n, f, k);
        let s = field_child(ns, i, "source"@)->Some_0;
        lemma_first_fragment(src, ns, named_children(ns, s));
        assert(ns[i] == ns[i] && ns[s] == ns[s]);
        if let Some(q) = first_fragment(src, ns, named_children(ns, s)) {
            assert(ns[q] == ns[q]);
        }
    }
}

/// The source with every module specifier equal to `from` replaced by `to`.
pub open spec fn rename_result(from: Seq<char>, to: Seq<char>, source: Seq<char>) -> Seq<char> {
    match parsed_syntax(Grammar::JavaScript, source) {
        Some(ns) => rewritten(source, gather(ns.len() as int, rename_step(utf8(source), ns, utf8(from), utf8(to)))),
        None => source,
    }
}

/// Replace every `import`/`export … from` specifier equal to `from`.
pub fn rename(from: &str, to: &str, source_code: &str) -> (r: String)
    ensures
        r@ == rename_result(from@, to@, source_code@),
{
    let nodes = match parse_syntax(Grammar::JavaScript, source_code) {
        Some(n) => n,
        None => return copy_str(source_code),
    };
    let src = source_code.as_bytes();
    let target = from.as_bytes();
    let text = bytes_of(to);
    let ghost ns = views(nodes@);
    let ghost step = rename_step(src@, ns, target@, text@);
    let mut edits: Vec<Edit> = Vec::new();
    let mut i: usize = 0;
    while i < nodes.len()
        invariant
            ns == views(nodes@),
            step == rename_step(src@, ns, target@, text@),
            i <= nodes@.len(),
            edit_views(edits@) == gather(i as int, step),
        decreases nodes@.len() - i,
    {
        assert(step(i as int) == rename_at(src@, ns, target@, text@, i as int));
        match find_matching_specifier(src, &nodes, target, i) {
            Some((lo, hi)) => {
                edits.push(Edit { start: lo, end: hi, text: copy_bytes(&text) });
            },
            None => {},
        }
        assert(edit_views(edits@) =~= gather(i as int + 1, step));
        i = i + 1;
    }
    rewrite_source(source_code, &edits)
}

pub open spec fn delete_at(src: Seq<u8>, ns: Seq<NodeView>, target: Seq<u8>, i: int) -> Seq<(int, int, Seq<u8>)> {
    if matching_specifier(src, ns, target, i) is Some && in_range(src, ns[i]) {
        seq![(line_start(src, ns[i].start), span_line_end(src, ns[i].end), Seq::<u8>::empty())]
    } else {
        Seq::empty()
    }
}

pub open spec fn delete_step(src: Seq<u8>, ns: Seq<NodeView>, target: Seq<u8>) -> spec_fn(int) -> Seq<(int, int, Seq<u8>)> {
    |i: int| delete_at(src, ns, target, i)
}

/// The source without the lines of the statements importing `target`.
/// `e` erases the lines of an import or export of the specifier of `target`: exactly the whole lines
/// the statement touches, and nothing is written instead.
pub open spec fn erases_a_match(src: Seq<u8>, ns: Seq<NodeView>, target: Seq<u8>, e: (int, int, Seq<u8>)) -> bool {
    exists|i: int| #[trigger] matching_specifier(src, ns, target, i) is Some
        && covers_lines(src, e.0, e.1, ns[i].start, ns[i].end) && e.2.len() == 0
}

/// A delete erases only the lines of statements of `target` (other lines
/// stay), and every such statement lying inside the text has its lines
/// erased.
pub proof fn law_delete_edits(src: Seq<u8>, ns: Seq<NodeView>, target: Seq<u8>)
    ensures
        forall|k: int| 0 <= k < gather(ns.len() as int, delete_step(src, ns, target)).len()
            ==> erases_a_match(src, ns, target, #[trigger] gather(ns.len() as int, delete_step(src, ns, target))[k]),
        forall|i: int| #[trigger] matching_specifier(src, ns, target, i) is Some && in_range(src, ns[i])
            ==> exists|k: int| 0 <= k < gather(ns.len() as int, delete_step(src, ns, target)).len()
                && covers_lines(src, (#[trigger] gather(ns.len() as int, delete_step(src, ns, target))[k]).0,
                    gather(ns.len() as int, delete_step(src, ns, target))[k].1, ns[i].start, ns[i].end),
{
    let f = delete_step(src, ns, target);
    let n = ns.len() as int;
    assert forall|j: int| 0 <= j < n implies #[trigger] f(j).len() <= 1 by {}
    assert forall|k: int| 0 <= k < gather(n, f).len()
        implies erases_a_match(src, ns, target, #[trigger] gather(n, f)[k]) by {
        let i = lemma_gather_single(n, f, k);
        lemma_line_bounds_cover(src, ns[i].start, ns[i].end);
    }
    assert forall|i: int| #[trigger] matching_specifier(src, ns, target, i) is Some && in_range(src, ns[i])
        implies exists|k: int| 0 <= k < gather(n, f).len()
            && covers_lines(src, (#[trigger] gather(n, f)[k]).0, gather(n, f)[k].1, ns[i].start, ns[i].end) by {
        lemma_line_bounds_cover(src, ns[i].start, ns[i].end);
        assert(f(i).len() == 1);
        lemma_gather_holds(n, f, i, 0);
    }
}

pub open spec fn delete_result(target: Seq<char>, source: Seq<char>) -> Seq<char> {
    match parsed_syntax(Grammar::JavaScript, source) {
        Some(ns) => rewritten(source, gather(ns.len() as int, delete_step(utf8(source), ns, utf8(target)))),
        None => source,
    }
}

/// Remove the `import`/`export … from` statements whose specifier is
/// `target`, with the lines they span.
pub fn delete(target: &str, source_code: &str) -> (r: String)
    ensures
        r@ == delete_result(target@, source_code@),
{
    let nodes = match parse_syntax(Grammar::JavaScript, source_code) {
        Some(n) => n,
        None => return copy_str(source_code),
    };
    let src = source_code.as_bytes();
    let t = target.as_bytes();
    let ghost ns = views(nodes@);
    let ghost step = delete_step(src@, ns, t@);
    let mut edits: Vec<Edit> = Vec::new();
    let mut i: usize = 0;
    while i < nodes.len()
        invariant
            ns == views(nodes@),
            step == delete_step(src@, ns, t@),
            i <= nodes@.len(),
            edit_views(edits@) == gather(i as int, step),
        decreases nodes@.len() - i,
    {
        assert(step(i as int) == delete_at(src@, ns, t@, i as int));
        assert(ns[i as int] == nodes@[i as int]@);
        let m = find_matching_specifier(src, &nodes, t, i);
        if m.is_some() && nodes[i].start <= nodes[i].end && nodes[i].end <= src.len() {
            let (ls, le) = whole_lines(src, nodes[i].start, nodes[i].end);
            edits.push(Edit { start: ls, end: le, text: Vec::new() });
        }
        assert(edit_views(edits@) =~= gather(i as int + 1, step));
        i = i + 1;
    }
    rewrite_source(source_code, &edits)
}

/// Some statement imports or re-exports `target`.
pub open spec fn any_specifier(src: Seq<u8>, ns: Seq<NodeView>, target: Seq<u8>) -> bool {
    exists|i: int| 0 <= i < ns.len() && (#[trigger] matching_specifier(src, ns, target, i)) is Some
}

/// The last of the nodes `cs` that is an import statement.
pub open spec fn last_import(ns: Seq<NodeView>, cs: Seq<int>) -> Option<int>
    decreases cs.len(),
{
    if cs.len() == 0 {
        None
    } else if 0 <= cs.last() < ns.len() && ns[cs.last()].kind == "import_statement"@ {
        Some(cs.last())
    } else {
        last_import(ns, cs.drop_last())
    }
}

/// Just past the newline after the last top-level import (the end of the
/// file when none follows), or the top of the file.
pub open spec fn insertion_point(src: Seq<u8>, ns: Seq<NodeView>) -> int {
    if ns.len() == 0 {
        0
    } else {
        match last_import(ns, named_children(ns, 0)) {
            Some(c) => match find_byte_from(src, 10u8, ns[c].end) {
                Some(p) => p + 1,
                None => src.len() as int,
            },
            None => 0,
        }
    }
}

/// The side-effect import `ensure` inserts.
pub open spec fn import_line(target: Seq<char>) -> Seq<char> {
    "import '"@ + target + "';\n"@
}

/// Ensuring: a file that already has an import or export of the specifier `target` is left exactly as it
/// is; otherwise one line is inserted at a single place, nothing removed,
/// and it reads as the directive for `target`.
pub proof fn law_ensure_adds_one_line_or_nothing(target: Seq<char>, source: Seq<char>, ns: Seq<NodeView>)
    ensures
        (exists|i: int| 0 <= i < ns.len() && (#[trigger] matching_specifier(utf8(source), ns, utf8(target), i)) is Some)
            ==> ensure_over(target, source, ns) == source,
        !(exists|i: int| 0 <= i < ns.len() && (#[trigger] matching_specifier(utf8(source), ns, utf8(target), i)) is Some)
            ==> exists|pos: int| ensure_over(target, source, ns)
                == #[trigger] rewritten(source, seq![(pos, pos, utf8("import '"@ + target + "';\n"@))]),
{
    let pos = insertion_point(utf8(source), ns);
    assert(ensure_over(target, source, ns) == source
        || ensure_over(target, source, ns) == rewritten(source, seq![(pos, pos, utf8("import '"@ + target + "';\n"@))]));
}

pub open spec fn ensure_over(target: Seq<char>, source: Seq<char>, ns: Seq<NodeView>) -> Seq<char> {
    let src = utf8(source);
    if any_specifier(src, ns, utf8(target)) {
        source
    } else {
        let pos = insertion_point(src, ns);
        rewritten(source, seq![(pos, pos, utf8(import_line(target)))])
    }
}

pub open spec fn ensure_result(target: Seq<char>, source: Seq<char>) -> Seq<char> {
    match parsed_syntax(Grammar::JavaScript, source) {
        Some(ns) => ensure_over(target, source, ns),
        None => source,
    }
}

/// Exec form of [`last_import`] over the top-level nodes.
fn find_last_import(nodes: &Vec<SyntaxNode>) -> (r: Option<usize>)
    ensures
        idx_is(r, if nodes@.len() == 0 { None } else { last_import(views(nodes@), named_children(views(nodes@), 0)) }, nodes@.len() as int),
{
    if nodes.len() == 0 {
        return None;
    }
    let ghost ns = views(nodes@);
    let cs = named_children_of(nodes, 0);
    let ghost cv = cs@.map_values(|k: usize| k as int);
    let mut j = cs.len();
    assert(cv.subrange(0, j as int) =~= cv);
    while j > 0
        invariant
            ns == views(nodes@),
            nodes@.len() > 0,
            cv == cs@.map_values(|k: usize| k as int),
            cv == named_children(ns, 0),
            j <= cs@.len(),
            forall|q: int| 0 <= q < cs@.len() ==> 0 < #[trigger] cs@[q] < nodes@.len(),
            last_import(ns, cv) == last_import(ns, cv.subrange(0, j as int)),
        decreases j,
    {
        let c = cs[j - 1];
        assert(cv.subrange(0, j as int).last() == c as int);
        assert(cv.subrange(0, j as int).drop_last() =~= cv.subrange(0, j - 1));
        assert(ns[c as int] == nodes@[c as int]@);
        if kind_is(nodes, c, "import_statement") {
            return Some(c);
        }
        j = j - 1;
    }
    assert(cv.subrange(0, 0) =~= Seq::<int>::empty());
    None
}

/// When no statement imports `target`, insert the side-effect import
/// `import '<target>';` after the last top-level import (at the top when
/// there is none). A module imported in any form counts as present.
pub fn ensure(target: &str, source_code: &str) -> (r: String)
    ensures
        r@ == ensure_result(target@, source_code@),
{
    let nodes = match parse_syntax(Grammar::JavaScript, source_code) {
        Some(n) => n,
        None => return copy_str(source_code),
    };
    let src = source_code.as_bytes();
    let t = target.as_bytes();
    let n = src.len();
    let ghost ns = views(nodes@);
    let mut i: usize = 0;
    while i < nodes.len()
        invariant
            ns == views(nodes@),
            parsed_syntax(Grammar::JavaScript, source_code@) == Some(ns),
            src@ == utf8(source_code@),
            t@ == utf8(target@),
            i <= nodes@.len(),
            forall|k: int| 0 <= k < i ==> (#[trigger] matching_specifier(src@, ns, t@, k)) is None,
        decreases nodes@.len() - i,
    {
        if find_matching_specifier(src, &nodes, t, i).is_some() {
            return copy_str(source_code);
        }
        i = i + 1;
    }
    let pos = match find_last_import(&nodes) {
        Some(c) => {
            assert(ns[c as int] == nodes@[c as int]@);
            let end = nodes[c].end;
            proof {
                crate::text::lemma_find_byte_bounds(src@, 10u8, end as int);
            }
            match find_byte(src, 10u8, end) {
                Some(p) => p + 1,
                None => n,
            }
        },
        None => 0,
    };
    let mut line = copy_str("import '");
    push_str(&mut line, target);
    push_str(&mut line, "';\n");
    let mut edits: Vec<Edit> = Vec::new();
    edits.push(Edit { start: pos, end: pos, text: bytes_of(line.as_str()) });
    assert(edit_views(edits@) =~= seq![(pos as int, pos as int, utf8(import_line(target@)))]);
    rewrite_source(source_code, &edits)
}

/// Rewrite ES module specifiers equal to `from`.
#[derive(Debug)]
pub struct SpecifierRename {
    pub from: String,
    pub to: String,
}

impl Operation for SpecifierRename {
    open spec fn relevant_spec(&self, path: Seq<char>) -> bool {
        is_js(path)
    }

    open spec fn apply_spec(&self, source: Seq<char>) -> Seq<char> {
        rename_result(self.from@, self.to@, source)
    }

    open spec fn prefilter_spec(&self) -> Option<Seq<char>> {
        Some(self.from@)
    }

    open spec fn describe_spec(&self) -> Seq<char> {
        "js::import \""@ + self.from@ + "\" -> \""@ + self.to@ + "\""@
    }

    fn is_file_relevant(&self, path: &str) -> (r: bool) {
        is_js_file(path)
    }

    fn apply(&self, source_code: &str) -> (r: String) {
        rename(self.from.as_str(), self.to.as_str(), source_code)
    }

    fn prefilter(&self) -> (r: Option<&str>) {
        Some(self.from.as_str())
    }

    fn describe(&self) -> (r: String) {
        let mut s = copy_str("js::import \"");
        push_str(&mut s, self.from.as_str());
        push_str(&mut s, "\" -> \"");
        push_str(&mut s, self.to.as_str());
        push_str(&mut s, "\"");
        s
    }
}

/// Remove the statements importing a module.
#[derive(Debug)]
pub struct SpecifierDelete {
    pub target: String,
}

impl Operation for SpecifierDelete {
    open spec fn relevant_spec(&self, path: Seq<char>) -> bool {
        is_js(path)
    }

    open spec fn apply_spec(&self, source: Seq<char>) -> Seq<char> {
        delete_result(self.target@, source)
    }

    open spec fn prefilter_spec(&self) -> Option<Seq<char>> {
        Some(self.target@)
    }

    open spec fn describe_spec(&self) -> Seq<char> {
        "js::import \""@ + self.target@ + "\" -> delete"@
    }

    fn is_file_relevant(&self, path: &str) -> (r: bool) {
        is_js_file(path)
    }

    fn apply(&self, source_code: &str) -> (r: String) {
        delete(self.target.as_str(), source_code)
    }

    fn prefilter(&self) -> (r: Option<&str>) {
        Some(self.target.as_str())
    }

    fn describe(&self) -> (r: String) {
        let mut s = copy_str("js::import \"");
        push_str(&mut s, self.target.as_str());
        push_str(&mut s, "\" -> delete");
        s
    }
}

/// Idempotently add a side-effect import of a module.
#[derive(Debug)]
pub struct SpecifierEnsure {
    pub target: String,
}

impl Operation for SpecifierEnsure {
    open spec fn relevant_spec(&self, path: Seq<char>) -> bool {
        is_js(path)
    }

    open spec fn apply_spec(&self, source: Seq<char>) -> Seq<char> {
        ensure_result(self.target@, source)
    }

    open spec fn prefilter_spec(&self) -> Option<Seq<char>> {
        None
    }

    open spec fn describe_spec(&self) -> Seq<char> {
        "js::import \""@ + self.target@ + "\" -> ensure"@
    }

    fn is_file_relevant(&self, path: &str) -> (r: bool) {
        is_js_file(path)
    }

    fn apply(&self, source_code: &str) -> (r: String) {
        ensure(self.target.as_str(), source_code)
    }

    fn prefilter(&self) -> (r: Option<&str>) {
        None
    }

    fn describe(&self) -> (r: String) {
        let mut s = copy_str("js::import \"");
        push_str(&mut s, self.target.as_str());
        push_str(&mut s, "\" -> ensure");
        s
    }
}

} // verus!

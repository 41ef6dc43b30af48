//! Operations on Java `import` declarations: rename, delete, ensure.
//!
//! The name of an `import_declaration` is its first named child that is
//! a `scoped_identifier` or an `identifier` (so `import static a.B.c;`
//! is named `a.B.c`, and a wildcard import has no name that can match).

use vstd::prelude::*;
use vstd::utf8::*;
use crate::text::{utf8, bytes_of, copy_str, push_str, find_byte_from, find_byte};
use crate::syntax::{
    Grammar, NodeView, SyntaxNode, parsed_syntax, parse_syntax, views, named_children,
    named_children_of, kind_is, named_child_of_kind, idx_is, find_named_child_of_kind, in_range,
    node_bytes, text_is, node_text_is,
};
use crate::edits::{Edit, edit_views, rewritten, rewrite_source, line_start, line_end, line_span, covers_lines, lemma_line_bounds_cover};
use crate::rewrite::{gather, lemma_gather_holds, lemma_gather_single};
use crate::operation::Operation;
use crate::lang_java::{is_java, is_java_file};

verus! {

/// The first of the nodes `cs` that is a (scoped) identifier with valid
/// UTF-8 text.
pub open spec fn first_name(src: Seq<u8>, ns: Seq<NodeView>, cs: Seq<int>) -> Option<int>
    decreases cs.len(),
{
    if cs.len() == 0 {
        None
    } else {
        let k = cs[0];
        if 0 <= k < ns.len() && (ns[k].kind == "scoped_identifier"@ || ns[k].kind == "identifier"@)
            && (match node_bytes(src, ns[k]) { Some(b) => valid_utf8(b), None => false }) {
            Some(k)
        } else {
            first_name(src, ns, cs.drop_first())
        }
    }
}

/// The name node of import declaration `i`.
pub open spec fn import_name(src: Seq<u8>, ns: Seq<NodeView>, i: int) -> Option<int> {
    if 0 <= i < ns.len() && ns[i].named && ns[i].kind == "import_declaration"@ {
        first_name(src, ns, named_children(ns, i))
    } else {
        None
    }
}

/// The name node of node `i` when it is an import of `target`.
pub open spec fn matching_name(src: Seq<u8>, ns: Seq<NodeView>, target: Seq<u8>, i: int) -> Option<int> {
    match import_name(src, ns, i) {
        Some(k) => if text_is(src, ns[k], target) { Some(k) } else { None },
        None => None,
    }
}

fn find_import_name(src: &[u8], nodes: &Vec<SyntaxNode>, i: usize) -> (r: Option<usize>)
    requires
        i < nodes@.len(),
    ensures
        idx_is(r, import_name(src@, views(nodes@), i as int), nodes@.len() as int),
{
    let ghost ns = views(nodes@);
    assert(ns[i as int] == nodes@[i as int]@);
    if !(nodes[i].named && kind_is(nodes, i, "import_declaration")) {
        return None;
    }
    let cs = named_children_of(nodes, i);
    let ghost cv = cs@.map_values(|k: usize| k as int);
    let mut j: usize = 0;
    assert(cv.skip(0) =~= cv);
    while j < cs.len()
        invariant
            ns == views(nodes@),
            cv == cs@.map_values(|k: usize| k as int),
            cv == named_children(ns, i as int),
            import_name(src@, ns, i as int) == first_name(src@, ns, cv),
            j <= cs@.len(),
            forall|q: int| 0 <= q < cs@.len() ==> i < #[trigger] cs@[q] < nodes@.len(),
            first_name(src@, ns, cv) == first_name(src@, ns, cv.skip(j as int)),
        decreases cs@.len() - j,
    {
        let k = cs[j];
        assert(cv.skip(j as int)[0] == k);
        assert(cv.skip(j as int).drop_first() =~= cv.skip(j + 1));
        assert(ns[k as int] == nodes@[k as int]@);
        let n = &nodes[k];
        if (kind_is(nodes, k, "scoped_identifier") || kind_is(nodes, k, "identifier"))
            && n.start <= n.end && n.end <= src.len()
            && crate::text::decode_range(src, n.start, n.end).is_some() {
            return Some(k);
        }
        j = j + 1;
    }
    None
}

fn find_matching_name(src: &[u8], nodes: &Vec<SyntaxNode>, target: &[u8], i: usize) -> (r: Option<usize>)
    requires
        i < nodes@.len(),
    ensures
        idx_is(r, matching_name(src@, views(nodes@), target@, i as int), nodes@.len() as int),
{
    match find_import_name(src, nodes, i) {
        Some(k) => {
            assert(views(nodes@)[k as int] == nodes@[k as int]@);
            if node_text_is(src, &nodes[k], target) { Some(k) } else { None }
        },
        None => None,
    }
}

pub open spec fn rename_at(src: Seq<u8>, ns: Seq<NodeView>, from: Seq<u8>, to: Seq<u8>, i: int) -> Seq<(int, int, Seq<u8>)> {
    match matching_name(src, ns, from, i) {
        Some(k) => seq![(ns[k].start, ns[k].end, to)],
        None => Seq::empty(),
    }
}

pub open spec fn rename_step(src: Seq<u8>, ns: Seq<NodeView>, from: Seq<u8>, to: Seq<u8>) -> spec_fn(int) -> Seq<(int, int, Seq<u8>)> {
    |i: int| rename_at(src, ns, from, to, i)
}

/// The name node found among `cs` is one of them, a (scoped)
/// identifier.
proof fn lemma_first_name(src: Seq<u8>, ns: Seq<NodeView>, cs: Seq<int>)
    ensures
        first_name(src, ns, cs) matches Some(k) ==> cs.contains(k) && 0 <= k < ns.len()
            && (ns[k].kind == "scoped_identifier"@ || ns[k].kind == "identifier"@),
    decreases cs.len(),
{
    if cs.len() > 0 {
        lemma_first_name(src, ns, cs.drop_first());
        if let Some(k) = first_name(src, ns, cs.drop_first()) {
            let a = choose|a: int| 0 <= a < cs.drop_first().len() && cs.drop_first()[a] == k;
            assert(cs[a + 1] == k);
        }
        assert(cs[0] == cs[0]);
    }
}

/// `e` replaces the name of an import with `to`: its span is exactly a
/// (scoped) identifier among the named children of an
/// `import_declaration`, and that name reads `from`.
pub open spec fn renames_an_import(src: Seq<u8>, ns: Seq<NodeView>, from: Seq<u8>, to: Seq<u8>, e: (int, int, Seq<u8>)) -> bool {
    exists|i: int, q: int| #![trigger ns[i], ns[q]]
        0 <= i < ns.len() && ns[i].named && ns[i].kind == "import_declaration"@
        && named_children(ns, i).contains(q) && 0 <= q < ns.len()
        && (ns[q].kind == "scoped_identifier"@ || ns[q].kind == "identifier"@)
        && text_is(src, ns[q], from)
        && e.0 == ns[q].start && e.1 == ns[q].end && e.2 == to
}

/// A rename edits only import names that read `from`, each over the name
/// alone (the `import`, `static` and `.*` around it stay), writing `to`;
/// and every import whose name reads `from` gets that edit.
pub proof fn law_import_rename_edits(src: Seq<u8>, ns: Seq<NodeView>, from: Seq<u8>, to: Seq<u8>)
    ensures
        forall|k: int| 0 <= k < gather(ns.len() as int, rename_step(src, ns, from, to)).len()
            ==> renames_an_import(src, ns, from, to, #[trigger] gather(ns.len() as int, rename_step(src, ns, from, to))[k]),
        forall|i: int, q: int| #![trigger import_name(src, ns, i), ns[q]]
            import_name(src, ns, i) == Some(q) && text_is(src, ns[q], from)
            ==> gather(ns.len() as int, rename_step(src, ns, from, to)).contains((ns[q].start, ns[q].end, to)),
{
    let f = rename_step(src, ns, from, to);
    let n = ns.len() as int;
    assert forall|j: int| 0 <= j < n implies #[trigger] f(j).len() <= 1 by {}
    assert forall|k: int| 0 <= k < gather(n, f).len() implies renames_an_import(src, ns, from, to, #[trigger] gather(n, f)[k]) by {
        let i = lemma_gather_single(n, f, k);
        let q = matching_name(src, ns, from, i)->Some_0;
        lemma_first_name(src, ns, named_children(ns, i));
        assert(ns[i] == ns[i] && ns[q] == ns[q]);
    }
    assert forall|i: int, q: int| #![trigger import_name(src, ns, i), ns[q]]
        import_name(src, ns, i) == Some(q) && text_is(src, ns[q], from)
        implies gather(n, f).contains((ns[q].start, ns[q].end, to)) by {
        assert(0 <= i < n);
        assert(f(i)[0] == (ns[q].start, ns[q].end, to));
        lemma_gather_holds(n, f, i, 0);
    }
}

/// The source with the name of every import of `from` replaced by `to`.
pub open spec fn rename_result(from: Seq<char>, to: Seq<char>, source: Seq<char>) -> Seq<char> {
    match parsed_syntax(Grammar::Java, source) {
        Some(ns) => rewritten(source, gather(ns.len() as int, rename_step(utf8(source), ns, utf8(from), utf8(to)))),
        None => source,
    }
}

/// Rename every import whose name is exactly `from` to `to`.
pub fn rename(from: &str, to: &str, source_code: &str) -> (r: String)
    ensures
        r@ == rename_result(from@, to@, source_code@),
{
    let nodes = match parse_syntax(Grammar::Java, source_code) {
        Some(n) => n,
        None => return copy_str(source_code),
    };
    let src = source_code.as_bytes();
    let target = from.as_bytes();
    let text = bytes_of(to);
    let ghost ns = views(nodes@);
    let ghost step = rename_step(src@, ns, target@, text@);
    let mut edits: Vec<Edit> = Vec::new();
    let mut i: usize = 0;
    while i < nodes.len()
        invariant
            ns == views(nodes@),
            step == rename_step(src@, ns, target@, text@),
            i <= nodes@.len(),
            edit_views(edits@) == gather(i as int, step),
        decreases nodes@.len() - i,
    {
        assert(step(i as int) == rename_at(src@, ns, target@, text@, i as int));
        match find_matching_name(src, &nodes, target, i) {
            Some(k) => {
                assert(ns[k as int] == nodes@[k as int]@);
                edits.push(Edit { start: nodes[k].start, end: nodes[k].end, text: crate::edits::copy_bytes(&text) });
            },
            None => {},
        }
        assert(edit_views(edits@) =~= gather(i as int + 1, step));
        i = i + 1;
    }
    rewrite_source(source_code, &edits)
}

pub open spec fn delete_at(src: Seq<u8>, ns: Seq<NodeView>, target: Seq<u8>, i: int) -> Seq<(int, int, Seq<u8>)> {
    if matching_name(src, ns, target, i) is Some && in_range(src, ns[i]) {
        seq![(line_start(src, ns[i].start), line_end(src, ns[i].end), Seq::<u8>::empty())]
    } else {
        Seq::empty()
    }
}

pub open spec fn delete_step(src: Seq<u8>, ns: Seq<NodeView>, target: Seq<u8>) -> spec_fn(int) -> Seq<(int, int, Seq<u8>)> {
    |i: int| delete_at(src, ns, target, i)
}

/// The source without the lines of the imports of `target`.
/// `e` erases the lines of an import of `target`: exactly the whole lines
/// the statement touches, and nothing is written instead.
pub open spec fn erases_a_match(src: Seq<u8>, ns: Seq<NodeView>, target: Seq<u8>, e: (int, int, Seq<u8>)) -> bool {
    exists|i: int| #[trigger] matching_name(src, ns, target, i) is Some
        && covers_lines(src, e.0, e.1, ns[i].start, ns[i].end) && e.2.len() == 0
}

/// A delete erases only the lines of imports of `target` (other lines
/// stay), and every such statement lying inside the text has its lines
/// erased.
pub proof fn law_delete_edits(src: Seq<u8>, ns: Seq<NodeView>, target: Seq<u8>)
    ensures
        forall|k: int| 0 <= k < gather(ns.len() as int, delete_step(src, ns, target)).len()
            ==> erases_a_match(src, ns, target, #[trigger] gather(ns.len() as int, delete_step(src, ns, target))[k]),
        forall|i: int| #[trigger] matching_name(src, ns, target, i) is Some && in_range(src, ns[i])
            ==> exists|k: int| 0 <= k < gather(ns.len() as int, delete_step(src, ns, target)).len()
                && covers_lines(src, (#[trigger] gather(ns.len() as int, delete_step(src, ns, target))[k]).0,
                    gather(ns.len() as int, delete_step(src, ns, target))[k].1, ns[i].start, ns[i].end),
{
    let f = delete_step(src, ns, target);
    let n = ns.len() as int;
    assert forall|j: int| 0 <= j < n implies #[trigger] f(j).len() <= 1 by {}
    assert forall|k: int| 0 <= k < gather(n, f).len()
        implies erases_a_match(src, ns, target, #[trigger] gather(n, f)[k]) by {
        let i = lemma_gather_single(n, f, k);
        lemma_line_bounds_cover(src, ns[i].start, ns[i].end);
    }
    assert forall|i: int| #[trigger] matching_name(src, ns, target, i) is Some && in_range(src, ns[i])
        implies exists|k: int| 0 <= k < gather(n, f).len()
            && covers_lines(src, (#[trigger] gather(n, f)[k]).0, gather(n, f)[k].1, ns[i].start, ns[i].end) by {
        lemma_line_bounds_cover(src, ns[i].start, ns[i].end);
        assert(f(i).len() == 1);
        lemma_gather_holds(n, f, i, 0);
    }
}

pub open spec fn delete_result(target: Seq<char>, source: Seq<char>) -> Seq<char> {
    match parsed_syntax(Grammar::Java, source) {
        Some(ns) => rewritten(source, gather(ns.len() as int, delete_step(utf8(source), ns, utf8(target)))),
        None => source,
    }
}

/// Remove every import of `target`, erasing the lines it spans.
pub fn delete(target: &str, source_code: &str) -> (r: String)
    ensures
        r@ == delete_result(target@, source_code@),
{
    let nodes = match parse_syntax(Grammar::Java, source_code) {
        Some(n) => n,
        None => return copy_str(source_code),
    };
    let src = source_code.as_bytes();
    let t = target.as_bytes();
    let ghost ns = views(nodes@);
    let ghost step = delete_step(src@, ns, t@);
    let mut edits: Vec<Edit> = Vec::new();
    let mut i: usize = 0;
    while i < nodes.len()
        invariant
            ns == views(nodes@),
            step == delete_step(src@, ns, t@),
            i <= nodes@.len(),
            edit_views(edits@) == gather(i as int, step),
        decreases nodes@.len() - i,
    {
        assert(step(i as int) == delete_at(src@, ns, t@, i as int));
        assert(ns[i as int] == nodes@[i as int]@);
        let m = find_matching_name(src, &nodes, t, i);
        if m.is_some() && nodes[i].start <= nodes[i].end && nodes[i].end <= src.len() {
            let (ls, le) = line_span(src, nodes[i].start, nodes[i].end);
            edits.push(Edit { start: ls, end: le, text: Vec::new() });
        }
        assert(edit_views(edits@) =~= gather(i as int + 1, step));
        i = i + 1;
    }
    rewrite_source(source_code, &edits)
}

/// Some import is named `target`.
pub open spec fn any_import(src: Seq<u8>, ns: Seq<NodeView>, target: Seq<u8>) -> bool {
    exists|i: int| 0 <= i < ns.len() && (#[trigger] matching_name(src, ns, target, i)) is Some
}

/// Just past the newline that ends the package declaration, or its end,
/// or the top of the file when there is none.
pub open spec fn insertion_point(src: Seq<u8>, ns: Seq<NodeView>) -> int {
    match named_child_of_kind(ns, 0, "package_declaration"@) {
        Some(c) => match find_byte_from(src, 10u8, ns[c].end) {
            Some(p) => p + 1,
            None => ns[c].end,
        },
        None => 0,
    }
}

/// The line `ensure` inserts.
pub open spec fn import_line(target: Seq<char>) -> Seq<char> {
    "\nimport "@ + target + ";\n"@
}

/// Ensuring: a file that already has an import of `target` is left exactly as it
/// is; otherwise one line is inserted at a single place, nothing removed,
/// and it reads as the directive for `target`.
pub proof fn law_ensure_adds_one_line_or_nothing(target: Seq<char>, source: Seq<char>, ns: Seq<NodeView>)
    ensures
        (exists|i: int| 0 <= i < ns.len() && (#[trigger] matching_name(utf8(source), ns, utf8(target), i)) is Some)
            ==> ensure_over(target, source, ns) == source,
        !(exists|i: int| 0 <= i < ns.len() && (#[trigger] matching_name(utf8(source), ns, utf8(target), i)) is Some)
            ==> exists|pos: int| ensure_over(target, source, ns)
                == #[trigger] rewritten(source, seq![(pos, pos, utf8("\nimport "@ + target + ";\n"@))]),
{
    let pos = insertion_point(utf8(source), ns);
    assert(ensure_over(target, source, ns) == source
        || ensure_over(target, source, ns) == rewritten(source, seq![(pos, pos, utf8("\nimport "@ + target + ";\n"@))]));
}

pub open spec fn ensure_over(target: Seq<char>, source: Seq<char>, ns: Seq<NodeView>) -> Seq<char> {
    let src = utf8(source);
    if any_import(src, ns, utf8(target)) {
        source
    } else {
        let pos = insertion_point(src, ns);
        rewritten(source, seq![(pos, pos, utf8(import_line(target)))])
    }
}

pub open spec fn ensure_result(target: Seq<char>, source: Seq<char>) -> Seq<char> {
    match parsed_syntax(Grammar::Java, source) {
        Some(ns) => ensure_over(target, source, ns),
        None => source,
    }
}

/// When no import is named `target`, insert `import <target>;` after
/// the package declaration (at the top when there is none).
pub fn ensure(target: &str, source_code: &str) -> (r: String)
    ensures
        r@ == ensure_result(target@, source_code@),
{
    let nodes = match parse_syntax(Grammar::Java, source_code) {
        Some(n) => n,
        None => return copy_str(source_code),
    };
    let src = source_code.as_bytes();
    let t = target.as_bytes();
    let n = src.len();
    let ghost ns = views(nodes@);
    let mut i: usize = 0;
    while i < nodes.len()
        invariant
            ns == views(nodes@),
            parsed_syntax(Grammar::Java, source_code@) == Some(ns),
            src@ == utf8(source_code@),
            t@ == utf8(target@),
            i <= nodes@.len(),
            forall|k: int| 0 <= k < i ==> (#[trigger] matching_name(src@, ns, t@, k)) is None,
        decreases nodes@.len() - i,
    {
        if find_matching_name(src, &nodes, t, i).is_some() {
            return copy_str(source_code);
        }
        i = i + 1;
    }
    let pos = match find_named_child_of_kind(&nodes, 0, "package_declaration") {
        Some(c) => {
            assert(ns[c as int] == nodes@[c as int]@);
            let end = nodes[c].end;
            proof {
                crate::text::lemma_find_byte_bounds(src@, 10u8, end as int);
            }
            match find_byte(src, 10u8, end) {
                Some(p) => p + 1,
                None => end,
            }
        },
        None => 0,
    };
    let mut line = copy_str("\nimport ");
    push_str(&mut line, target);
    push_str(&mut line, ";\n");
    let mut edits: Vec<Edit> = Vec::new();
    edits.push(Edit { start: pos, end: pos, text: bytes_of(line.as_str()) });
    assert(edit_views(edits@) =~= seq![(pos as int, pos as int, utf8(import_line(target@)))]);
    rewrite_source(source_code, &edits)
}

/// Rename Java imports named `from` to `to`.
#[derive(Debug)]
pub struct ImportRename {
    pub from: String,
    pub to: String,
}

impl Operation for ImportRename {
    open spec fn relevant_spec(&self, path: Seq<char>) -> bool {
        is_java(path)
    }

    open spec fn apply_spec(&self, source: Seq<char>) -> Seq<char> {
        rename_result(self.from@, self.to@, source)
    }

    open spec fn prefilter_spec(&self) -> Option<Seq<char>> {
        None
    }

    open spec fn describe_spec(&self) -> Seq<char> {
        "java::import \""@ + self.from@ + "\" -> \""@ + self.to@ + "\""@
    }

    fn is_file_relevant(&self, path: &str) -> (r: bool) {
        is_java_file(path)
    }

    fn apply(&self, source_code: &str) -> (r: String) {
        rename(self.from.as_str(), self.to.as_str(), source_code)
    }

    fn prefilter(&self) -> (r: Option<&str>) {
        None
    }

    fn describe(&self) -> (r: String) {
        let mut s = copy_str("java::import \"");
        push_str(&mut s, self.from.as_str());
        push_str(&mut s, "\" -> \"");
        push_str(&mut s, self.to.as_str());
        push_str(&mut s, "\"");
        s
    }
}

/// Remove Java imports with a matching name.
#[derive(Debug)]
pub struct ImportDelete {
    pub target: String,
}

impl Operation for ImportDelete {
    open spec fn relevant_spec(&self, path: Seq<char>) -> bool {
        is_java(path)
    }

    open spec fn apply_spec(&self, source: Seq<char>) -> Seq<char> {
        delete_result(self.target@, source)
    }

    open spec fn prefilter_spec(&self) -> Option<Seq<char>> {
        None
    }

    open spec fn describe_spec(&self) -> Seq<char> {
        "java::import \""@ + self.target@ + "\" -> delete"@
    }

    fn is_file_relevant(&self, path: &str) -> (r: bool) {
        is_java_file(path)
    }

    fn apply(&self, source_code: &str) -> (r: String) {
        delete(self.target.as_str(), source_code)
    }

    fn prefilter(&self) -> (r: Option<&str>) {
        None
    }

    fn describe(&self) -> (r: String) {
        let mut s = copy_str("java::import \"");
        push_str(&mut s, self.target.as_str());
        push_str(&mut s, "\" -> delete");
        s
    }
}

/// Idempotently add a Java import if it is missing.
#[derive(Debug)]
pub struct ImportEnsure {
    pub target: String,
}

impl Operation for ImportEnsure {
    open spec fn relevant_spec(&self, path: Seq<char>) -> bool {
        is_java(path)
    }

    open spec fn apply_spec(&self, source: Seq<char>) -> Seq<char> {
        ensure_result(self.target@, source)
    }

    open spec fn prefilter_spec(&self) -> Option<Seq<char>> {
        None
    }

    open spec fn describe_spec(&self) -> Seq<char> {
        "java::import \""@ + self.target@ + "\" -> ensure"@
    }

    fn is_file_relevant(&self, path: &str) -> (r: bool) {
        is_java_file(path)
    }

    fn apply(&self, source_code: &str) -> (r: String) {
        ensure(self.target.as_str(), source_code)
    }

    fn prefilter(&self) -> (r: Option<&str>) {
        None
    }

    fn describe(&self) -> (r: String) {
        let mut s = copy_str("java::import \"");
        push_str(&mut s, self.target.as_str());
        push_str(&mut s, "\" -> ensure");
        s
    }
}

} // verus!

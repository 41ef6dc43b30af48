//! Operations on Go `import` declarations: rename, delete, ensure.
//!
//! All three look for `import_spec` nodes whose `path`, with its quotes
//! trimmed, equals the target exactly.

use vstd::prelude::*;
use crate::text::{utf8, bytes_of, copy_str, push_str, concat2, find_byte_from, find_byte};
use crate::syntax::{
    Grammar, NodeView, SyntaxNode, parsed_syntax, parse_syntax, views, field_child, child_by_field,
    kind_is, named_child_of_kind, idx_is, find_named_child_of_kind, opt_usize, in_range,
};
use crate::edits::{Edit, edit_views, rewritten, rewrite_source, line_start, line_end, line_span, copy_bytes, covers_lines, lemma_line_bounds_cover};
use crate::rewrite::{gather, opt_seq, trimmed_text_is, node_trimmed_text_is, lemma_gather_holds, lemma_gather_from, lemma_gather_single};
use crate::paths::{has_extension, has_ext};
use crate::operation::Operation;

verus! {

/// The `path` child of node `i` when `i` is an `import_spec` whose path,
/// without quotes, is `target`.
pub open spec fn matching_path(src: Seq<u8>, ns: Seq<NodeView>, target: Seq<u8>, i: int) -> Option<int> {
    if 0 <= i < ns.len() && ns[i].named && ns[i].kind == "import_spec"@ {
        match field_child(ns, i, "path"@) {
            Some(p) => if trimmed_text_is(src, ns[p], 34u8, target) { Some(p) } else { None },
            None => None,
        }
    } else {
        None
    }
}

fn find_matching_path(src: &[u8], nodes: &Vec<SyntaxNode>, target: &[u8], i: usize) -> (r: Option<usize>)
    requires
        i < nodes@.len(),
    ensures
        idx_is(r, matching_path(src@, views(nodes@), target@, i as int), nodes@.len() as int),
{
    assert(views(nodes@)[i as int] == nodes@[i as int]@);
    if nodes[i].named && kind_is(nodes, i, "import_spec") {
        match child_by_field(nodes, i, "path") {
            Some(p) => {
                assert(views(nodes@)[p as int] == nodes@[p as int]@);
                if node_trimmed_text_is(src, &nodes[p], 34u8, target) {
                    Some(p)
                } else {
                    None
                }
            },
            None => None,
        }
    } else {
        None
    }
}

/// `"to"`, quoted.
pub open spec fn quoted(to: Seq<char>) -> Seq<u8> {
    seq![34u8] + utf8(to) + seq![34u8]
}

pub open spec fn rename_at(src: Seq<u8>, ns: Seq<NodeView>, from: Seq<u8>, to: Seq<char>, i: int) -> Seq<(int, int, Seq<u8>)> {
    match matching_path(src, ns, from, i) {
        Some(p) => seq![(ns[p].start, ns[p].end, quoted(to))],
        None => Seq::empty(),
    }
}

pub open spec fn rename_step(src: Seq<u8>, ns: Seq<NodeView>, from: Seq<u8>, to: Seq<char>) -> spec_fn(int) -> Seq<(int, int, Seq<u8>)> {
    |i: int| rename_at(src, ns, from, to, i)
}

/// One edit per matching import: its path replaced by `"to"`.
pub open spec fn rename_edits(src: Seq<u8>, ns: Seq<NodeView>, from: Seq<u8>, to: Seq<char>) -> Seq<(int, int, Seq<u8>)> {
    gather(ns.len() as int, rename_step(src, ns, from, to))
}

/// The source with every import whose path is `from` renamed to `to`.
pub open spec fn rename_result(from: Seq<char>, to: Seq<char>, source: Seq<char>) -> Seq<char> {
    match parsed_syntax(Grammar::Go, source) {
        Some(ns) => rewritten(source, rename_edits(utf8(source), ns, utf8(from), to)),
        None => source,
    }
}

/// An import of `from`: node `i` is an `import_spec` whose `path` child
/// `p`, without its quotes, reads `from`.
pub open spec fn imports_path(src: Seq<u8>, ns: Seq<NodeView>, from: Seq<u8>, i: int, p: int) -> bool {
    &&& 0 <= i < ns.len() && ns[i].named && ns[i].kind == "import_spec"@
    &&& field_child(ns, i, "path"@) == Some(p)
    &&& trimmed_text_is(src, ns[p], 34u8, from)
}

/// `e` replaces the path literal of an import of `from` with `"to"`.
pub open spec fn renames_an_import(src: Seq<u8>, ns: Seq<NodeView>, from: Seq<u8>, to: Seq<char>, e: (int, int, Seq<u8>)) -> bool {
    exists|i: int, p: int| #[trigger] imports_path(src, ns, from, i, p)
        && e.0 == ns[p].start && e.1 == ns[p].end && e.2 == seq![34u8] + utf8(to) + seq![34u8]
}

/// A rename edits exactly the path literals of the imports whose path,
/// without its quotes, is `from`: each edit spans the whole literal (the
/// `path` child of an `import_spec`) and writes `"to"`, so an alias and
/// all text outside the literal stay as they were.
pub proof fn law_import_rename_edits(src: Seq<u8>, ns: Seq<NodeView>, from: Seq<u8>, to: Seq<char>)
    ensures
        forall|i: int, p: int| #[trigger] imports_path(src, ns, from, i, p)
            ==> rename_edits(src, ns, from, to).contains((ns[p].start, ns[p].end, seq![34u8] + utf8(to) + seq![34u8])),
        forall|k: int| 0 <= k < rename_edits(src, ns, from, to).len()
            ==> renames_an_import(src, ns, from, to, #[trigger] rename_edits(src, ns, from, to)[k]),
{
    let f = rename_step(src, ns, from, to);
    assert forall|i: int, p: int| #[trigger] imports_path(src, ns, from, i, p)
        implies rename_edits(src, ns, from, to).contains((ns[p].start, ns[p].end, seq![34u8] + utf8(to) + seq![34u8])) by {
        assert(f(i)[0] == (ns[p].start, ns[p].end, quoted(to)));
        lemma_gather_holds(ns.len() as int, f, i, 0);
    }
    assert forall|k: int| 0 <= k < rename_edits(src, ns, from, to).len()
        implies renames_an_import(src, ns, from, to, #[trigger] rename_edits(src, ns, from, to)[k]) by {
        lemma_gather_from(ns.len() as int, f, k);
        let (j, m) = choose|j: int, m: int| 0 <= j < ns.len() && 0 <= m < f(j).len()
            && gather(ns.len() as int, f)[k] == #[trigger] f(j)[m];
        assert(f(j).len() > 0);
        assert(matching_path(src, ns, from, j) is Some);
        let p = matching_path(src, ns, from, j)->Some_0;
        assert(imports_path(src, ns, from, j, p));
        assert(rename_edits(src, ns, from, to)[k] == (ns[p].start, ns[p].end, quoted(to)));
    }
}

/// Rename imports over an already parsed tree.
pub fn rename_nodes(from: &str, to: &str, source_code: &str, nodes: &Vec<SyntaxNode>) -> (r: String)
    ensures
        r@ == rewritten(source_code@, rename_edits(utf8(source_code@), views(nodes@), utf8(from@), to@)),
{
    let src = source_code.as_bytes();
    let target = from.as_bytes();
    let ghost ns = views(nodes@);
    let ghost step = rename_step(src@, ns, target@, to@);
    let mut text: Vec<u8> = Vec::new();
    text.push(34u8);
    crate::text::push_all(&mut text, to.as_bytes());
    text.push(34u8);
    assert(text@ =~= quoted(to@));
    let mut edits: Vec<Edit> = Vec::new();
    let mut i: usize = 0;
    while i < nodes.len()
        invariant
            ns == views(nodes@),
            step == rename_step(src@, ns, target@, to@),
            src@ == utf8(source_code@),
            target@ == utf8(from@),
            text@ == quoted(to@),
            i <= nodes@.len(),
            edit_views(edits@) == gather(i as int, step),
        decreases nodes@.len() - i,
    {
        assert(step(i as int) == rename_at(src@, ns, target@, to@, i as int));
        match find_matching_path(src, nodes, target, i) {
            Some(p) => {
                assert(ns[p as int] == nodes@[p as int]@);
                edits.push(Edit { start: nodes[p].start, end: nodes[p].end, text: copy_bytes(&text) });
            },
            None => {},
        }
        assert(edit_views(edits@) =~= gather(i as int + 1, step));
        i = i + 1;
    }
    rewrite_source(source_code, &edits)
}

/// Replace every Go import whose path equals `from` with `to`. Returns
/// the source unchanged when nothing matches.
pub fn rename(from: &str, to: &str, source_code: &str) -> (r: String)
    ensures
        r@ == rename_result(from@, to@, source_code@),
{
    match parse_syntax(Grammar::Go, source_code) {
        Some(nodes) => rename_nodes(from, to, source_code, &nodes),
        None => copy_str(source_code),
    }
}

pub open spec fn delete_at(src: Seq<u8>, ns: Seq<NodeView>, target: Seq<u8>, i: int) -> Seq<(int, int, Seq<u8>)> {
    if matching_path(src, ns, target, i) is Some && in_range(src, ns[i]) {
        seq![(line_start(src, ns[i].start), line_end(src, ns[i].end), Seq::<u8>::empty())]
    } else {
        Seq::empty()
    }
}

pub open spec fn delete_step(src: Seq<u8>, ns: Seq<NodeView>, target: Seq<u8>) -> spec_fn(int) -> Seq<(int, int, Seq<u8>)> {
    |i: int| delete_at(src, ns, target, i)
}

/// One edit per matching import: the lines it spans, erased.
pub open spec fn delete_edits(src: Seq<u8>, ns: Seq<NodeView>, target: Seq<u8>) -> Seq<(int, int, Seq<u8>)> {
    gather(ns.len() as int, delete_step(src, ns, target))
}

/// `e` erases the lines of an import of `target`: exactly the whole
/// lines its `import_spec` touches, and nothing is written instead.
pub open spec fn erases_an_import(src: Seq<u8>, ns: Seq<NodeView>, target: Seq<u8>, e: (int, int, Seq<u8>)) -> bool {
    exists|i: int, p: int| #[trigger] imports_path(src, ns, target, i, p)
        && covers_lines(src, e.0, e.1, ns[i].start, ns[i].end) && e.2.len() == 0
}

/// A delete erases only the lines of imports of `target` (other imports
/// on other lines, the `import (...)` block and the rest of the file
/// stay), and every import of `target` lying inside the text has its
/// lines erased.
pub proof fn law_import_delete_edits(src: Seq<u8>, ns: Seq<NodeView>, target: Seq<u8>)
    ensures
        forall|k: int| 0 <= k < delete_edits(src, ns, target).len()
            ==> erases_an_import(src, ns, target, #[trigger] delete_edits(src, ns, target)[k]),
        forall|i: int, p: int| #[trigger] imports_path(src, ns, target, i, p) && in_range(src, ns[i])
            ==> exists|k: int| 0 <= k < delete_edits(src, ns, target).len()
                && covers_lines(src, (#[trigger] delete_edits(src, ns, target)[k]).0, delete_edits(src, ns, target)[k].1, ns[i].start, ns[i].end),
{
    let f = delete_step(src, ns, target);
    let n = ns.len() as int;
    assert forall|j: int| 0 <= j < n implies #[trigger] f(j).len() <= 1 by {}
    assert forall|k: int| 0 <= k < delete_edits(src, ns, target).len()
        implies erases_an_import(src, ns, target, #[trigger] delete_edits(src, ns, target)[k]) by {
        let i = lemma_gather_single(n, f, k);
        let p = matching_path(src, ns, target, i)->Some_0;
        assert(imports_path(src, ns, target, i, p));
        lemma_line_bounds_cover(src, ns[i].start, ns[i].end);
    }
    assert forall|i: int, p: int| #[trigger] imports_path(src, ns, target, i, p) && in_range(src, ns[i])
        implies exists|k: int| 0 <= k < delete_edits(src, ns, target).len()
            && covers_lines(src, (#[trigger] delete_edits(src, ns, target)[k]).0, delete_edits(src, ns, target)[k].1, ns[i].start, ns[i].end) by {
        lemma_line_bounds_cover(src, ns[i].start, ns[i].end);
        assert(f(i).len() == 1);
        lemma_gather_holds(n, f, i, 0);
        let k = choose|k: int| 0 <= k < gather(n, f).len() && #[trigger] gather(n, f)[k] == f(i)[0];
        assert(delete_edits(src, ns, target)[k] == f(i)[0]);
    }
}

pub open spec fn delete_result(target: Seq<char>, source: Seq<char>) -> Seq<char> {
    match parsed_syntax(Grammar::Go, source) {
        Some(ns) => rewritten(source, delete_edits(utf8(source), ns, utf8(target))),
        None => source,
    }
}

/// Erase the lines of matching imports, over an already parsed tree.
pub fn delete_nodes(target: &str, source_code: &str, nodes: &Vec<SyntaxNode>) -> (r: String)
    ensures
        r@ == rewritten(source_code@, delete_edits(utf8(source_code@), views(nodes@), utf8(target@))),
{
    let src = source_code.as_bytes();
    let t = target.as_bytes();
    let ghost ns = views(nodes@);
    let ghost step = delete_step(src@, ns, t@);
    let mut edits: Vec<Edit> = Vec::new();
    let mut i: usize = 0;
    while i < nodes.len()
        invariant
            ns == views(nodes@),
            step == delete_step(src@, ns, t@),
            src@ == utf8(source_code@),
            t@ == utf8(target@),
            i <= nodes@.len(),
            edit_views(edits@) == gather(i as int, step),
        decreases nodes@.len() - i,
    {
        assert(step(i as int) == delete_at(src@, ns, t@, i as int));
        assert(ns[i as int] == nodes@[i as int]@);
        let m = find_matching_path(src, nodes, t, i);
        if m.is_some() && nodes[i].start <= nodes[i].end && nodes[i].end <= src.len() {
            let (ls, le) = line_span(src, nodes[i].start, nodes[i].end);
            edits.push(Edit { start: ls, end: le, text: Vec::new() });
        }
        assert(edit_views(edits@) =~= gather(i as int + 1, step));
        i = i + 1;
    }
    rewrite_source(source_code, &edits)
}

/// Remove every Go import whose path equals `target`, erasing the lines
/// the `import_spec` lives on.
pub fn delete(target: &str, source_code: &str) -> (r: String)
    ensures
        r@ == delete_result(target@, source_code@),
{
    match parse_syntax(Grammar::Go, source_code) {
        Some(nodes) => delete_nodes(target, source_code, &nodes),
        None => copy_str(source_code),
    }
}

/// Some import's path is `target`.
pub open spec fn any_import(src: Seq<u8>, ns: Seq<NodeView>, target: Seq<u8>) -> bool {
    exists|i: int| 0 <= i < ns.len() && (#[trigger] matching_path(src, ns, target, i)) is Some
}

/// Just past the newline that ends the package clause, or the clause's
/// end, or the top of the file when there is no package clause.
pub open spec fn insertion_point(src: Seq<u8>, ns: Seq<NodeView>) -> int {
    match named_child_of_kind(ns, 0, "package_clause"@) {
        Some(c) => match find_byte_from(src, 10u8, ns[c].end) {
            Some(p) => p + 1,
            None => ns[c].end,
        },
        None => 0,
    }
}

/// The line `ensure` inserts.
pub open spec fn import_line(target: Seq<char>) -> Seq<char> {
    "\nimport \""@ + target + "\"\n"@
}

/// Ensuring: a file that already has an import of `target` is left exactly as it
/// is; otherwise one line is inserted at a single place, nothing removed,
/// and it reads as the directive for `target`.
pub proof fn law_ensure_adds_one_line_or_nothing(target: Seq<char>, source: Seq<char>, ns: Seq<NodeView>)
    ensures
        (exists|i: int| 0 <= i < ns.len() && (#[trigger] matching_path(utf8(source), ns, utf8(target), i)) is Some)
            ==> ensure_over(target, source, ns) == source,
        !(exists|i: int| 0 <= i < ns.len() && (#[trigger] matching_path(utf8(source), ns, utf8(target), i)) is Some)
            ==> exists|pos: int| ensure_over(target, source, ns)
                == #[trigger] rewritten(source, seq![(pos, pos, utf8("\nimport \""@ + target + "\"\n"@))]),
{
    let pos = insertion_point(utf8(source), ns);
    assert(ensure_over(target, source, ns) == source
        || ensure_over(target, source, ns) == rewritten(source, seq![(pos, pos, utf8("\nimport \""@ + target + "\"\n"@))]));
}

pub open spec fn ensure_over(target: Seq<char>, source: Seq<char>, ns: Seq<NodeView>) -> Seq<char> {
    let src = utf8(source);
    if any_import(src, ns, utf8(target)) {
        source
    } else {
        let pos = insertion_point(src, ns);
        rewritten(source, seq![(pos, pos, utf8(import_line(target)))])
    }
}

pub open spec fn ensure_result(target: Seq<char>, source: Seq<char>) -> Seq<char> {
    match parsed_syntax(Grammar::Go, source) {
        Some(ns) => ensure_over(target, source, ns),
        None => source,
    }
}

/// Ensure the import over an already parsed tree.
pub fn ensure_nodes(target: &str, source_code: &str, nodes: &Vec<SyntaxNode>) -> (r: String)
    ensures
        r@ == ensure_over(target@, source_code@, views(nodes@)),
{
    let src = source_code.as_bytes();
    let t = target.as_bytes();
    let ghost ns = views(nodes@);
    let mut i: usize = 0;
    while i < nodes.len()
        invariant
            ns == views(nodes@),
            src@ == utf8(source_code@),
            t@ == utf8(target@),
            i <= nodes@.len(),
            forall|k: int| 0 <= k < i ==> (#[trigger] matching_path(src@, ns, t@, k)) is None,
        decreases nodes@.len() - i,
    {
        if find_matching_path(src, nodes, t, i).is_some() {
            return copy_str(source_code);
        }
        i = i + 1;
    }
    let n = src.len();
    let pos = match find_named_child_of_kind(nodes, 0, "package_clause") {
        Some(c) => {
            assert(ns[c as int] == nodes@[c as int]@);
            let end = nodes[c].end;
            proof {
                crate::text::lemma_find_byte_bounds(src@, 10u8, end as int);
            }
            match find_byte(src, 10u8, end) {
                Some(p) => p + 1,
                None => end,
            }
        },
        None => 0,
    };
    let mut line = copy_str("\nimport \"");
    push_str(&mut line, target);
    push_str(&mut line, "\"\n");
    let mut edits: Vec<Edit> = Vec::new();
    edits.push(Edit { start: pos, end: pos, text: bytes_of(line.as_str()) });
    assert(edit_views(edits@) =~= seq![(pos as int, pos as int, utf8(import_line(target@)))]);
    rewrite_source(source_code, &edits)
}

/// Idempotently add `target` as a Go import: when no import already
/// names it, insert `import "<target>"` on its own line after the
/// package clause (at the top when there is none).
pub fn ensure(target: &str, source_code: &str) -> (r: String)
    ensures
        r@ == ensure_result(target@, source_code@),
{
    match parse_syntax(Grammar::Go, source_code) {
        Some(nodes) => ensure_nodes(target, source_code, &nodes),
        None => copy_str(source_code),
    }
}

/// A file is a Go file by its `.go` extension.
pub open spec fn is_go(path: Seq<char>) -> bool {
    has_extension(path, "go"@)
}

pub fn is_go_file(path: &str) -> (r: bool)
    ensures
        r == is_go(path@),
{
    has_ext(path, "go")
}

/// Rename Go import paths equal to `from` to `to`.
#[derive(Debug, Clone)]
pub struct ImportRename {
    pub from: String,
    pub to: String,
}

impl Operation for ImportRename {
    open spec fn relevant_spec(&self, path: Seq<char>) -> bool {
        is_go(path)
    }

    open spec fn apply_spec(&self, source: Seq<char>) -> Seq<char> {
        rename_result(self.from@, self.to@, source)
    }

    open spec fn prefilter_spec(&self) -> Option<Seq<char>> {
        None
    }

    open spec fn describe_spec(&self) -> Seq<char> {
        "go::import \""@ + self.from@ + "\" -> \""@ + self.to@ + "\""@
    }

    fn is_file_relevant(&self, path: &str) -> (r: bool) {
        is_go_file(path)
    }

    fn apply(&self, source_code: &str) -> (r: String) {
        rename(self.from.as_str(), self.to.as_str(), source_code)
    }

    fn prefilter(&self) -> (r: Option<&str>) {
        None
    }

    fn describe(&self) -> (r: String) {
        let mut s = copy_str("go::import \"");
        push_str(&mut s, self.from.as_str());
        push_str(&mut s, "\" -> \"");
        push_str(&mut s, self.to.as_str());
        push_str(&mut s, "\"");
        s
    }
}

/// Remove Go imports with a matching path.
#[derive(Debug, Clone)]
pub struct ImportDelete {
    pub target: String,
}

impl Operation for ImportDelete {
    open spec fn relevant_spec(&self, path: Seq<char>) -> bool {
        is_go(path)
    }

    open spec fn apply_spec(&self, source: Seq<char>) -> Seq<char> {
        delete_result(self.target@, source)
    }

    open spec fn prefilter_spec(&self) -> Option<Seq<char>> {
        None
    }

    open spec fn describe_spec(&self) -> Seq<char> {
        "go::import \""@ + self.target@ + "\" -> delete"@
    }

    fn is_file_relevant(&self, path: &str) -> (r: bool) {
        is_go_file(path)
    }

    fn apply(&self, source_code: &str) -> (r: String) {
        delete(self.target.as_str(), source_code)
    }

    fn prefilter(&self) -> (r: Option<&str>) {
        None
    }

    fn describe(&self) -> (r: String) {
        let mut s = copy_str("go::import \"");
        push_str(&mut s, self.target.as_str());
        push_str(&mut s, "\" -> delete");
        s
    }
}

/// Idempotently add a Go import if it is missing.
#[derive(Debug, Clone)]
pub struct ImportEnsure {
    pub target: String,
}

impl Operation for ImportEnsure {
    open spec fn relevant_spec(&self, path: Seq<char>) -> bool {
        is_go(path)
    }

    open spec fn apply_spec(&self, source: Seq<char>) -> Seq<char> {
        ensure_result(self.target@, source)
    }

    open spec fn prefilter_spec(&self) -> Option<Seq<char>> {
        None
    }

    open spec fn describe_spec(&self) -> Seq<char> {
        "go::import \""@ + self.target@ + "\" -> ensure"@
    }

    fn is_file_relevant(&self, path: &str) -> (r: bool) {
        is_go_file(path)
    }

    fn apply(&self, source_code: &str) -> (r: String) {
        ensure(self.target.as_str(), source_code)
    }

    fn prefilter(&self) -> (r: Option<&str>) {
        None
    }

    fn describe(&self) -> (r: String) {
        let mut s = copy_str("go::import \"");
        push_str(&mut s, self.target.as_str());
        push_str(&mut s, "\" -> ensure");
        s
    }
}

} // verus!

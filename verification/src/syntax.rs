//! Syntax trees, read from tree-sitter into plain values.
//!
//! A tree is flattened into its nodes in pre-order (the order a
//! depth-first walk visits them), each carrying its kind, byte range,
//! depth below the root and the field name it has in its parent. Every
//! question the rewrites ask of a tree is answered from that list.

use vstd::prelude::*;
use crate::text::{bytes_at, str_eq};

verus! {

/// The tree-sitter grammar that parses a source file.
#[derive(Clone, Copy, Debug, PartialEq, Eq, Structural)]
pub enum Grammar {
    Go,
    Java,
    JavaScript,
    C,
    Cpp,
    CSharp,
    Json,
}

/// One node of a syntax tree.
#[derive(Debug)]
pub struct SyntaxNode {
    pub kind: String,
    pub named: bool,
    pub start: usize,
    pub end: usize,
    pub depth: usize,
    pub field: Option<String>,
    /// The node is, or contains, a syntax error or a missing node.
    pub has_error: bool,
}

/// The mathematical form of a [`SyntaxNode`].
pub struct NodeView {
    pub kind: Seq<char>,
    pub named: bool,
    pub start: int,
    pub end: int,
    pub depth: int,
    pub field: Option<Seq<char>>,
    pub has_error: bool,
}

pub open spec fn field_view(f: Option<String>) -> Option<Seq<char>> {
    match f {
        Some(s) => Some(s@),
        None => None,
    }
}

impl View for SyntaxNode {
    type V = NodeView;

    open spec fn view(&self) -> NodeView {
        NodeView {
            kind: self.kind@,
            named: self.named,
            start: self.start as int,
            end: self.end as int,
            depth: self.depth as int,
            field: field_view(self.field),
            has_error: self.has_error,
        }
    }
}

/// The views of a list of nodes.
pub open spec fn views(v: Seq<SyntaxNode>) -> Seq<NodeView> {
    v.map_values(|n: SyntaxNode| n@)
}

#[verifier::external_type_specification]
#[verifier::external_body]
pub struct ExTree(tree_sitter::Tree);

/// The nodes a tree-sitter tree holds, in pre-order.
pub uninterp spec fn tree_nodes(tree: tree_sitter::Tree) -> Seq<NodeView>;

/// The nodes of the tree that tree-sitter builds for `source` with
/// `grammar`, or `None` when the grammar cannot be loaded.
pub uninterp spec fn parsed_syntax(grammar: Grammar, source: Seq<char>) -> Option<Seq<NodeView>>;

/// `Parser::parse` with the grammar's language: the tree for `source`.
/// Claims that the tree holds the nodes `parsed_syntax` names, and that
/// a tree is returned exactly when the grammar loads.
#[verifier::external_body]
fn parse_tree(grammar: Grammar, source: &str) -> (r: Option<tree_sitter::Tree>)
    ensures
        r is Some == parsed_syntax(grammar, source@) is Some,
        r matches Some(t) ==> parsed_syntax(grammar, source@) == Some(tree_nodes(t)),
{
    let language: tree_sitter::Language = match grammar {
        Grammar::Go => tree_sitter_go::LANGUAGE.into(),
        Grammar::Java => tree_sitter_java::LANGUAGE.into(),
        Grammar::JavaScript => tree_sitter_javascript::LANGUAGE.into(),
        Grammar::C => tree_sitter_c::LANGUAGE.into(),
        Grammar::Cpp => tree_sitter_cpp::LANGUAGE.into(),
        Grammar::CSharp => tree_sitter_c_sharp::LANGUAGE.into(),
        Grammar::Json => tree_sitter_json::LANGUAGE.into(),
    };
    let mut parser = tree_sitter::Parser::new();
    parser.set_language(&language).ok()?;
    parser.parse(source, None)
}

/// `Node::descendant_count` of the root: how many nodes the tree holds.
#[verifier::external_body]
fn node_count(tree: &tree_sitter::Tree) -> (r: usize)
    ensures
        r == tree_nodes(*tree).len(),
{
    tree.root_node().descendant_count()
}

/// `TreeCursor::goto_descendant`: the node at a pre-order position,
/// with its kind, range, depth, field name and error flag.
#[verifier::external_body]
fn node_at(tree: &tree_sitter::Tree, index: usize) -> (r: SyntaxNode)
    requires
        index < tree_nodes(*tree).len(),
    ensures
        r@ == tree_nodes(*tree)[index as int],
{
    let mut cursor = tree.walk();
    cursor.goto_descendant(index);
    let node = cursor.node();
    let field = match cursor.field_name() { Some(f) => Some(f.to_string()), None => None };
    SyntaxNode {
        kind: node.kind().to_string(),
        named: node.is_named(),
        start: node.start_byte(),
        end: node.end_byte(),
        depth: cursor.depth() as usize,
        field,
        has_error: node.has_error(),
    }
}

/// Every node of `tree`, in pre-order.
fn tree_to_nodes(tree: &tree_sitter::Tree) -> (r: Vec<SyntaxNode>)
    ensures
        views(r@) == tree_nodes(*tree),
{
    let n = node_count(tree);
    let mut out: Vec<SyntaxNode> = Vec::new();
    let mut i: usize = 0;
    while i < n
        invariant
            n == tree_nodes(*tree).len(),
            i <= n,
            out@.len() == i,
            forall|j: int| 0 <= j < i ==> out@[j]@ == tree_nodes(*tree)[j],
        decreases n - i,
    {
        out.push(node_at(tree, i));
        i = i + 1;
    }
    assert(views(out@) =~= tree_nodes(*tree));
    out
}

/// Parse `source` and flatten the tree: the nodes of
/// `parsed_syntax(grammar, source)`, or `None` when the grammar cannot be
/// loaded.
pub fn parse_syntax(grammar: Grammar, source: &str) -> (r: Option<Vec<SyntaxNode>>)
    ensures
        r is Some == parsed_syntax(grammar, source@) is Some,
        r matches Some(v) ==> parsed_syntax(grammar, source@) == Some(views(v@)),
{
    match parse_tree(grammar, source) {
        Some(tree) => Some(tree_to_nodes(&tree)),
        None => None,
    }
}

/// The source bytes a node spans, when its range lies inside the source.
pub open spec fn node_bytes(src: Seq<u8>, n: NodeView) -> Option<Seq<u8>> {
    if 0 <= n.start <= n.end <= src.len() {
        Some(src.subrange(n.start, n.end))
    } else {
        None
    }
}

/// The node spans exactly the bytes `t`.
pub open spec fn text_is(src: Seq<u8>, n: NodeView, t: Seq<u8>) -> bool {
    node_bytes(src, n) == Some(t)
}

/// The node's range lies inside the source.
pub open spec fn in_range(src: Seq<u8>, n: NodeView) -> bool {
    0 <= n.start <= n.end <= src.len()
}

/// `k` is a child of `i`, reached by scanning forward from `i`: the nodes
/// between `i` and `k` all lie deeper than `i`.
pub open spec fn still_inside(ns: Seq<NodeView>, i: int, k: int) -> bool {
    0 <= i < k < ns.len() && ns[k].depth > ns[i].depth
}

/// The first child of node `i`, at position `k` or later, whose field
/// name is `name`.
pub open spec fn field_child_from(ns: Seq<NodeView>, i: int, name: Seq<char>, k: int) -> Option<int>
    decreases ns.len() - k,
{
    if !still_inside(ns, i, k) {
        None
    } else if ns[k].depth == ns[i].depth + 1 && ns[k].field == Some(name) {
        Some(k)
    } else {
        field_child_from(ns, i, name, k + 1)
    }
}

/// `Node::child_by_field_name`: the first child of `i` in field `name`.
pub open spec fn field_child(ns: Seq<NodeView>, i: int, name: Seq<char>) -> Option<int> {
    field_child_from(ns, i, name, i + 1)
}

/// The named children of node `i`, from position `k` on.
pub open spec fn named_children_from(ns: Seq<NodeView>, i: int, k: int) -> Seq<int>
    decreases ns.len() - k,
{
    if !still_inside(ns, i, k) {
        Seq::empty()
    } else if ns[k].depth == ns[i].depth + 1 && ns[k].named {
        seq![k] + named_children_from(ns, i, k + 1)
    } else {
        named_children_from(ns, i, k + 1)
    }
}

/// The named children of node `i`, in order.
pub open spec fn named_children(ns: Seq<NodeView>, i: int) -> Seq<int> {
    named_children_from(ns, i, i + 1)
}

/// The direct children of node `i` (named or not), from position `k` on.
pub open spec fn children_from(ns: Seq<NodeView>, i: int, k: int) -> Seq<int>
    decreases ns.len() - k,
{
    if !still_inside(ns, i, k) {
        Seq::empty()
    } else if ns[k].depth == ns[i].depth + 1 {
        seq![k] + children_from(ns, i, k + 1)
    } else {
        children_from(ns, i, k + 1)
    }
}

/// The direct children of node `i`, in order.
pub open spec fn children(ns: Seq<NodeView>, i: int) -> Seq<int> {
    children_from(ns, i, i + 1)
}

/// `r` is the exec form of the index `o`, which lies below `n`.
pub open spec fn idx_is(r: Option<usize>, o: Option<int>, n: int) -> bool {
    match o {
        Some(k) => 0 <= k < n && k <= usize::MAX && r == Some(k as usize),
        None => r is None,
    }
}

pub open spec fn opt_usize(o: Option<int>) -> Option<usize> {
    match o {
        Some(k) => Some(k as usize),
        None => None,
    }
}

/// The field name of a node equals `name`.
fn field_is(f: &Option<String>, name: &str) -> (r: bool)
    ensures
        r == (field_view(*f) == Some(name@)),
{
    match f {
        Some(s) => str_eq(s.as_str(), name),
        None => false,
    }
}

/// `Node::child_by_field_name` over a flattened tree.
pub fn child_by_field(nodes: &Vec<SyntaxNode>, i: usize, name: &str) -> (r: Option<usize>)
    requires
        i < nodes@.len(),
    ensures
        idx_is(r, field_child(views(nodes@), i as int, name@), nodes@.len() as int),
        r matches Some(k) ==> i < k < nodes@.len(),
{
    let ghost ns = views(nodes@);
    let len = nodes.len();
    let mut k = i + 1;
    while k < nodes.len() && nodes[k].depth > nodes[i].depth
        invariant
            ns == views(nodes@),
            i < k <= nodes@.len(),
            field_child(ns, i as int, name@) == field_child_from(ns, i as int, name@, k as int),
        decreases nodes@.len() - k,
    {
        if nodes[k].depth - 1 == nodes[i].depth && field_is(&nodes[k].field, name) {
            return Some(k);
        }
        k = k + 1;
    }
    None
}

/// The named children of a node, in order (`Node::named_child`).
pub fn named_children_of(nodes: &Vec<SyntaxNode>, i: usize) -> (r: Vec<usize>)
    requires
        i < nodes@.len(),
    ensures
        r@.map_values(|k: usize| k as int) == named_children(views(nodes@), i as int),
        forall|j: int| 0 <= j < r@.len() ==> i < #[trigger] r@[j] < nodes@.len(),
{
    let ghost ns = views(nodes@);
    let mut out: Vec<usize> = Vec::new();
    let len = nodes.len();
    let mut k = i + 1;
    while k < nodes.len() && nodes[k].depth > nodes[i].depth
        invariant
            ns == views(nodes@),
            i < k <= nodes@.len(),
            out@.map_values(|k: usize| k as int) + named_children_from(ns, i as int, k as int)
                == named_children(ns, i as int),
            forall|j: int| 0 <= j < out@.len() ==> i < #[trigger] out@[j] < nodes@.len(),
        decreases nodes@.len() - k,
    {
        if nodes[k].depth - 1 == nodes[i].depth && nodes[k].named {
            proof {
                assert(out@.push(k).map_values(|k: usize| k as int) =~= out@.map_values(|k: usize| k as int) + seq![k as int]);
            }
            out.push(k);
        }
        k = k + 1;
    }
    assert(out@.map_values(|k: usize| k as int) =~= named_children(ns, i as int));
    out
}

/// The kind of node `i` is `kind`.
pub fn kind_is(nodes: &Vec<SyntaxNode>, i: usize, kind: &str) -> (r: bool)
    requires
        i < nodes@.len(),
    ensures
        r == (nodes@[i as int].kind@ == kind@),
{
    str_eq(nodes[i].kind.as_str(), kind)
}

/// The node's bytes equal `t`.
pub fn node_text_is(src: &[u8], n: &SyntaxNode, t: &[u8]) -> (r: bool)
    ensures
        r == text_is(src@, n@, t@),
{
    if n.start <= n.end && n.end <= src.len() {
        let r = n.end - n.start == t.len() && bytes_at(src, n.start, t);
        proof {
            if r {
                assert(src@.subrange(n.start as int, n.end as int) =~= t@);
            } else if n.end - n.start == t@.len() {
                assert(src@.subrange(n.start as int, n.start + t@.len()) =~= src@.subrange(n.start as int, n.end as int));
            }
        }
        r
    } else {
        false
    }
}

/// The node's range lies inside the source.
pub fn node_in_range(src: &[u8], n: &SyntaxNode) -> (r: bool)
    ensures
        r == in_range(src@, n@),
{
    n.start <= n.end && n.end <= src.len()
}


/// The first of the node indices `cs` whose kind is `kind`.
pub open spec fn first_of_kind(ns: Seq<NodeView>, cs: Seq<int>, kind: Seq<char>) -> Option<int>
    decreases cs.len(),
{
    if cs.len() == 0 {
        None
    } else if 0 <= cs[0] < ns.len() && ns[cs[0]].kind == kind {
        Some(cs[0])
    } else {
        first_of_kind(ns, cs.drop_first(), kind)
    }
}

/// The first named child of node `i` whose kind is `kind`.
pub open spec fn named_child_of_kind(ns: Seq<NodeView>, i: int, kind: Seq<char>) -> Option<int> {
    if 0 <= i < ns.len() {
        first_of_kind(ns, named_children(ns, i), kind)
    } else {
        None
    }
}

/// Exec form of [`named_child_of_kind`].
pub fn find_named_child_of_kind(nodes: &Vec<SyntaxNode>, i: usize, kind: &str) -> (r: Option<usize>)
    ensures
        idx_is(r, named_child_of_kind(views(nodes@), i as int, kind@), nodes@.len() as int),
{
    if i >= nodes.len() {
        return None;
    }
    let ghost ns = views(nodes@);
    let cs = named_children_of(nodes, i);
    let ghost cv = cs@.map_values(|k: usize| k as int);
    let mut j: usize = 0;
    assert(cv.skip(0) =~= cv);
    while j < cs.len()
        invariant
            ns == views(nodes@),
            cv == cs@.map_values(|k: usize| k as int),
            cv == named_children(ns, i as int),
            j <= cs@.len(),
            forall|q: int| 0 <= q < cs@.len() ==> i < #[trigger] cs@[q] < nodes@.len(),
            first_of_kind(ns, cv, kind@) == first_of_kind(ns, cv.skip(j as int), kind@),
        decreases cs@.len() - j,
    {
        let k = cs[j];
        assert(cv.skip(j as int)[0] == k);
        assert(cv.skip(j as int).drop_first() =~= cv.skip(j + 1));
        if kind_is(nodes, k, kind) {
            return Some(k);
        }
        j = j + 1;
    }
    None
}

} // verus!

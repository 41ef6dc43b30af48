//! Rewriting call expressions with a template, shared by every backend
//! that offers a `call` module.
//!
//! A call matches when its kind is one of the backend's call kinds, it
//! has an `arguments` child, and its callee text equals the target. The
//! call is replaced by the template rendered with the target name and
//! the source text of each named child of the argument list.

use vstd::prelude::*;
use vstd::utf8::*;
use crate::text::{utf8, str_views, copy_str, decode_range, bytes_of, is_whitespace, char_is_whitespace, str_eq};
use crate::syntax::{
    Grammar, NodeView, SyntaxNode, parsed_syntax, parse_syntax, views, field_child, child_by_field,
    named_children, named_children_of, node_bytes, text_is, node_text_is, idx_is,
};
use crate::edits::{Edit, edit_views, rewritten, rewrite_source};
use crate::rewrite::{gather, kind_among, lemma_gather_holds, lemma_gather_single};
use crate::template::{render, render_call_template};

verus! {

/// How a backend reads the callee of a call.
#[derive(Clone, Copy, Debug, PartialEq, Eq, Structural)]
pub enum Callee {
    /// The text of the call's `function` child.
    FunctionField,
    /// The source from the start of the call up to its argument list,
    /// without trailing whitespace (keeps a receiver such as `Old.run`).
    BeforeArguments,
}

/// `str::trim_end`: `s` without its trailing whitespace.
pub open spec fn trim_end(s: Seq<char>) -> Seq<char>
    decreases s.len(),
{
    if s.len() > 0 && is_whitespace(s.last()) {
        trim_end(s.drop_last())
    } else {
        s
    }
}

/// The source text of each node in `cs` whose bytes are valid UTF-8.
pub open spec fn arg_texts(src: Seq<u8>, ns: Seq<NodeView>, cs: Seq<int>) -> Seq<Seq<char>>
    decreases cs.len(),
{
    if cs.len() == 0 {
        Seq::empty()
    } else {
        let rest = arg_texts(src, ns, cs.drop_last());
        let k = cs.last();
        if 0 <= k < ns.len() {
            match node_bytes(src, ns[k]) {
                Some(b) => if valid_utf8(b) { rest.push(decode_utf8(b)) } else { rest },
                None => rest,
            }
        } else {
            rest
        }
    }
}

/// The callee of call `i`, whose argument list is node `a`, is `function`.
pub open spec fn callee_matches(
    src: Seq<u8>,
    ns: Seq<NodeView>,
    callee: Callee,
    function: Seq<char>,
    i: int,
    a: int,
) -> bool {
    match callee {
        Callee::FunctionField => match field_child(ns, i, "function"@) {
            Some(f) => text_is(src, ns[f], utf8(function)),
            None => false,
        },
        Callee::BeforeArguments => {
            let s = ns[i].start;
            let e = ns[a].start;
            &&& 0 <= s <= e <= src.len()
            &&& valid_utf8(src.subrange(s, e))
            &&& trim_end(decode_utf8(src.subrange(s, e))) == function
        },
    }
}

/// The argument list of node `i` when it is a call of `function`.
pub open spec fn call_arguments(
    src: Seq<u8>,
    ns: Seq<NodeView>,
    kinds: Seq<Seq<char>>,
    callee: Callee,
    function: Seq<char>,
    i: int,
) -> Option<int> {
    if 0 <= i < ns.len() && kinds.contains(ns[i].kind) {
        match field_child(ns, i, "arguments"@) {
            Some(a) => if callee_matches(src, ns, callee, function, i, a) { Some(a) } else { None },
            None => None,
        }
    } else {
        None
    }
}

/// The edit for node `i`: the whole call replaced by the rendered template.
pub open spec fn call_at(
    src: Seq<u8>,
    ns: Seq<NodeView>,
    kinds: Seq<Seq<char>>,
    callee: Callee,
    function: Seq<char>,
    template: Seq<char>,
    i: int,
) -> Seq<(int, int, Seq<u8>)> {
    match call_arguments(src, ns, kinds, callee, function, i) {
        Some(a) => seq![(
            ns[i].start,
            ns[i].end,
            utf8(render(template, function, arg_texts(src, ns, named_children(ns, a)))),
        )],
        None => Seq::empty(),
    }
}

pub open spec fn call_step(
    src: Seq<u8>,
    ns: Seq<NodeView>,
    kinds: Seq<Seq<char>>,
    callee: Callee,
    function: Seq<char>,
    template: Seq<char>,
) -> spec_fn(int) -> Seq<(int, int, Seq<u8>)> {
    |i: int| call_at(src, ns, kinds, callee, function, template, i)
}

/// One edit per matching call, in tree order.
pub open spec fn call_edits(
    src: Seq<u8>,
    ns: Seq<NodeView>,
    kinds: Seq<Seq<char>>,
    callee: Callee,
    function: Seq<char>,
    template: Seq<char>,
) -> Seq<(int, int, Seq<u8>)> {
    gather(ns.len() as int, call_step(src, ns, kinds, callee, function, template))
}

/// The source with every call of `function` replaced by the rendered
/// template; the source itself when it cannot be parsed.
pub open spec fn calls_rewritten(
    grammar: Grammar,
    kinds: Seq<Seq<char>>,
    callee: Callee,
    function: Seq<char>,
    template: Seq<char>,
    source: Seq<char>,
) -> Seq<char> {
    match parsed_syntax(grammar, source) {
        Some(ns) => rewritten(source, call_edits(utf8(source), ns, kinds, callee, function, template)),
        None => source,
    }
}

/// Exec form of [`trim_end`].
pub fn trim_end_str(s: &str) -> (r: &str)
    ensures
        r@ == trim_end(s@),
{
    let mut j = s.unicode_len();
    assert(s@.subrange(0, j as int) =~= s@);
    while j > 0 && char_is_whitespace(s.get_char(j - 1))
        invariant
            j <= s@.len(),
            trim_end(s@) == trim_end(s@.subrange(0, j as int)),
        decreases j,
    {
        assert(s@.subrange(0, j as int).drop_last() =~= s@.subrange(0, j - 1));
        j = j - 1;
    }
    s.substring_char(0, j)
}

/// The source text of the named children of node `a`.
fn argument_texts(src: &[u8], nodes: &Vec<SyntaxNode>, a: usize) -> (r: Vec<String>)
    requires
        a < nodes@.len(),
    ensures
        r@.map_values(|s: String| s@) == arg_texts(src@, views(nodes@), named_children(views(nodes@), a as int)),
{
    let ghost ns = views(nodes@);
    let cs = named_children_of(nodes, a);
    let ghost cv = cs@.map_values(|k: usize| k as int);
    let mut out: Vec<String> = Vec::new();
    let mut j: usize = 0;
    assert(cv.subrange(0, 0) =~= Seq::<int>::empty());
    while j < cs.len()
        invariant
            ns == views(nodes@),
            cv == cs@.map_values(|k: usize| k as int),
            j <= cs@.len(),
            forall|q: int| 0 <= q < cs@.len() ==> a < #[trigger] cs@[q] < nodes@.len(),
            out@.map_values(|s: String| s@) == arg_texts(src@, ns, cv.subrange(0, j as int)),
        decreases cs@.len() - j,
    {
        let k = cs[j];
        assert(cv.subrange(0, j + 1).drop_last() =~= cv.subrange(0, j as int));
        assert(cv.subrange(0, j + 1).last() == k as int);
        assert(ns[k as int] == nodes@[k as int]@);
        let n = &nodes[k];
        if n.start <= n.end && n.end <= src.len() {
            match decode_range(src, n.start, n.end) {
                Some(t) => {
                    out.push(t);
                    assert(out@.map_values(|s: String| s@) =~= arg_texts(src@, ns, cv.subrange(0, j + 1)));
                },
                None => {
                    assert(out@.map_values(|s: String| s@) =~= arg_texts(src@, ns, cv.subrange(0, j + 1)));
                },
            }
        } else {
            assert(out@.map_values(|s: String| s@) =~= arg_texts(src@, ns, cv.subrange(0, j + 1)));
        }
        j = j + 1;
    }
    assert(cv.subrange(0, j as int) =~= cv);
    out
}

/// Borrow each string of a vector.
fn as_strs(v: &Vec<String>) -> (r: Vec<&str>)
    ensures
        str_views(r@) == v@.map_values(|s: String| s@),
{
    let mut out: Vec<&str> = Vec::new();
    let mut i: usize = 0;
    while i < v.len()
        invariant
            i <= v@.len(),
            str_views(out@) == v@.subrange(0, i as int).map_values(|s: String| s@),
        decreases v@.len() - i,
    {
        let s = v[i].as_str();
        assert(s@ == v@[i as int]@);
        let ghost prev = out@;
        out.push(s);
        assert(str_views(out@) =~= str_views(prev).push(s@));
        assert(v@.subrange(0, i + 1).map_values(|s: String| s@)
            =~= v@.subrange(0, i as int).map_values(|s: String| s@).push(v@[i as int]@));
        assert(str_views(out@) =~= v@.subrange(0, i + 1).map_values(|s: String| s@));
        i = i + 1;
    }
    assert(v@.subrange(0, i as int) =~= v@);
    out
}

/// Exec form of [`callee_matches`].
fn callee_is(src: &[u8], nodes: &Vec<SyntaxNode>, callee: Callee, function: &str, i: usize, a: usize) -> (r: bool)
    requires
        i < nodes@.len(),
        a < nodes@.len(),
    ensures
        r == callee_matches(src@, views(nodes@), callee, function@, i as int, a as int),
{
    let ghost ns = views(nodes@);
    assert(ns[i as int] == nodes@[i as int]@);
    assert(ns[a as int] == nodes@[a as int]@);
    match callee {
        Callee::FunctionField => match child_by_field(nodes, i, "function") {
            Some(f) => {
                assert(ns[f as int] == nodes@[f as int]@);
                node_text_is(src, &nodes[f], function.as_bytes())
            },
            None => false,
        },
        Callee::BeforeArguments => {
            let s = nodes[i].start;
            let e = nodes[a].start;
            if s <= e && e <= src.len() {
                match decode_range(src, s, e) {
                    Some(t) => str_eq(trim_end_str(t.as_str()), function),
                    None => false,
                }
            } else {
                false
            }
        },
    }
}

/// Rewrite every call whose kind is one of `kinds` and whose callee is
/// `function` with `template` (see [`render_call_template`]).
pub fn rewrite_calls(
    grammar: Grammar,
    kinds: &[&str],
    callee: Callee,
    function: &str,
    template: &str,
    source_code: &str,
) -> (r: String)
    ensures
        r@ == calls_rewritten(grammar, str_views(kinds@), callee, function@, template@, source_code@),
{
    let nodes = match parse_syntax(grammar, source_code) {
        Some(n) => n,
        None => return copy_str(source_code),
    };
    let src = source_code.as_bytes();
    let ghost ns = views(nodes@);
    let ghost ks = str_views(kinds@);
    let ghost step = call_step(src@, ns, ks, callee, function@, template@);
    let mut edits: Vec<Edit> = Vec::new();
    let mut i: usize = 0;
    while i < nodes.len()
        invariant
            ns == views(nodes@),
            ks == str_views(kinds@),
            src@ == utf8(source_code@),
            step == call_step(src@, ns, ks, callee, function@, template@),
            i <= nodes@.len(),
            edit_views(edits@) == gather(i as int, step),
        decreases nodes@.len() - i,
    {
        assert(step(i as int) == call_at(src@, ns, ks, callee, function@, template@, i as int));
        assert(ns[i as int] == nodes@[i as int]@);
        if kind_among(nodes[i].kind.as_str(), kinds) {
            match child_by_field(&nodes, i, "arguments") {
                Some(a) => {
                    if callee_is(src, &nodes, callee, function, i, a) {
                        let args = argument_texts(src, &nodes, a);
                        let refs = as_strs(&args);
                        let rendered = render_call_template(template, function, refs.as_slice());
                        edits.push(Edit { start: nodes[i].start, end: nodes[i].end, text: bytes_of(rendered.as_str()) });
                    }
                },
                None => {},
            }
        }
        assert(edit_views(edits@) =~= gather(i as int + 1, step));
        i = i + 1;
    }
    rewrite_source(source_code, &edits)
}

/// `e` rewrites a call of `function`: its span is exactly a call node of
/// one of `kinds` whose callee is `function`, and it writes the template
/// rendered with that call's arguments (the texts of the named children
/// of its `arguments` node, in order).
pub open spec fn rewrites_a_call(
    src: Seq<u8>,
    ns: Seq<NodeView>,
    kinds: Seq<Seq<char>>,
    callee: Callee,
    function: Seq<char>,
    template: Seq<char>,
    e: (int, int, Seq<u8>),
) -> bool {
    exists|i: int, a: int| #![trigger field_child(ns, i, "arguments"@), ns[a]]
        0 <= i < ns.len() && kinds.contains(ns[i].kind)
        && field_child(ns, i, "arguments"@) == Some(a) && callee_matches(src, ns, callee, function, i, a)
        && e.0 == ns[i].start && e.1 == ns[i].end
        && e.2 == utf8(render(template, function, arg_texts(src, ns, named_children(ns, a))))
}

/// A call rewrite replaces exactly the calls of `function`, each whole
/// call by the rendered template, and every call of `function` is
/// rewritten.
pub proof fn law_call_edits(src: Seq<u8>, ns: Seq<NodeView>, kinds: Seq<Seq<char>>, callee: Callee, function: Seq<char>, template: Seq<char>)
    ensures
        forall|k: int| 0 <= k < call_edits(src, ns, kinds, callee, function, template).len()
            ==> rewrites_a_call(src, ns, kinds, callee, function, template,
                #[trigger] call_edits(src, ns, kinds, callee, function, template)[k]),
        forall|i: int, a: int| #![trigger field_child(ns, i, "arguments"@), ns[a]]
            0 <= i < ns.len() && kinds.contains(ns[i].kind)
            && field_child(ns, i, "arguments"@) == Some(a) && callee_matches(src, ns, callee, function, i, a)
            ==> call_edits(src, ns, kinds, callee, function, template).contains((ns[i].start, ns[i].end,
                utf8(render(template, function, arg_texts(src, ns, named_children(ns, a)))))),
{
    let f = call_step(src, ns, kinds, callee, function, template);
    let n = ns.len() as int;
    assert forall|j: int| 0 <= j < n implies #[trigger] f(j).len() <= 1 by {}
    assert forall|k: int| 0 <= k < gather(n, f).len()
        implies rewrites_a_call(src, ns, kinds, callee, function, template, #[trigger] gather(n, f)[k]) by {
        let i = lemma_gather_single(n, f, k);
        let a = call_arguments(src, ns, kinds, callee, function, i)->Some_0;
        assert(field_child(ns, i, "arguments"@) == Some(a) && ns[a] == ns[a]);
    }
    assert forall|i: int, a: int| #![trigger field_child(ns, i, "arguments"@), ns[a]]
        0 <= i < ns.len() && kinds.contains(ns[i].kind)
        && field_child(ns, i, "arguments"@) == Some(a) && callee_matches(src, ns, callee, function, i, a)
        implies gather(n, f).contains((ns[i].start, ns[i].end,
            utf8(render(template, function, arg_texts(src, ns, named_children(ns, a)))))) by {
        lemma_gather_holds(n, f, i, 0);
    }
}

} // verus!

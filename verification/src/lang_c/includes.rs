//! Operations on `#include` directives: rename, delete, ensure.
//!
//! The `path` of a `preproc_include` is a `system_lib_string`
//! (`<stdio.h>`) or a `string_literal` (`"local/lib.h"`). Match strings
//! are the bare path: the delimiters are stripped from both sides before
//! comparing, so `"old/lib.h"` matches `#include "old/lib.h"` and
//! `#include <old/lib.h>`. Rename keeps the delimiter style the source
//! used. `ensure` inserts the system form when the target is written in
//! angle brackets, the quoted form otherwise.
//!
//! The same logic serves the C and the C++ grammars.

use vstd::prelude::*;
use vstd::utf8::*;
use crate::text::{utf8, bytes_of, copy_str, push_str, find_byte_from, find_byte, str_eq, decode_range};
use crate::syntax::{
    Grammar, NodeView, SyntaxNode, parsed_syntax, parse_syntax, views, field_child, child_by_field,
    named_children, named_children_of, kind_is, idx_is, in_range, node_bytes,
};
use crate::edits::{Edit, edit_views, rewritten, rewrite_source, line_start, line_end, span_line_end, whole_lines, copy_bytes, covers_lines, lemma_line_bounds_cover};
use crate::rewrite::{gather, lemma_gather_holds, lemma_gather_single};
use crate::operation::Operation;
use crate::lang_c::{is_c, is_c_file};

verus! {

/// The text without one pair of `<...>` or `"..."` delimiters.
pub open spec fn unquote(t: Seq<char>) -> Seq<char> {
    if t.len() >= 2 && ((t[0] == '<' && t.last() == '>') || (t[0] == '"' && t.last() == '"')) {
        t.subrange(1, t.len() - 1)
    } else {
        t
    }
}

/// The target asks for the angle-bracket form.
pub open spec fn wants_system_form(t: Seq<char>) -> bool {
    t.len() >= 2 && t[0] == '<' && t.last() == '>'
}

/// The path node of include directive `i` and its text, when the path is
/// a system or quoted string with valid UTF-8 text.
pub open spec fn include_path(src: Seq<u8>, ns: Seq<NodeView>, i: int) -> Option<(int, Seq<char>)> {
    if 0 <= i < ns.len() && ns[i].kind == "preproc_include"@ {
        match field_child(ns, i, "path"@) {
            Some(p) => if ns[p].kind == "system_lib_string"@ || ns[p].kind == "string_literal"@ {
                match node_bytes(src, ns[p]) {
                    Some(b) => if valid_utf8(b) { Some((p, decode_utf8(b))) } else { None },
                    None => None,
                }
            } else {
                None
            },
            None => None,
        }
    } else {
        None
    }
}

/// The path node and text of node `i` when it includes `target`.
pub open spec fn matching_include(src: Seq<u8>, ns: Seq<NodeView>, target: Seq<char>, i: int) -> Option<(int, Seq<char>)> {
    match include_path(src, ns, i) {
        Some((p, t)) => if unquote(t) == unquote(target) { Some((p, t)) } else { None },
        None => None,
    }
}

/// `repl` in the delimiters of `existing`.
pub open spec fn styled(existing: Seq<char>, repl: Seq<char>) -> Seq<char> {
    if existing.len() > 0 && existing[0] == '<' {
        "<"@ + repl + ">"@
    } else {
        "\""@ + repl + "\""@
    }
}

/// Exec form of [`unquote`].
pub fn unquote_str(t: &str) -> (r: &str)
    ensures
        r@ == unquote(t@),
{
    let n = t.unicode_len();
    if n >= 2 {
        let first = t.get_char(0);
        let last = t.get_char(n - 1);
        if (first == '<' && last == '>') || (first == '"' && last == '"') {
            return t.substring_char(1, n - 1);
        }
    }
    t
}

fn wants_system(t: &str) -> (r: bool)
    ensures
        r == wants_system_form(t@),
{
    let n = t.unicode_len();
    n >= 2 && t.get_char(0) == '<' && t.get_char(n - 1) == '>'
}

fn find_include_path(src: &[u8], nodes: &Vec<SyntaxNode>, i: usize) -> (r: Option<(usize, String)>)
    requires
        i < nodes@.len(),
    ensures
        match include_path(src@, views(nodes@), i as int) {
            Some((p, t)) => r matches Some((q, s)) && q == p && s@ == t,
            None => r is None,
        },
        r matches Some((q, _)) ==> i < q < nodes@.len(),
{
    let ghost ns = views(nodes@);
    assert(ns[i as int] == nodes@[i as int]@);
    if !kind_is(nodes, i, "preproc_include") {
        return None;
    }
    match child_by_field(nodes, i, "path") {
        Some(p) => {
            assert(ns[p as int] == nodes@[p as int]@);
            if kind_is(nodes, p, "system_lib_string") || kind_is(nodes, p, "string_literal") {
                let n = &nodes[p];
                if n.start <= n.end && n.end <= src.len() {
                    match decode_range(src, n.start, n.end) {
                        Some(t) => Some((p, t)),
                        None => None,
                    }
                } else {
                    None
                }
            } else {
                None
            }
        },
        None => None,
    }
}

fn find_matching_include(src: &[u8], nodes: &Vec<SyntaxNode>, target: &str, i: usize) -> (r: Option<(usize, String)>)
    requires
        i < nodes@.len(),
    ensures
        match matching_include(src@, views(nodes@), target@, i as int) {
            Some((p, t)) => r matches Some((q, s)) && q == p && s@ == t,
            None => r is None,
        },
        r matches Some((q, _)) ==> i < q < nodes@.len(),
{
    match find_include_path(src, nodes, i) {
        Some((p, t)) => {
            if str_eq(unquote_str(t.as_str()), unquote_str(target)) {
                Some((p, t))
            } else {
                None
            }
        },
        None => None,
    }
}

pub open spec fn rename_at(src: Seq<u8>, ns: Seq<NodeView>, from: Seq<char>, to: Seq<char>, i: int) -> Seq<(int, int, Seq<u8>)> {
    match matching_include(src, ns, from, i) {
        Some((p, t)) => seq![(ns[p].start, ns[p].end, utf8(styled(t, unquote(to))))],
        None => Seq::empty(),
    }
}

pub open spec fn rename_step(src: Seq<u8>, ns: Seq<NodeView>, from: Seq<char>, to: Seq<char>) -> spec_fn(int) -> Seq<(int, int, Seq<u8>)> {
    |i: int| rename_at(src, ns, from, to, i)
}

/// `e` repoints an include of `from` at `to`: its span is exactly the
/// `path` child (a `<...>` or `"..."` string) of a `preproc_include`,
/// whose path without delimiters is `from`'s, and it writes `to` in the
/// delimiters that path had.
pub open spec fn repoints_an_include(src: Seq<u8>, ns: Seq<NodeView>, from: Seq<char>, to: Seq<char>, e: (int, int, Seq<u8>)) -> bool {
    exists|i: int, p: int| #![trigger ns[i], ns[p]]
        0 <= i < ns.len() && ns[i].kind == "preproc_include"@
        && field_child(ns, i, "path"@) == Some(p)
        && (ns[p].kind == "system_lib_string"@ || ns[p].kind == "string_literal"@)
        && node_bytes(src, ns[p]) is Some
        && unquote(decode_utf8(node_bytes(src, ns[p])->Some_0)) == unquote(from)
        && e.0 == ns[p].start && e.1 == ns[p].end
        && e.2 == utf8(styled(decode_utf8(node_bytes(src, ns[p])->Some_0), unquote(to)))
}

/// A rename edits only include paths that name `from`, each over the
/// path string alone (`#include` and the rest of the line stay), keeping
/// its delimiters; and every such include gets that edit.
pub proof fn law_include_rename_edits(src: Seq<u8>, ns: Seq<NodeView>, from: Seq<char>, to: Seq<char>)
    ensures
        forall|k: int| 0 <= k < gather(ns.len() as int, rename_step(src, ns, from, to)).len()
            ==> repoints_an_include(src, ns, from, to, #[trigger] gather(ns.len() as int, rename_step(src, ns, from, to))[k]),
        forall|i: int, p: int, t: Seq<char>| #![trigger include_path(src, ns, i), ns[p], unquote(t)]
            include_path(src, ns, i) == Some((p, t)) && unquote(t) == unquote(from)
            ==> gather(ns.len() as int, rename_step(src, ns, from, to)).contains((ns[p].start, ns[p].end, utf8(styled(t, unquote(to))))),
{
    let f = rename_step(src, ns, from, to);
    let n = ns.len() as int;
    assert forall|j: int| 0 <= j < n implies #[trigger] f(j).len() <= 1 by {}
    assert forall|k: int| 0 <= k < gather(n, f).len() implies repoints_an_include(src, ns, from, to, #[trigger] gather(n, f)[k]) by {
        let i = lemma_gather_single(n, f, k);
        let (p, t) = matching_include(src, ns, from, i)->Some_0;
        assert(ns[i] == ns[i] && ns[p] == ns[p]);
    }
    assert forall|i: int, p: int, t: Seq<char>| #![trigger include_path(src, ns, i), ns[p], unquote(t)]
        include_path(src, ns, i) == Some((p, t)) && unquote(t) == unquote(from)
        implies gather(n, f).contains((ns[p].start, ns[p].end, utf8(styled(t, unquote(to))))) by {
        assert(0 <= i < n);
        assert(f(i)[0] == (ns[p].start, ns[p].end, utf8(styled(t, unquote(to)))));
        lemma_gather_holds(n, f, i, 0);
    }
}

/// The source with every include of `from` pointed at `to`, in the
/// delimiters it had.
pub open spec fn rename_in(grammar: Grammar, from: Seq<char>, to: Seq<char>, source: Seq<char>) -> Seq<char> {
    match parsed_syntax(grammar, source) {
        Some(ns) => rewritten(source, gather(ns.len() as int, rename_step(utf8(source), ns, from, to))),
        None => source,
    }
}

/// Rename every include of `from` (delimiters ignored) to `to`, keeping
/// each directive's delimiter style.
pub fn rename_include(grammar: Grammar, from: &str, to: &str, source_code: &str) -> (r: String)
    ensures
        r@ == rename_in(grammar, from@, to@, source_code@),
{
    let nodes = match parse_syntax(grammar, source_code) {
        Some(n) => n,
        None => return copy_str(source_code),
    };
    let src = source_code.as_bytes();
    let repl = unquote_str(to);
    let ghost ns = views(nodes@);
    let ghost step = rename_step(src@, ns, from@, to@);
    let mut edits: Vec<Edit> = Vec::new();
    let mut i: usize = 0;
    while i < nodes.len()
        invariant
            ns == views(nodes@),
            step == rename_step(src@, ns, from@, to@),
            repl@ == unquote(to@),
            i <= nodes@.len(),
            edit_views(edits@) == gather(i as int, step),
        decreases nodes@.len() - i,
    {
        assert(step(i as int) == rename_at(src@, ns, from@, to@, i as int));
        match find_matching_include(src, &nodes, from, i) {
            Some((p, t)) => {
                assert(ns[p as int] == nodes@[p as int]@);
                let mut text = String::new();
                let angle = t.unicode_len() > 0 && t.as_str().get_char(0) == '<';
                if angle {
                    push_str(&mut text, "<");
                    push_str(&mut text, repl);
                    push_str(&mut text, ">");
                } else {
                    push_str(&mut text, "\"");
                    push_str(&mut text, repl);
                    push_str(&mut text, "\"");
                }
                proof {
                    reveal_strlit("<");
                    reveal_strlit(">");
                    reveal_strlit("\"");
                }
                assert(text@ == styled(t@, unquote(to@)));
                edits.push(Edit { start: nodes[p].start, end: nodes[p].end, text: bytes_of(text.as_str()) });
            },
            None => {},
        }
        assert(edit_views(edits@) =~= gather(i as int + 1, step));
        i = i + 1;
    }
    rewrite_source(source_code, &edits)
}

pub open spec fn delete_at(src: Seq<u8>, ns: Seq<NodeView>, target: Seq<char>, i: int) -> Seq<(int, int, Seq<u8>)> {
    if matching_include(src, ns, target, i) is Some && in_range(src, ns[i]) {
        seq![(line_start(src, ns[i].start), span_line_end(src, ns[i].end), Seq::<u8>::empty())]
    } else {
        Seq::empty()
    }
}

pub open spec fn delete_step(src: Seq<u8>, ns: Seq<NodeView>, target: Seq<char>) -> spec_fn(int) -> Seq<(int, int, Seq<u8>)> {
    |i: int| delete_at(src, ns, target, i)
}

/// The source without the lines of the includes of `target`.
/// `e` erases the lines of an include of `target`: exactly the whole lines
/// the statement touches, and nothing is written instead.
pub open spec fn erases_a_match(src: Seq<u8>, ns: Seq<NodeView>, target: Seq<char>, e: (int, int, Seq<u8>)) -> bool {
    exists|i: int| #[trigger] matching_include(src, ns, target, i) is Some
        && covers_lines(src, e.0, e.1, ns[i].start, ns[i].end) && e.2.len() == 0
}

/// A delete erases only the lines of includes of `target` (other lines
/// stay), and every such statement lying inside the text has its lines
/// erased.
pub proof fn law_delete_edits(src: Seq<u8>, ns: Seq<NodeView>, target: Seq<char>)
    ensures
        forall|k: int| 0 <= k < gather(ns.len() as int, delete_step(src, ns, target)).len()
            ==> erases_a_match(src, ns, target, #[trigger] gather(ns.len() as int, delete_step(src, ns, target))[k]),
        forall|i: int| #[trigger] matching_include(src, ns, target, i) is Some && in_range(src, ns[i])
            ==> exists|k: int| 0 <= k < gather(ns.len() as int, delete_step(src, ns, target)).len()
                && covers_lines(src, (#[trigger] gather(ns.len() as int, delete_step(src, ns, target))[k]).0,
                    gather(ns.len() as int, delete_step(src, ns, target))[k].1, ns[i].start, ns[i].end),
{
    let f = delete_step(src, ns, target);
    let n = ns.len() as int;
    assert forall|j: int| 0 <= j < n implies #[trigger] f(j).len() <= 1 by {}
    assert forall|k: int| 0 <= k < gather(n, f).len()
        implies erases_a_match(src, ns, target, #[trigger] gather(n, f)[k]) by {
        let i = lemma_gather_single(n, f, k);
        lemma_line_bounds_cover(src, ns[i].start, ns[i].end);
    }
    assert forall|i: int| #[trigger] matching_include(src, ns, target, i) is Some && in_range(src, ns[i])
        implies exists|k: int| 0 <= k < gather(n, f).len()
            && covers_lines(src, (#[trigger] gather(n, f)[k]).0, gather(n, f)[k].1, ns[i].start, ns[i].end) by {
        lemma_line_bounds_cover(src, ns[i].start, ns[i].end);
        assert(f(i).len() == 1);
        lemma_gather_holds(n, f, i, 0);
    }
}

pub open spec fn delete_in(grammar: Grammar, target: Seq<char>, source: Seq<char>) -> Seq<char> {
    match parsed_syntax(grammar, source) {
        Some(ns) => rewritten(source, gather(ns.len() as int, delete_step(utf8(source), ns, target))),
        None => source,
    }
}

/// Remove the lines of every include of `target` (delimiters ignored).
pub fn delete_include(grammar: Grammar, target: &str, source_code: &str) -> (r: String)
    ensures
        r@ == delete_in(grammar, target@, source_code@),
{
    let nodes = match parse_syntax(grammar, source_code) {
        Some(n) => n,
        None => return copy_str(source_code),
    };
    let src = source_code.as_bytes();
    let n = src.len();
    let ghost ns = views(nodes@);
    let ghost step = delete_step(src@, ns, target@);
    let mut edits: Vec<Edit> = Vec::new();
    let mut i: usize = 0;
    while i < nodes.len()
        invariant
            ns == views(nodes@),
            step == delete_step(src@, ns, target@),
            n == src@.len(),
            i <= nodes@.len(),
            edit_views(edits@) == gather(i as int, step),
        decreases nodes@.len() - i,
    {
        assert(step(i as int) == delete_at(src@, ns, target@, i as int));
        assert(ns[i as int] == nodes@[i as int]@);
        let m = find_matching_include(src, &nodes, target, i);
        if m.is_some() && nodes[i].start <= nodes[i].end && nodes[i].end <= n {
            let (ls, le) = whole_lines(src, nodes[i].start, nodes[i].end);
            edits.push(Edit { start: ls, end: le, text: Vec::new() });
        }
        assert(edit_views(edits@) =~= gather(i as int + 1, step));
        i = i + 1;
    }
    rewrite_source(source_code, &edits)
}

/// Some directive includes `target`.
pub open spec fn any_include(src: Seq<u8>, ns: Seq<NodeView>, target: Seq<char>) -> bool {
    exists|i: int| 0 <= i < ns.len() && (#[trigger] matching_include(src, ns, target, i)) is Some
}

/// The last of the nodes `cs` that is an include directive.
pub open spec fn last_include(ns: Seq<NodeView>, cs: Seq<int>) -> Option<int>
    decreases cs.len(),
{
    if cs.len() == 0 {
        None
    } else if 0 <= cs.last() < ns.len() && ns[cs.last()].kind == "preproc_include"@ {
        Some(cs.last())
    } else {
        last_include(ns, cs.drop_last())
    }
}

/// Where `ensure` inserts: just past the last top-level include (past
/// its newline), or the top of the file.
pub open spec fn insertion_point(src: Seq<u8>, ns: Seq<NodeView>) -> int {
    if ns.len() == 0 {
        0
    } else {
        match last_include(ns, named_children(ns, 0)) {
            Some(c) => {
                let end = ns[c].end;
                if 0 < end <= src.len() && src[end - 1] == 10u8 {
                    end
                } else {
                    match find_byte_from(src, 10u8, end) {
                        Some(p) => p + 1,
                        None => src.len() as int,
                    }
                }
            },
            None => 0,
        }
    }
}

/// The directive `ensure` inserts.
pub open spec fn directive(target: Seq<char>) -> Seq<char> {
    if wants_system_form(target) {
        "#include "@ + target + "\n"@
    } else {
        "#include \""@ + unquote(target) + "\"\n"@
    }
}

/// The line that includes `target`: `#include <...>` for a path in
/// angle brackets, else the path (quotes dropped) in quotes.
pub open spec fn include_line(target: Seq<char>) -> Seq<char> {
    if target.len() >= 2 && target[0] == '<' && target.last() == '>' {
        "#include "@ + target + "\n"@
    } else {
        "#include \""@ + unquote(target) + "\"\n"@
    }
}

/// Ensuring: a file that already has an include of `target` is left exactly as it
/// is; otherwise one line is inserted at a single place, nothing removed,
/// and it reads as the directive for `target`.
pub proof fn law_ensure_adds_one_line_or_nothing(target: Seq<char>, source: Seq<char>, ns: Seq<NodeView>)
    ensures
        (exists|i: int| 0 <= i < ns.len() && (#[trigger] matching_include(utf8(source), ns, target, i)) is Some)
            ==> ensure_over(target, source, ns) == source,
        !(exists|i: int| 0 <= i < ns.len() && (#[trigger] matching_include(utf8(source), ns, target, i)) is Some)
            ==> exists|pos: int| ensure_over(target, source, ns)
                == #[trigger] rewritten(source, seq![(pos, pos, utf8(include_line(target)))]),
{
    let pos = insertion_point(utf8(source), ns);
    assert(ensure_over(target, source, ns) == source
        || ensure_over(target, source, ns) == rewritten(source, seq![(pos, pos, utf8(include_line(target)))]));
}

pub open spec fn ensure_over(target: Seq<char>, source: Seq<char>, ns: Seq<NodeView>) -> Seq<char> {
    let src = utf8(source);
    if any_include(src, ns, target) {
        source
    } else {
        let pos = insertion_point(src, ns);
        rewritten(source, seq![(pos, pos, utf8(directive(target)))])
    }
}

pub open spec fn ensure_in(grammar: Grammar, target: Seq<char>, source: Seq<char>) -> Seq<char> {
    match parsed_syntax(grammar, source) {
        Some(ns) => ensure_over(target, source, ns),
        None => source,
    }
}

/// Exec form of [`last_include`] over the top-level nodes.
fn find_last_include(nodes: &Vec<SyntaxNode>) -> (r: Option<usize>)
    ensures
        idx_is(r, if nodes@.len() == 0 { None } else { last_include(views(nodes@), named_children(views(nodes@), 0)) }, nodes@.len() as int),
{
    if nodes.len() == 0 {
        return None;
    }
    let ghost ns = views(nodes@);
    let cs = named_children_of(nodes, 0);
    let ghost cv = cs@.map_values(|k: usize| k as int);
    let mut j = cs.len();
    assert(cv.subrange(0, j as int) =~= cv);
    while j > 0
        invariant
            ns == views(nodes@),
            nodes@.len() > 0,
            cv == cs@.map_values(|k: usize| k as int),
            cv == named_children(ns, 0),
            j <= cs@.len(),
            forall|q: int| 0 <= q < cs@.len() ==> 0 < #[trigger] cs@[q] < nodes@.len(),
            last_include(ns, cv) == last_include(ns, cv.subrange(0, j as int)),
        decreases j,
    {
        let c = cs[j - 1];
        assert(cv.subrange(0, j as int).last() == c as int);
        assert(cv.subrange(0, j as int).drop_last() =~= cv.subrange(0, j - 1));
        assert(ns[c as int] == nodes@[c as int]@);
        if kind_is(nodes, c, "preproc_include") {
            return Some(c);
        }
        j = j - 1;
    }
    assert(cv.subrange(0, 0) =~= Seq::<int>::empty());
    None
}

/// When no directive includes `target`, insert one after the last
/// top-level include (at the top of the file when there is none).
pub fn ensure_include(grammar: Grammar, target: &str, source_code: &str) -> (r: String)
    ensures
        r@ == ensure_in(grammar, target@, source_code@),
{
    let nodes = match parse_syntax(grammar, source_code) {
        Some(n) => n,
        None => return copy_str(source_code),
    };
    let src = source_code.as_bytes();
    let n = src.len();
    let ghost ns = views(nodes@);
    let mut i: usize = 0;
    while i < nodes.len()
        invariant
            ns == views(nodes@),
            parsed_syntax(grammar, source_code@) == Some(ns),
            src@ == utf8(source_code@),
            i <= nodes@.len(),
            forall|k: int| 0 <= k < i ==> (#[trigger] matching_include(src@, ns, target@, k)) is None,
        decreases nodes@.len() - i,
    {
        if find_matching_include(src, &nodes, target, i).is_some() {
            return copy_str(source_code);
        }
        i = i + 1;
    }
    let mut pos: usize = 0;
    match find_last_include(&nodes) {
        Some(c) => {
            assert(ns[c as int] == nodes@[c as int]@);
            let end = nodes[c].end;
            proof { crate::text::lemma_find_byte_bounds(src@, 10u8, end as int); }
            pos = if end > 0 && end <= n && src[end - 1] == 10u8 {
                end
            } else {
                match find_byte(src, 10u8, end) {
                    Some(p) => p + 1,
                    None => n,
                }
            };
        },
        None => {},
    }
    let mut line = String::new();
    if wants_system(target) {
        push_str(&mut line, "#include ");
        push_str(&mut line, target);
        push_str(&mut line, "\n");
    } else {
        push_str(&mut line, "#include \"");
        push_str(&mut line, unquote_str(target));
        push_str(&mut line, "\"\n");
    }
    let mut edits: Vec<Edit> = Vec::new();
    edits.push(Edit { start: pos, end: pos, text: bytes_of(line.as_str()) });
    assert(edit_views(edits@) =~= seq![(pos as int, pos as int, utf8(directive(target@)))]);
    rewrite_source(source_code, &edits)
}

/// Rename C includes of `from` to `to`.
pub fn rename(from: &str, to: &str, source_code: &str) -> (r: String)
    ensures
        r@ == rename_in(Grammar::C, from@, to@, source_code@),
{
    rename_include(Grammar::C, from, to, source_code)
}

/// Remove the C includes of `target`.
pub fn delete(target: &str, source_code: &str) -> (r: String)
    ensures
        r@ == delete_in(Grammar::C, target@, source_code@),
{
    delete_include(Grammar::C, target, source_code)
}

/// Insert `#include` for `target` after the existing includes when the
/// file does not include it yet.
pub fn ensure(target: &str, source_code: &str) -> (r: String)
    ensures
        r@ == ensure_in(Grammar::C, target@, source_code@),
{
    ensure_include(Grammar::C, target, source_code)
}

/// Point C includes of `from` at `to`.
#[derive(Debug)]
pub struct IncludeRename {
    pub from: String,
    pub to: String,
}

impl Operation for IncludeRename {
    open spec fn relevant_spec(&self, path: Seq<char>) -> bool {
        is_c(path)
    }

    open spec fn apply_spec(&self, source: Seq<char>) -> Seq<char> {
        rename_in(Grammar::C, self.from@, self.to@, source)
    }

    open spec fn prefilter_spec(&self) -> Option<Seq<char>> {
        Some(unquote(self.from@))
    }

    open spec fn describe_spec(&self) -> Seq<char> {
        "c::include \""@ + self.from@ + "\" -> \""@ + self.to@ + "\""@
    }

    fn is_file_relevant(&self, path: &str) -> (r: bool) {
        is_c_file(path)
    }

    fn apply(&self, source_code: &str) -> (r: String) {
        rename_include(Grammar::C, self.from.as_str(), self.to.as_str(), source_code)
    }

    fn prefilter(&self) -> (r: Option<&str>) {
        Some(unquote_str(self.from.as_str()))
    }

    fn describe(&self) -> (r: String) {
        let mut s = copy_str("c::include \"");
        push_str(&mut s, self.from.as_str());
        push_str(&mut s, "\" -> \"");
        push_str(&mut s, self.to.as_str());
        push_str(&mut s, "\"");
        s
    }
}

/// Remove the C includes of a path.
#[derive(Debug)]
pub struct IncludeDelete {
    pub target: String,
}

impl Operation for IncludeDelete {
    open spec fn relevant_spec(&self, path: Seq<char>) -> bool {
        is_c(path)
    }

    open spec fn apply_spec(&self, source: Seq<char>) -> Seq<char> {
        delete_in(Grammar::C, self.target@, source)
    }

    open spec fn prefilter_spec(&self) -> Option<Seq<char>> {
        Some(unquote(self.target@))
    }

    open spec fn describe_spec(&self) -> Seq<char> {
        "c::include \""@ + self.target@ + "\" -> delete"@
    }

    fn is_file_relevant(&self, path: &str) -> (r: bool) {
        is_c_file(path)
    }

    fn apply(&self, source_code: &str) -> (r: String) {
        delete_include(Grammar::C, self.target.as_str(), source_code)
    }

    fn prefilter(&self) -> (r: Option<&str>) {
        Some(unquote_str(self.target.as_str()))
    }

    fn describe(&self) -> (r: String) {
        let mut s = copy_str("c::include \"");
        push_str(&mut s, self.target.as_str());
        push_str(&mut s, "\" -> delete");
        s
    }
}

/// Idempotently add a C include if it is missing.
#[derive(Debug)]
pub struct IncludeEnsure {
    pub target: String,
}

impl Operation for IncludeEnsure {
    open spec fn relevant_spec(&self, path: Seq<char>) -> bool {
        is_c(path)
    }

    open spec fn apply_spec(&self, source: Seq<char>) -> Seq<char> {
        ensure_in(Grammar::C, self.target@, source)
    }

    open spec fn prefilter_spec(&self) -> Option<Seq<char>> {
        None
    }

    open spec fn describe_spec(&self) -> Seq<char> {
        "c::include \""@ + self.target@ + "\" -> ensure"@
    }

    fn is_file_relevant(&self, path: &str) -> (r: bool) {
        is_c_file(path)
    }

    fn apply(&self, source_code: &str) -> (r: String) {
        ensure_include(Grammar::C, self.target.as_str(), source_code)
    }

    fn prefilter(&self) -> (r: Option<&str>) {
        None
    }

    fn describe(&self) -> (r: String) {
        let mut s = copy_str("c::include \"");
        push_str(&mut s, self.target.as_str());
        push_str(&mut s, "\" -> ensure");
        s
    }
}

} // verus!

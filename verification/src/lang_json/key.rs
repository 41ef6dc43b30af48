//! `json::key`: set, insert or delete an object member by JSON Pointer.
//!
//! The document is parsed with tree-sitter-json only to locate spans; the
//! edit itself is one splice of text, so nothing else in the file moves.
//!
//! - A new member goes after the object's last member, on its own line
//!   with the same indentation when members are one per line, or after a
//!   `, ` when the object is written on one line.
//! - Missing parent objects are created, written compactly on one line.
//! - A pointer step into an array must be an existing index; `set` and
//!   `insert` never grow arrays.

use vstd::prelude::*;
use vstd::utf8::*;
use crate::text::{
    utf8, copy_str, push_str, push_all, push_range, bytes_of, decode_range, str_eq, is_whitespace,
    char_is_whitespace, string_views, trim, trim_start, trim_str,
};
use crate::syntax::{
    Grammar, NodeView, SyntaxNode, parsed_syntax, parse_syntax, views, field_child, child_by_field,
    named_children, named_children_of, idx_is, node_bytes, in_range,
};
use crate::edits::{Edit, edit_views, rewritten, rewrite_source};
use crate::render::{json_quoted, quote_json};
use crate::error::{Error, Result};
use crate::template::{is_digit, digits_value};
use crate::operation::Operation;
use crate::paths::{has_extension, has_ext};
use super::pointer::pointer_tokens;
use crate::suggest::chars_of;
use super::layout::{indent_at, indent_of, reindent, reindent_text, indent_unit, indent_unit_of};

verus! {

/// The string a JSON string literal `text` denotes, or `None` when `text`
/// is not one, as `serde_json` reads it.
pub uninterp spec fn json_string_of(text: Seq<char>) -> Option<Seq<char>>;

/// Whether the JSON texts `a` and `b` denote equal values, as
/// `serde_json` parses and compares them; `None` when either is not JSON.
pub uninterp spec fn json_same(a: Seq<char>, b: Seq<char>) -> Option<bool>;

/// The message `serde_json` gives for a text that is not a JSON value, or
/// `None` when it is one.
pub uninterp spec fn json_problem(text: Seq<char>) -> Option<Seq<char>>;

/// `serde_json::from_str::<String>`: the string a JSON string literal
/// denotes, as `json_string_of` names it.
#[verifier::external_body]
fn string_value(text: &str) -> (r: Option<String>)
    ensures
        match json_string_of(text@) {
            Some(s) => r matches Some(v) && v@ == s,
            None => r is None,
        },
{
    match serde_json::from_str::<String>(text) {
        Ok(s) => Some(s),
        Err(_) => None,
    }
}

/// `serde_json::from_str::<Value>` on both texts, then `Value`'s `==`:
/// whether they denote equal values, as `json_same` names it.
#[verifier::external_body]
fn same_value(a: &str, b: &str) -> (r: Option<bool>)
    ensures
        r == json_same(a@, b@),
{
    match (serde_json::from_str::<serde_json::Value>(a), serde_json::from_str::<serde_json::Value>(b)) {
        (Ok(x), Ok(y)) => Some(x == y),
        _ => None,
    }
}

/// `serde_json::from_str::<Value>`: `None` when the text is a JSON value,
/// else the error's message, as `json_problem` names it.
#[verifier::external_body]
fn value_problem(text: &str) -> (r: Option<String>)
    ensures
        match json_problem(text@) {
            Some(m) => r matches Some(s) && s@ == m,
            None => r is None,
        },
{
    match serde_json::from_str::<serde_json::Value>(text) {
        Ok(_) => None,
        Err(e) => Some(e.to_string()),
    }
}

/// What a rule does to the member it addresses. The value is kept as
/// written; it is used without its surrounding whitespace.
#[derive(Debug, Clone)]
pub enum Mode {
    /// Give the member the value `text`, creating it (and missing parent
    /// objects) or overwriting a value that differs.
    SetValue { text: String },
    /// Add the member with the value `text` only when it is absent.
    Insert { text: String },
    /// Remove the member; a missing one is a no-op.
    Delete,
}

/// The value text of a `set` or `insert`, trimmed.
pub open spec fn mode_text(m: Mode) -> Option<Seq<char>> {
    match m {
        Mode::SetValue { text } => Some(trim(text@)),
        Mode::Insert { text } => Some(trim(text@)),
        Mode::Delete => None,
    }
}

/// One `json::key` rule: the member that the pointer addresses, and what
/// to do to it.
#[derive(Debug)]
pub struct MemberEdit {
    pub raw_pointer: String,
    pub mode: Mode,
}

/// The message of a rejected pointer.
pub open spec fn pointer_error_text(raw: Seq<char>, problem: Seq<char>) -> Seq<char> {
    "json::key \""@ + raw + "\": "@ + problem
}

/// The message of a rejected value.
pub open spec fn value_error_text(raw: Seq<char>, text: Seq<char>, problem: Seq<char>) -> Seq<char> {
    "json::key \""@ + raw + "\": `"@ + text + "` is not a JSON value ("@ + problem + ")"@
}

/// Why a rule for the pointer `raw` (and the value `value` of a `set` or
/// `insert`) cannot be built: the value's trimmed text is not JSON, or the
/// pointer is malformed; `None` when it can.
pub open spec fn key_problem(raw: Seq<char>, value: Option<Seq<char>>) -> Option<Seq<char>> {
    match value {
        Some(v) if json_problem(trim(v)) is Some =>
            Some(value_error_text(raw, trim(v), json_problem(trim(v)).unwrap())),
        _ => match pointer_tokens(raw) {
            Ok(_) => None,
            Err(p) => Some(pointer_error_text(raw, p)),
        },
    }
}

/// `Err` with the message of [`key_problem`], or `Ok` when there is none.
pub(crate) fn check_key(pointer: &str, value: Option<&str>) -> (r: Result<()>)
    ensures
        match key_problem(pointer@, match value { Some(v) => Some(v@), None => None }) {
            Some(m) => r matches Err(Error::Config(x)) && x@ == m,
            None => r is Ok,
        },
{
    match value {
        Some(v) => {
            let text = trim_str(v);
            match value_problem(text) {
                Some(problem) => {
                    let mut m = copy_str("json::key \"");
                    push_str(&mut m, pointer);
                    push_str(&mut m, "\": `");
                    push_str(&mut m, text);
                    push_str(&mut m, "` is not a JSON value (");
                    push_str(&mut m, problem.as_str());
                    push_str(&mut m, ")");
                    return Err(Error::Config(m));
                },
                None => {},
            }
        },
        None => {},
    }
    match super::pointer::parse(pointer) {
        Ok(_) => Ok(()),
        Err(problem) => {
            let mut m = copy_str("json::key \"");
            push_str(&mut m, pointer);
            push_str(&mut m, "\": ");
            push_str(&mut m, problem.as_str());
            Err(Error::Config(m))
        },
    }
}

impl MemberEdit {
    /// `json::key "<pointer>" { set <value> }`.
    pub fn set(pointer: &str, value: &str) -> (r: Result<Self>)
        ensures
            match key_problem(pointer@, Some(value@)) {
                Some(m) => r matches Err(Error::Config(x)) && x@ == m,
                None => r matches Ok(e) && e.raw_pointer@ == pointer@
                    && (e.mode matches Mode::SetValue { text } && text@ == value@),
            },
    {
        match check_key(pointer, Some(value)) {
            Ok(()) => Ok(MemberEdit { raw_pointer: copy_str(pointer), mode: Mode::SetValue { text: copy_str(value) } }),
            Err(e) => Err(e),
        }
    }

    /// `json::key "<pointer>" { insert <value> }`.
    pub fn insert(pointer: &str, value: &str) -> (r: Result<Self>)
        ensures
            match key_problem(pointer@, Some(value@)) {
                Some(m) => r matches Err(Error::Config(x)) && x@ == m,
                None => r matches Ok(e) && e.raw_pointer@ == pointer@
                    && (e.mode matches Mode::Insert { text } && text@ == value@),
            },
    {
        match check_key(pointer, Some(value)) {
            Ok(()) => Ok(MemberEdit { raw_pointer: copy_str(pointer), mode: Mode::Insert { text: copy_str(value) } }),
            Err(e) => Err(e),
        }
    }

    /// `json::key "<pointer>" { delete }`.
    pub fn delete(pointer: &str) -> (r: Result<Self>)
        ensures
            match key_problem(pointer@, None) {
                Some(m) => r matches Err(Error::Config(x)) && x@ == m,
                None => r matches Ok(e) && e.raw_pointer@ == pointer@ && e.mode is Delete,
            },
    {
        match check_key(pointer, None) {
            Ok(()) => Ok(MemberEdit { raw_pointer: copy_str(pointer), mode: Mode::Delete }),
            Err(e) => Err(e),
        }
    }
}

/// A JSON value node.
pub open spec fn is_value_kind(k: Seq<char>) -> bool {
    ||| k == "object"@
    ||| k == "array"@
    ||| k == "string"@
    ||| k == "number"@
    ||| k == "true"@
    ||| k == "false"@
    ||| k == "null"@
}

fn value_kind(k: &str) -> (r: bool)
    ensures
        r == is_value_kind(k@),
{
    str_eq(k, "object") || str_eq(k, "array") || str_eq(k, "string") || str_eq(k, "number")
        || str_eq(k, "true") || str_eq(k, "false") || str_eq(k, "null")
}

/// The nodes of `cs` whose kind is a value kind (`want_pairs` false) or
/// `pair` (`want_pairs` true), in order.
pub open spec fn kept_among(ns: Seq<NodeView>, cs: Seq<int>, want_pairs: bool) -> Seq<int>
    decreases cs.len(),
{
    if cs.len() == 0 {
        Seq::empty()
    } else {
        let rest = kept_among(ns, cs.drop_last(), want_pairs);
        let k = cs.last();
        if 0 <= k < ns.len() && (if want_pairs { ns[k].kind == "pair"@ } else { is_value_kind(ns[k].kind) }) {
            rest.push(k)
        } else {
            rest
        }
    }
}

/// The members (`pair` nodes) of object `i`.
pub open spec fn pairs_of(ns: Seq<NodeView>, i: int) -> Seq<int> {
    kept_among(ns, named_children(ns, i), true)
}

/// The value nodes among the named children of `i`.
pub open spec fn values_of(ns: Seq<NodeView>, i: int) -> Seq<int> {
    kept_among(ns, named_children(ns, i), false)
}

/// Exec form of [`pairs_of`] / [`values_of`].
fn kept_children(nodes: &Vec<SyntaxNode>, i: usize, want_pairs: bool) -> (r: Vec<usize>)
    requires
        i < nodes@.len(),
    ensures
        r@.map_values(|k: usize| k as int) == kept_among(views(nodes@), named_children(views(nodes@), i as int), want_pairs),
        forall|j: int| 0 <= j < r@.len() ==> i < #[trigger] r@[j] < nodes@.len(),
{
    let ghost ns = views(nodes@);
    let cs = named_children_of(nodes, i);
    let ghost cv = cs@.map_values(|k: usize| k as int);
    let mut out: Vec<usize> = Vec::new();
    let mut j: usize = 0;
    assert(cv.subrange(0, 0) =~= Seq::<int>::empty());
    while j < cs.len()
        invariant
            ns == views(nodes@),
            cv == cs@.map_values(|k: usize| k as int),
            cv == named_children(ns, i as int),
            forall|q: int| 0 <= q < cs@.len() ==> i < #[trigger] cs@[q] < nodes@.len(),
            j <= cs@.len(),
            out@.map_values(|k: usize| k as int) == kept_among(ns, cv.subrange(0, j as int), want_pairs),
            forall|q: int| 0 <= q < out@.len() ==> i < #[trigger] out@[q] < nodes@.len(),
        decreases cs@.len() - j,
    {
        let k = cs[j];
        assert(cv.subrange(0, j + 1).drop_last() =~= cv.subrange(0, j as int));
        assert(cv.subrange(0, j + 1).last() == k as int);
        assert(ns[k as int] == nodes@[k as int]@);
        let keep = if want_pairs { str_eq(nodes[k].kind.as_str(), "pair") } else { value_kind(nodes[k].kind.as_str()) };
        if keep {
            let ghost prev = out@;
            out.push(k);
            assert(out@.map_values(|k: usize| k as int) =~= prev.map_values(|k: usize| k as int).push(k as int));
        }
        j = j + 1;
    }
    assert(cv.subrange(0, j as int) =~= cv);
    out
}

/// The text of a node, when its bytes lie in the source and are UTF-8.
pub open spec fn node_str(src: Seq<u8>, n: NodeView) -> Option<Seq<char>> {
    match node_bytes(src, n) {
        Some(b) => if valid_utf8(b) { Some(decode_utf8(b)) } else { None },
        None => None,
    }
}

/// Every node lies inside the source.
pub open spec fn all_in_range(src: Seq<u8>, ns: Seq<NodeView>) -> bool {
    forall|k: int| 0 <= k < ns.len() ==> #[trigger] in_range(src, ns[k])
}

/// Member `p` is keyed `token`: its key is a string literal denoting it.
pub open spec fn key_is(src: Seq<u8>, ns: Seq<NodeView>, p: int, token: Seq<char>) -> bool {
    match field_child(ns, p, "key"@) {
        Some(k) => match node_str(src, ns[k]) {
            Some(t) => json_string_of(t) == Some(token),
            None => false,
        },
        None => false,
    }
}

/// The first of the members `ps` keyed `token`.
pub open spec fn first_keyed(src: Seq<u8>, ns: Seq<NodeView>, ps: Seq<int>, token: Seq<char>) -> Option<int>
    decreases ps.len(),
{
    if ps.len() == 0 {
        None
    } else if key_is(src, ns, ps[0], token) {
        Some(ps[0])
    } else {
        first_keyed(src, ns, ps.drop_first(), token)
    }
}

/// The member a pointer step reaches is the first one with that key:
/// it is among the members and keyed `token`, no earlier member is, and
/// there is none only when no member is keyed `token`.
pub proof fn law_first_keyed_is_the_first(src: Seq<u8>, ns: Seq<NodeView>, ps: Seq<int>, token: Seq<char>)
    ensures
        match first_keyed(src, ns, ps, token) {
            Some(p) => exists|a: int| 0 <= a < ps.len() && #[trigger] ps[a] == p && key_is(src, ns, p, token)
                && forall|b: int| 0 <= b < a ==> !key_is(src, ns, #[trigger] ps[b], token),
            None => forall|a: int| 0 <= a < ps.len() ==> !key_is(src, ns, #[trigger] ps[a], token),
        },
    decreases ps.len(),
{
    if ps.len() > 0 {
        law_first_keyed_is_the_first(src, ns, ps.drop_first(), token);
        let t = ps.drop_first();
        if key_is(src, ns, ps[0], token) {
            assert(ps[0] == ps[0]);
        } else {
            match first_keyed(src, ns, t, token) {
                Some(p) => {
                    let a = choose|a: int| 0 <= a < t.len() && #[trigger] t[a] == p && key_is(src, ns, p, token)
                        && forall|b: int| 0 <= b < a ==> !key_is(src, ns, #[trigger] t[b], token);
                    assert(ps[a + 1] == p);
                    assert forall|b: int| 0 <= b < a + 1 implies !key_is(src, ns, #[trigger] ps[b], token) by {
                        if b > 0 {
                            assert(ps[b] == t[b - 1]);
                        }
                    }
                },
                None => {
                    assert forall|a: int| 0 <= a < ps.len() implies !key_is(src, ns, #[trigger] ps[a], token) by {
                        if a > 0 {
                            assert(ps[a] == t[a - 1]);
                        }
                    }
                },
            }
        }
    }
}

/// `usize::from_str`: an optional `+` and one or more ASCII digits whose
/// value fits in a `usize`.
pub open spec fn parse_index(token: Seq<char>) -> Option<nat> {
    let d = unsigned_digits(token);
    if d.len() > 0 && all_digits(d) && digits_value(d, 0, d.len() as int) <= usize::MAX {
        Some(digits_value(d, 0, d.len() as int))
    } else {
        None
    }
}

/// The token without a leading `+`.
pub open spec fn unsigned_digits(token: Seq<char>) -> Seq<char> {
    if token.len() > 0 && token[0] == '+' { token.drop_first() } else { token }
}

pub open spec fn all_digits(d: Seq<char>) -> bool {
    forall|i: int| 0 <= i < d.len() ==> is_digit(#[trigger] d[i])
}

proof fn lemma_digits_grow(t: Seq<char>, j: int, k: int)
    requires
        0 <= j <= k <= t.len(),
        forall|i: int| 0 <= i < t.len() ==> is_digit(#[trigger] t[i]),
    ensures
        digits_value(t, 0, j) <= digits_value(t, 0, k),
    decreases k - j,
{
    if j < k {
        lemma_digits_grow(t, j, k - 1);
        assert(is_digit(t[k - 1]));
    }
}

/// Exec form of [`parse_index`].
fn index_of_token(token: &str) -> (r: Option<usize>)
    ensures
        match parse_index(token@) {
            Some(v) => r == Some(v as usize),
            None => r is None,
        },
{
    let cs = chars_of(token);
    let ghost t = token@;
    let start: usize = if cs.len() > 0 && cs[0] == '+' { 1 } else { 0 };
    let ghost d = unsigned_digits(t);
    assert(d =~= t.subrange(start as int, t.len() as int));
    if start == cs.len() {
        assert(d.len() == 0);
        return None;
    }
    let mut v: usize = 0;
    let mut i: usize = start;
    while i < cs.len()
        invariant
            cs@ == t,
            t == token@,
            d == unsigned_digits(t),
            d == t.subrange(start as int, t.len() as int),
            start < cs@.len(),
            start <= i <= cs@.len(),
            forall|q: int| 0 <= q < i - start ==> is_digit(#[trigger] d[q]),
            v == digits_value(d, 0, i - start),
        decreases cs@.len() - i,
    {
        let c = cs[i];
        assert(d[i - start] == c);
        if !('0' <= c && c <= '9') {
            assert(!is_digit(d[i - start]));
            assert(!all_digits(d));
            return None;
        }
        let digit: usize = (c as u32 - 48u32) as usize;
        assert(digit == (d[i - start] as int) - ('0' as int));
        if v > (usize::MAX - digit) / 10 {
            proof {
                assert(forall|q: int| 0 <= q < i - start + 1 ==> is_digit(#[trigger] d[q]));
                let full = d;
                if all_digits(full) {
                    lemma_digits_grow(full, i - start + 1, full.len() as int);
                    assert(digits_value(full, 0, i - start + 1) == v * 10 + digit) by (nonlinear_arith)
                        requires v == digits_value(full, 0, i - start), digits_value(full, 0, i - start + 1) == digits_value(full, 0, i - start) * 10 + digit;
                    assert(v * 10 + digit > usize::MAX) by (nonlinear_arith)
                        requires v > (usize::MAX - digit) / 10, digit <= 9;
                    assert(digits_value(full, 0, full.len() as int) > usize::MAX);
                }
            }
            return None;
        }
        assert(v * 10 + digit <= usize::MAX) by (nonlinear_arith)
            requires v <= (usize::MAX - digit) / 10, digit <= 9;
        v = v * 10 + digit;
        i = i + 1;
    }
    assert(d.len() == i - start);
    Some(v)
}

/// How a pointer step resolves inside a node.
pub enum Step {
    /// The member of an object: its `pair` node and its value node.
    Member(int, int),
    /// An element of an array.
    Element(int),
    /// The node is an object without this member.
    Missing,
}

/// The member `token` of an object, or element `token` of an array.
/// `None` when the node cannot hold it: a scalar, a member without a
/// value, or an array index that is not a number or is out of range.
pub open spec fn step(src: Seq<u8>, ns: Seq<NodeView>, node: int, token: Seq<char>) -> Option<Step> {
    if !(0 <= node < ns.len()) {
        None
    } else if ns[node].kind == "object"@ {
        match first_keyed(src, ns, pairs_of(ns, node), token) {
            Some(p) => match field_child(ns, p, "value"@) {
                Some(v) => Some(Step::Member(p, v)),
                None => None,
            },
            None => Some(Step::Missing),
        }
    } else if ns[node].kind == "array"@ {
        match parse_index(token) {
            Some(ix) => if ix < values_of(ns, node).len() { Some(Step::Element(values_of(ns, node)[ix as int])) } else { None },
            None => None,
        }
    } else {
        None
    }
}

/// Exec form of [`Step`].
pub enum Child {
    Member { pair: usize, value: usize },
    Element(usize),
    Missing,
}

pub open spec fn child_view(c: Child) -> Step {
    match c {
        Child::Member { pair, value } => Step::Member(pair as int, value as int),
        Child::Element(v) => Step::Element(v as int),
        Child::Missing => Step::Missing,
    }
}

/// Exec form of [`step`].
fn child(src: &[u8], nodes: &Vec<SyntaxNode>, node: usize, token: &str) -> (r: Option<Child>)
    requires
        node < nodes@.len(),
    ensures
        match step(src@, views(nodes@), node as int, token@) {
            Some(s) => r matches Some(c) && child_view(c) == s,
            None => r is None,
        },
        r matches Some(Child::Member { pair, value }) ==> pair < nodes@.len() && value < nodes@.len(),
        r matches Some(Child::Element(v)) ==> v < nodes@.len(),
{
    let ghost ns = views(nodes@);
    assert(ns[node as int] == nodes@[node as int]@);
    if str_eq(nodes[node].kind.as_str(), "object") {
        let ps = kept_children(nodes, node, true);
        let ghost pv = ps@.map_values(|k: usize| k as int);
        let mut j: usize = 0;
        assert(pv.subrange(0, pv.len() as int) =~= pv);
        while j < ps.len()
            invariant
                ns == views(nodes@),
                node < nodes@.len(),
                ns[node as int].kind == "object"@,
                pv == ps@.map_values(|k: usize| k as int),
                pv == pairs_of(ns, node as int),
                forall|q: int| 0 <= q < ps@.len() ==> node < #[trigger] ps@[q] < nodes@.len(),
                j <= ps@.len(),
                first_keyed(src@, ns, pv, token@) == first_keyed(src@, ns, pv.subrange(j as int, pv.len() as int), token@),
            decreases ps@.len() - j,
        {
            let p = ps[j];
            let ghost rest = pv.subrange(j as int, pv.len() as int);
            assert(rest[0] == p as int);
            assert(rest.drop_first() =~= pv.subrange(j + 1, pv.len() as int));
            let mut keyed = false;
            match child_by_field(nodes, p, "key") {
                Some(k) => {
                    assert(ns[k as int] == nodes@[k as int]@);
                    let n = &nodes[k];
                    if n.start <= n.end && n.end <= src.len() {
                        match decode_range(src, n.start, n.end) {
                            Some(t) => match string_value(t.as_str()) {
                                Some(v) => { keyed = str_eq(v.as_str(), token); },
                                None => {},
                            },
                            None => {},
                        }
                    }
                },
                None => {},
            }
            assert(keyed == key_is(src@, ns, p as int, token@));
            if keyed {
                assert(first_keyed(src@, ns, rest, token@) == Some(p as int));
                return match child_by_field(nodes, p, "value") {
                    Some(v) => Some(Child::Member { pair: p, value: v }),
                    None => None,
                };
            }
            j = j + 1;
        }
        assert(pv.subrange(j as int, pv.len() as int) =~= Seq::<int>::empty());
        Some(Child::Missing)
    } else if str_eq(nodes[node].kind.as_str(), "array") {
        match index_of_token(token) {
            Some(ix) => {
                let vs = kept_children(nodes, node, false);
                if ix < vs.len() {
                    Some(Child::Element(vs[ix]))
                } else {
                    None
                }
            },
            None => None,
        }
    } else {
        None
    }
}

/// `"key": ` for a member named `key`.
pub open spec fn key_prefix(key: Seq<char>) -> Seq<u8> {
    utf8(json_quoted(key)) + seq![58u8, 32u8]
}

fn key_prefix_bytes(key: &str) -> (r: Vec<u8>)
    ensures
        r@ == key_prefix(key@),
{
    let q = quote_json(key);
    let mut out = bytes_of(q.as_str());
    out.push(58u8);
    out.push(32u8);
    out
}

/// `inner` wrapped in one object per key, the first key outermost:
/// the missing parents of a new member, written on one line.
pub open spec fn nest(keys: Seq<Seq<char>>, inner: Seq<u8>) -> Seq<u8>
    decreases keys.len(),
{
    if keys.len() == 0 {
        inner
    } else {
        seq![123u8] + key_prefix(keys[0]) + nest(keys.drop_first(), inner) + seq![125u8]
    }
}

/// Exec form of [`nest`] for the keys `tokens[from..]`.
fn nest_bytes(tokens: &Vec<String>, from: usize, inner: &[u8]) -> (r: Vec<u8>)
    requires
        from <= tokens@.len(),
    ensures
        r@ == nest(string_views(tokens@).subrange(from as int, tokens@.len() as int), inner@),
{
    let ghost ts = string_views(tokens@);
    let mut out: Vec<u8> = Vec::new();
    push_all(&mut out, inner);
    let mut k = tokens.len();
    assert(ts.subrange(k as int, ts.len() as int) =~= Seq::<Seq<char>>::empty());
    while k > from
        invariant
            ts == string_views(tokens@),
            from <= k <= tokens@.len(),
            out@ == nest(ts.subrange(k as int, ts.len() as int), inner@),
        decreases k,
    {
        k = k - 1;
        let prefix = key_prefix_bytes(tokens[k].as_str());
        let mut wrapped: Vec<u8> = Vec::new();
        wrapped.push(123u8);
        push_all(&mut wrapped, prefix.as_slice());
        push_all(&mut wrapped, out.as_slice());
        wrapped.push(125u8);
        assert(ts.subrange(k as int, ts.len() as int).drop_first() =~= ts.subrange(k + 1, ts.len() as int));
        assert(ts.subrange(k as int, ts.len() as int)[0] == tokens@[k as int]@);
        out = wrapped;
    }
    out
}

/// No line break lies between `from` and `to`.
pub open spec fn same_line(src: Seq<u8>, from: int, to: int) -> bool {
    forall|i: int| from <= i < to ==> #[trigger] src[i] != 10u8
}

fn on_same_line(src: &[u8], from: usize, to: usize) -> (r: bool)
    requires
        to <= src@.len(),
    ensures
        r == same_line(src@, from as int, to as int),
{
    let mut i = from;
    while i < to
        invariant
            to <= src@.len(),
            from <= i,
            forall|q: int| from <= q < i ==> #[trigger] src@[q] != 10u8,
        decreases to - i,
    {
        if src[i] == 10u8 {
            return false;
        }
        i = i + 1;
    }
    true
}

/// The edit adding member `key` with the value bytes `value` to object
/// `obj`: after its last member, in that member's layout, or opening up
/// an empty object onto its own lines. `None` when `obj` is not an object.
pub open spec fn insertion(src: Seq<u8>, ns: Seq<NodeView>, obj: int, key: Seq<char>, value: Seq<u8>) -> Option<(int, int, Seq<u8>)> {
    if !(0 <= obj < ns.len()) || ns[obj].kind != "object"@ {
        None
    } else {
        let ps = pairs_of(ns, obj);
        if ps.len() > 0 {
            let last = ps.last();
            let at = ns[last].end;
            if same_line(src, ns[obj].start, ns[last].start) {
                Some((at, at, seq![44u8, 32u8] + key_prefix(key) + value))
            } else {
                let indent = indent_at(src, ns[last].start);
                Some((at, at, seq![44u8, 10u8] + indent + key_prefix(key) + reindent(value, indent)))
            }
        } else {
            let base = indent_at(src, ns[obj].start);
            let inner = base + indent_unit(src);
            Some((ns[obj].start, ns[obj].end,
                seq![123u8, 10u8] + inner + key_prefix(key) + reindent(value, inner) + seq![10u8] + base + seq![125u8]))
        }
    }
}

fn insert_member(src: &[u8], nodes: &Vec<SyntaxNode>, obj: usize, key: &str, value: &[u8]) -> (r: Option<Edit>)
    requires
        obj < nodes@.len(),
        all_in_range(src@, views(nodes@)),
    ensures
        match insertion(src@, views(nodes@), obj as int, key@, value@) {
            Some(e) => r matches Some(x) && x@ == e,
            None => r is None,
        },
{
    let ghost ns = views(nodes@);
    assert(ns[obj as int] == nodes@[obj as int]@);
    if !str_eq(nodes[obj].kind.as_str(), "object") {
        return None;
    }
    let ps = kept_children(nodes, obj, true);
    let prefix = key_prefix_bytes(key);
    if ps.len() > 0 {
        let last = ps[ps.len() - 1];
        assert(ns[last as int] == nodes@[last as int]@);
        assert(in_range(src@, ns[last as int]));
        assert(in_range(src@, ns[obj as int]));
        let at = nodes[last].end;
        let mut text: Vec<u8> = Vec::new();
        if on_same_line(src, nodes[obj].start, nodes[last].start) {
            text.push(44u8);
            text.push(32u8);
            push_all(&mut text, prefix.as_slice());
            push_all(&mut text, value);
        } else {
            let indent = indent_of(src, nodes[last].start);
            text.push(44u8);
            text.push(10u8);
            push_all(&mut text, indent.as_slice());
            push_all(&mut text, prefix.as_slice());
            push_all(&mut text, reindent_text(value, indent.as_slice()).as_slice());
        }
        Some(Edit { start: at, end: at, text })
    } else {
        assert(in_range(src@, ns[obj as int]));
        let base = indent_of(src, nodes[obj].start);
        let mut inner: Vec<u8> = Vec::new();
        push_all(&mut inner, base.as_slice());
        push_all(&mut inner, indent_unit_of(src).as_slice());
        let mut text: Vec<u8> = Vec::new();
        text.push(123u8);
        text.push(10u8);
        push_all(&mut text, inner.as_slice());
        push_all(&mut text, prefix.as_slice());
        push_all(&mut text, reindent_text(value, inner.as_slice()).as_slice());
        text.push(10u8);
        push_all(&mut text, base.as_slice());
        text.push(125u8);
        Some(Edit { start: nodes[obj].start, end: nodes[obj].end, text })
    }
}

/// The position of `p` among `ps` from `j` on, or 0 when it is absent.
pub open spec fn position_from(ps: Seq<int>, p: int, j: int) -> int
    decreases ps.len() - j,
{
    if j < 0 || j >= ps.len() {
        0
    } else if ps[j] == p {
        j
    } else {
        position_from(ps, p, j + 1)
    }
}

proof fn lemma_position_bounds(ps: Seq<int>, p: int, j: int)
    requires
        0 <= j,
    ensures
        0 <= position_from(ps, p, j),
        ps.len() > 0 ==> position_from(ps, p, j) < ps.len(),
    decreases ps.len() - j,
{
    if j < ps.len() && ps[j] != p {
        lemma_position_bounds(ps, p, j + 1);
    }
}

/// The edit removing member `p` of object `obj` with the comma that
/// separates it from a neighbour: up to the next member, or from the end
/// of the previous one; the only member leaves `{}`.
pub open spec fn removal(ns: Seq<NodeView>, obj: int, p: int) -> (int, int, Seq<u8>) {
    let ps = pairs_of(ns, obj);
    let i = position_from(ps, p, 0);
    if i + 1 < ps.len() {
        (ns[p].start, ns[ps[i + 1]].start, Seq::empty())
    } else if i > 0 {
        (ns[ps[i - 1]].end, ns[p].end, Seq::empty())
    } else {
        (ns[obj].start, ns[obj].end, seq![123u8, 125u8])
    }
}

/// The members of object `obj` lie inside it in document order, each a
/// non-empty span ending before the next one starts, as a parse lays
/// them out.
pub open spec fn members_laid_out(ns: Seq<NodeView>, obj: int) -> bool {
    let ps = pairs_of(ns, obj);
    &&& 0 <= obj < ns.len()
    &&& forall|a: int| 0 <= a < ps.len() ==> 0 <= #[trigger] ps[a] < ns.len()
        && ns[obj].start <= ns[ps[a]].start < ns[ps[a]].end <= ns[obj].end
    &&& forall|a: int, b: int| 0 <= a < b < ps.len() ==> ns[#[trigger] ps[a]].end <= ns[#[trigger] ps[b]].start
}

/// The search from `j` finds the first later occurrence of `p`.
proof fn lemma_position_finds(ps: Seq<int>, p: int, j: int, a: int)
    requires
        0 <= j <= a < ps.len(),
        ps[a] == p,
    ensures
        j <= position_from(ps, p, j) <= a,
        ps[position_from(ps, p, j)] == p,
    decreases a - j,
{
    if ps[j] != p {
        lemma_position_finds(ps, p, j + 1, a);
    }
}

/// Deleting a member removes exactly that member: the removed span holds
/// all of it and no byte of any other member of the object; with other
/// members left, nothing is written in its place (the separating comma
/// goes with it), and the only member leaves an empty object `{}`.
pub proof fn law_delete_removes_exactly_the_member(ns: Seq<NodeView>, obj: int, p: int)
    requires
        members_laid_out(ns, obj),
        pairs_of(ns, obj).contains(p),
    ensures
        ({
            let (s, e, t) = removal(ns, obj, p);
            let ps = pairs_of(ns, obj);
            &&& s <= ns[p].start && ns[p].end <= e
            &&& forall|q: int| ps.contains(q) && q != p ==> ns[q].end <= s || e <= ns[q].start
            &&& ps.len() > 1 ==> t.len() == 0
            &&& ps.len() == 1 ==> s == ns[obj].start && e == ns[obj].end && t == seq![123u8, 125u8]
        }),
{
    let ps = pairs_of(ns, obj);
    let a = choose|a: int| 0 <= a < ps.len() && ps[a] == p;
    lemma_position_finds(ps, p, 0, a);
    let i = position_from(ps, p, 0);
    assert(ps[i] == p);
    let (s, e, t) = removal(ns, obj, p);
    assert(0 <= ps[i] < ns.len() && ns[ps[i]].start < ns[ps[i]].end);
    if i + 1 < ps.len() {
        assert(ns[ps[i]].end <= ns[ps[i + 1]].start);
    } else if i > 0 {
        assert(ns[ps[i - 1]].end <= ns[ps[i]].start);
    } else {
        assert(ps.len() == 1);
    }
    assert forall|q: int| ps.contains(q) && q != p implies ns[q].end <= s || e <= ns[q].start by {
        let b = choose|b: int| 0 <= b < ps.len() && ps[b] == q;
        assert(b != i);
        assert(0 <= ps[b] < ns.len() && ns[ps[b]].start < ns[ps[b]].end);
        if b < i {
            assert(ns[ps[b]].end <= ns[ps[i]].start);
            if i + 1 >= ps.len() && i > 0 && b < i - 1 {
                assert(ns[ps[b]].end <= ns[ps[i - 1]].start);
                assert(0 <= ps[i - 1] < ns.len() && ns[ps[i - 1]].start < ns[ps[i - 1]].end);
            }
        } else {
            if b > i + 1 {
                assert(ns[ps[i + 1]].end <= ns[ps[b]].start);
                assert(0 <= ps[i + 1] < ns.len() && ns[ps[i + 1]].start < ns[ps[i + 1]].end);
            }
        }
    }
}

fn delete_member(nodes: &Vec<SyntaxNode>, obj: usize, p: usize) -> (r: Edit)
    requires
        obj < nodes@.len(),
        p < nodes@.len(),
    ensures
        r@ == removal(views(nodes@), obj as int, p as int),
{
    let ghost ns = views(nodes@);
    let ps = kept_children(nodes, obj, true);
    let ghost pv = ps@.map_values(|k: usize| k as int);
    let mut i: usize = 0;
    while i < ps.len() && ps[i] != p
        invariant
            pv == ps@.map_values(|k: usize| k as int),
            i <= ps@.len(),
            position_from(pv, p as int, 0) == position_from(pv, p as int, i as int),
        decreases ps@.len() - i,
    {
        i = i + 1;
    }
    let index = if i < ps.len() { i } else { 0 };
    proof {
        lemma_position_bounds(pv, p as int, 0);
    }
    assert(index == position_from(pv, p as int, 0));
    assert(ns[p as int] == nodes@[p as int]@);
    assert(ns[obj as int] == nodes@[obj as int]@);
    if index + 1 < ps.len() {
        let next = ps[index + 1];
        assert(ns[next as int] == nodes@[next as int]@);
        Edit { start: nodes[p].start, end: nodes[next].start, text: Vec::new() }
    } else if index > 0 {
        let prev = ps[index - 1];
        assert(ns[prev as int] == nodes@[prev as int]@);
        Edit { start: nodes[prev].end, end: nodes[p].end, text: Vec::new() }
    } else {
        let mut text: Vec<u8> = Vec::new();
        text.push(123u8);
        text.push(125u8);
        assert(text@ =~= seq![123u8, 125u8]);
        Edit { start: nodes[obj].start, end: nodes[obj].end, text }
    }
}

/// The edit giving value node `v` the value `text`, when its current
/// value is JSON and differs.
pub open spec fn replacement(src: Seq<u8>, ns: Seq<NodeView>, v: int, text: Seq<char>) -> Option<(int, int, Seq<u8>)> {
    match node_str(src, ns[v]) {
        Some(current) => match json_same(current, text) {
            Some(false) => Some((ns[v].start, ns[v].end, reindent(utf8(text), indent_at(src, ns[v].start)))),
            _ => None,
        },
        None => None,
    }
}

/// Setting a value rewrites exactly the value's span, and only when the
/// value there differs in meaning from the new one: a value equal as
/// JSON (whatever its spelling) is left alone.
pub proof fn law_set_replaces_only_the_value(src: Seq<u8>, ns: Seq<NodeView>, v: int, text: Seq<char>)
    ensures
        replacement(src, ns, v, text) matches Some(e) ==> {
            &&& e.0 == ns[v].start && e.1 == ns[v].end
            &&& node_bytes(src, ns[v]) is Some
            &&& json_same(decode_utf8(node_bytes(src, ns[v])->Some_0), text) == Some(false)
        },
        (node_str(src, ns[v]) matches Some(c) && json_same(c, text) == Some(false)) ==> replacement(src, ns, v, text) is Some,
        (node_str(src, ns[v]) matches Some(c) && json_same(c, text) == Some(true)) ==> replacement(src, ns, v, text) is None,
{
}

/// Inserting a member into an object with members removes nothing: it
/// writes, right after the last member, a comma and then the new key;
/// into an empty object it rewrites the object's own span as an object
/// holding the key.
pub proof fn law_insert_adds_after_the_last_member(src: Seq<u8>, ns: Seq<NodeView>, obj: int, key: Seq<char>, value: Seq<u8>)
    ensures
        insertion(src, ns, obj, key, value) matches Some(e) ==> {
            let ps = pairs_of(ns, obj);
            &&& ps.len() > 0 ==> e.0 == e.1 && e.0 == ns[ps.last()].end && e.2.len() > 0 && e.2[0] == 44u8
                && exists|a: int| 0 <= a && a + key_prefix(key).len() <= e.2.len()
                    && #[trigger] e.2.subrange(a, a + key_prefix(key).len()) == key_prefix(key)
            &&& ps.len() == 0 ==> e.0 == ns[obj].start && e.1 == ns[obj].end && e.2.len() > 0
                && e.2[0] == 123u8 && e.2.last() == 125u8
                && exists|a: int| 0 <= a && a + key_prefix(key).len() <= e.2.len()
                    && #[trigger] e.2.subrange(a, a + key_prefix(key).len()) == key_prefix(key)
        },
{
    if let Some(e) = insertion(src, ns, obj, key, value) {
        let ps = pairs_of(ns, obj);
        let kp = key_prefix(key);
        if ps.len() > 0 {
            let last = ps.last();
            if same_line(src, ns[obj].start, ns[last].start) {
                assert(e.2.subrange(2, 2 + kp.len() as int) =~= kp);
            } else {
                let indent = indent_at(src, ns[last].start);
                assert(e.2.subrange(2 + indent.len() as int, 2 + indent.len() as int + kp.len() as int) =~= kp);
            }
        } else {
            let base = indent_at(src, ns[obj].start);
            let inner = base + indent_unit(src);
            assert(e.2.subrange(2 + inner.len() as int, 2 + inner.len() as int + kp.len() as int) =~= kp);
        }
    }
}

fn replace_value(src: &[u8], nodes: &Vec<SyntaxNode>, v: usize, text: &str) -> (r: Option<Edit>)
    requires
        v < nodes@.len(),
        all_in_range(src@, views(nodes@)),
    ensures
        match replacement(src@, views(nodes@), v as int, text@) {
            Some(e) => r matches Some(x) && x@ == e,
            None => r is None,
        },
{
    let ghost ns = views(nodes@);
    assert(ns[v as int] == nodes@[v as int]@);
    assert(in_range(src@, ns[v as int]));
    let n = &nodes[v];
    let current = match decode_range(src, n.start, n.end) {
        Some(c) => c,
        None => return None,
    };
    match same_value(current.as_str(), text) {
        Some(false) => {
            let indent = indent_of(src, n.start);
            let bytes = bytes_of(text);
            Some(Edit { start: n.start, end: n.end, text: reindent_text(bytes.as_slice(), indent.as_slice()) })
        },
        _ => None,
    }
}

/// The edit for the last pointer step, `last`, inside `node`.
pub open spec fn final_edit(src: Seq<u8>, ns: Seq<NodeView>, node: int, last: Seq<char>, mode: Mode) -> Option<(int, int, Seq<u8>)> {
    match step(src, ns, node, last) {
        None => None,
        Some(Step::Missing) => match mode_text(mode) {
            Some(t) => insertion(src, ns, node, last, utf8(t)),
            None => None,
        },
        Some(Step::Member(p, v)) => match mode {
            Mode::SetValue { text } => replacement(src, ns, v, trim(text@)),
            Mode::Insert { .. } => None,
            Mode::Delete => Some(removal(ns, node, p)),
        },
        Some(Step::Element(v)) => match mode {
            Mode::SetValue { text } => replacement(src, ns, v, trim(text@)),
            _ => None,
        },
    }
}

/// The edit for the pointer steps `tokens[d..]` inside `node`: follow the
/// members and elements that exist; at the first missing member, a `set`
/// or `insert` creates it with the rest of the path as nested objects.
pub open spec fn walk(src: Seq<u8>, ns: Seq<NodeView>, node: int, tokens: Seq<Seq<char>>, d: int, mode: Mode) -> Option<(int, int, Seq<u8>)>
    decreases tokens.len() - d,
{
    if d < 0 || d >= tokens.len() {
        None
    } else if d == tokens.len() - 1 {
        final_edit(src, ns, node, tokens[d], mode)
    } else {
        match step(src, ns, node, tokens[d]) {
            Some(Step::Member(_, v)) => walk(src, ns, v, tokens, d + 1, mode),
            Some(Step::Element(v)) => walk(src, ns, v, tokens, d + 1, mode),
            Some(Step::Missing) => match mode_text(mode) {
                Some(t) => insertion(src, ns, node, tokens[d], nest(tokens.subrange(d + 1, tokens.len() as int), utf8(t))),
                None => None,
            },
            None => None,
        }
    }
}

/// The one splice a rule makes to a parsed document, or `None` when it
/// changes nothing. A document that does not parse cleanly is left alone.
pub open spec fn member_edit(src: Seq<u8>, ns: Seq<NodeView>, tokens: Seq<Seq<char>>, mode: Mode) -> Option<(int, int, Seq<u8>)> {
    if ns.len() == 0 || !all_in_range(src, ns) || ns[0].has_error {
        None
    } else {
        let vs = values_of(ns, 0);
        if vs.len() == 0 {
            None
        } else {
            walk(src, ns, vs[0], tokens, 0, mode)
        }
    }
}

/// The document after a rule for the pointer `raw`: its one splice
/// applied, or unchanged (also when the pointer is malformed).
pub open spec fn key_result(raw: Seq<char>, mode: Mode, source: Seq<char>) -> Seq<char> {
    match pointer_tokens(raw) {
        Ok(tokens) => match parsed_syntax(Grammar::Json, source) {
            Some(ns) => match member_edit(utf8(source), ns, tokens, mode) {
                Some(e) => rewritten(source, seq![e]),
                None => source,
            },
            None => source,
        },
        Err(_) => source,
    }
}

fn nodes_in_range(src: &[u8], nodes: &Vec<SyntaxNode>) -> (r: bool)
    ensures
        r == all_in_range(src@, views(nodes@)),
{
    let ghost ns = views(nodes@);
    let mut k: usize = 0;
    while k < nodes.len()
        invariant
            ns == views(nodes@),
            k <= nodes@.len(),
            forall|q: int| 0 <= q < k ==> #[trigger] in_range(src@, ns[q]),
        decreases nodes@.len() - k,
    {
        assert(ns[k as int] == nodes@[k as int]@);
        if !(nodes[k].start <= nodes[k].end && nodes[k].end <= src.len()) {
            assert(!in_range(src@, ns[k as int]));
            return false;
        }
        k = k + 1;
    }
    true
}

/// The value text of a mode, trimmed.
fn mode_value(mode: &Mode) -> (r: Option<&str>)
    ensures
        match mode_text(*mode) {
            Some(t) => r matches Some(s) && s@ == t,
            None => r is None,
        },
{
    match mode {
        Mode::SetValue { text } => Some(trim_str(text.as_str())),
        Mode::Insert { text } => Some(trim_str(text.as_str())),
        Mode::Delete => None,
    }
}

impl MemberEdit {
    /// The one splice this rule makes to a parsed document (see
    /// [`member_edit`]).
    fn edit(&self, tokens: &Vec<String>, src: &[u8], nodes: &Vec<SyntaxNode>) -> (r: Option<Edit>)
        ensures
            match member_edit(src@, views(nodes@), string_views(tokens@), self.mode) {
                Some(e) => r matches Some(x) && x@ == e,
                None => r is None,
            },
    {
        let ghost ns = views(nodes@);
        let ghost ts = string_views(tokens@);
        if nodes.len() == 0 || !nodes_in_range(src, nodes) {
            return None;
        }
        assert(ns[0] == nodes@[0]@);
        if nodes[0].has_error {
            return None;
        }
        let vs = kept_children(nodes, 0, false);
        if vs.len() == 0 {
            return None;
        }
        let n = tokens.len();
        if n == 0 {
            return None;
        }
        let mut node = vs[0];
        let mut d: usize = 0;
        while d + 1 < n
            invariant
                ns == views(nodes@),
                ts == string_views(tokens@),
                n == ts.len(),
                all_in_range(src@, ns),
                node < nodes@.len(),
                d < n,
                member_edit(src@, ns, ts, self.mode) == walk(src@, ns, node as int, ts, d as int, self.mode),
            decreases n - d,
        {
            let token = tokens[d].as_str();
            assert(token@ == ts[d as int]);
            match child(src, nodes, node, token) {
                Some(Child::Member { pair, value }) => {
                    node = value;
                },
                Some(Child::Element(value)) => {
                    node = value;
                },
                Some(Child::Missing) => {
                    let text = match mode_value(&self.mode) {
                        Some(t) => t,
                        None => return None,
                    };
                    let bytes = bytes_of(text);
                    let nested = nest_bytes(tokens, d + 1, bytes.as_slice());
                    return insert_member(src, nodes, node, token, nested.as_slice());
                },
                None => return None,
            }
            d = d + 1;
        }
        let last = tokens[d].as_str();
        assert(last@ == ts[d as int]);
        match child(src, nodes, node, last) {
            None => None,
            Some(Child::Missing) => match mode_value(&self.mode) {
                Some(t) => insert_member(src, nodes, node, last, bytes_of(t).as_slice()),
                None => None,
            },
            Some(Child::Member { pair, value }) => match &self.mode {
                Mode::SetValue { text } => replace_value(src, nodes, value, trim_str(text.as_str())),
                Mode::Insert { .. } => None,
                Mode::Delete => Some(delete_member(nodes, node, pair)),
            },
            Some(Child::Element(value)) => match &self.mode {
                Mode::SetValue { text } => replace_value(src, nodes, value, trim_str(text.as_str())),
                _ => None,
            },
        }
    }

    /// Apply the rule to a document.
    pub fn apply_to(&self, source_code: &str) -> (r: String)
        ensures
            r@ == key_result(self.raw_pointer@, self.mode, source_code@),
    {
        let tokens = match super::pointer::parse(self.raw_pointer.as_str()) {
            Ok(t) => t,
            Err(_) => return copy_str(source_code),
        };
        let nodes = match parse_syntax(Grammar::Json, source_code) {
            Some(n) => n,
            None => return copy_str(source_code),
        };
        match self.edit(&tokens, source_code.as_bytes(), &nodes) {
            Some(e) => {
                let mut edits: Vec<Edit> = Vec::new();
                edits.push(e);
                assert(edit_views(edits@) =~= seq![edits@[0]@]);
                rewrite_source(source_code, &edits)
            },
            None => copy_str(source_code),
        }
    }
}

/// The path names a JSON file.
pub open spec fn is_json(path: Seq<char>) -> bool {
    has_extension(path, "json"@)
}

/// How a rule describes itself: `json::key "<pointer>" -> set <value>`.
pub open spec fn describe_edit(raw: Seq<char>, mode: Mode) -> Seq<char> {
    "json::key \""@ + raw + "\" -> "@ + match mode {
        Mode::SetValue { text } => "set "@ + trim(text@),
        Mode::Insert { text } => "insert "@ + trim(text@),
        Mode::Delete => "delete"@,
    }
}

impl Operation for MemberEdit {
    open spec fn relevant_spec(&self, path: Seq<char>) -> bool {
        is_json(path)
    }

    open spec fn apply_spec(&self, source: Seq<char>) -> Seq<char> {
        key_result(self.raw_pointer@, self.mode, source)
    }

    /// `set` and `insert` act when the member is absent, and a key may be
    /// written with escapes, so no literal is a safe necessary condition.
    open spec fn prefilter_spec(&self) -> Option<Seq<char>> {
        None
    }

    open spec fn describe_spec(&self) -> Seq<char> {
        describe_edit(self.raw_pointer@, self.mode)
    }

    fn is_file_relevant(&self, path: &str) -> (r: bool) {
        has_ext(path, "json")
    }

    fn apply(&self, source_code: &str) -> (r: String) {
        self.apply_to(source_code)
    }

    fn prefilter(&self) -> (r: Option<&str>) {
        None
    }

    fn describe(&self) -> (r: String) {
        let mut s = copy_str("json::key \"");
        push_str(&mut s, self.raw_pointer.as_str());
        push_str(&mut s, "\" -> ");
        match &self.mode {
            Mode::SetValue { text } => {
                push_str(&mut s, "set ");
                push_str(&mut s, trim_str(text.as_str()));
            },
            Mode::Insert { text } => {
                push_str(&mut s, "insert ");
                push_str(&mut s, trim_str(text.as_str()));
            },
            Mode::Delete => push_str(&mut s, "delete"),
        }
        s
    }
}

} // verus!

//! Shared pieces of the syntax-tree rewrites: collecting edits node by
//! node, and reading node text.

use vstd::prelude::*;
use crate::text::{utf8, bytes_at, str_eq, str_views, copy_str, bytes_of};
use crate::syntax::{Grammar, NodeView, SyntaxNode, node_bytes, text_is, parsed_syntax, parse_syntax, views, node_text_is, field_child, child_by_field};
use crate::edits::{Edit, edit_views, rewritten, rewrite_source, copy_bytes};

verus! {

/// The concatenation of `f(0), f(1), …, f(n - 1)`.
pub open spec fn gather<T>(n: int, f: spec_fn(int) -> Seq<T>) -> Seq<T>
    decreases n,
{
    if n <= 0 {
        Seq::empty()
    } else {
        gather(n - 1, f) + f(n - 1)
    }
}

/// What `f(j)` gives, for `j < n`, is part of `gather(n, f)`.
pub proof fn lemma_gather_holds<T>(n: int, f: spec_fn(int) -> Seq<T>, j: int, m: int)
    requires
        0 <= j < n,
        0 <= m < f(j).len(),
    ensures
        gather(n, f).contains(f(j)[m]),
    decreases n,
{
    if j < n - 1 {
        lemma_gather_holds(n - 1, f, j, m);
        let k = choose|k: int| 0 <= k < gather(n - 1, f).len() && #[trigger] gather(n - 1, f)[k] == f(j)[m];
        assert((gather(n - 1, f) + f(n - 1))[k] == f(j)[m]);
    } else {
        assert((gather(n - 1, f) + f(n - 1))[gather(n - 1, f).len() + m] == f(j)[m]);
    }
}

/// Every item of `gather(n, f)` comes from some `f(j)` with `j < n`.
pub proof fn lemma_gather_from<T>(n: int, f: spec_fn(int) -> Seq<T>, k: int)
    requires
        0 <= k < gather(n, f).len(),
    ensures
        exists|j: int, m: int| 0 <= j < n && 0 <= m < f(j).len() && gather(n, f)[k] == #[trigger] f(j)[m],
    decreases n,
{
    if n > 0 {
        let g = gather(n - 1, f);
        if k < g.len() {
            lemma_gather_from(n - 1, f, k);
            let (j, m) = choose|j: int, m: int| 0 <= j < n - 1 && 0 <= m < f(j).len() && g[k] == #[trigger] f(j)[m];
            assert(gather(n, f)[k] == f(j)[m]);
        } else {
            assert(gather(n, f)[k] == f(n - 1)[k - g.len()]);
        }
    }
}

/// When each `f(i)` holds at most one item, every item of `gather(n, f)`
/// is the item of some `f(i)`.
pub proof fn lemma_gather_single<T>(n: int, f: spec_fn(int) -> Seq<T>, k: int) -> (i: int)
    requires
        0 <= k < gather(n, f).len(),
        forall|j: int| 0 <= j < n ==> #[trigger] f(j).len() <= 1,
    ensures
        0 <= i < n,
        f(i).len() == 1,
        gather(n, f)[k] == f(i)[0],
{
    lemma_gather_from(n, f, k);
    let (j, m) = choose|j: int, m: int| 0 <= j < n && 0 <= m < f(j).len() && gather(n, f)[k] == #[trigger] f(j)[m];
    assert(f(j).len() <= 1);
    j
}

/// At most one item.
pub open spec fn opt_seq<T>(o: Option<T>) -> Seq<T> {
    match o {
        Some(x) => seq![x],
        None => Seq::empty(),
    }
}

/// The first index at or after `i` whose byte is not `b` (at most `hi`).
pub open spec fn skip_byte(t: Seq<u8>, b: u8, i: int, hi: int) -> int
    decreases hi - i,
{
    if i < hi && t[i] == b {
        skip_byte(t, b, i + 1, hi)
    } else {
        i
    }
}

/// The last index (exclusive) at or below `j` whose byte before is not
/// `b` (at least `lo`).
pub open spec fn skip_byte_back(t: Seq<u8>, b: u8, lo: int, j: int) -> int
    decreases j - lo,
{
    if lo < j && t[j - 1] == b {
        skip_byte_back(t, b, lo, j - 1)
    } else {
        j
    }
}

/// `str::trim_matches(b)` on `t[lo..hi]`: the range without its leading
/// and trailing runs of `b`.
pub open spec fn trimmed_range(t: Seq<u8>, b: u8, lo: int, hi: int) -> (int, int) {
    let s = skip_byte(t, b, lo, hi);
    (s, skip_byte_back(t, b, s, hi))
}

proof fn lemma_skip_bounds(t: Seq<u8>, b: u8, i: int, hi: int)
    requires
        i <= hi,
    ensures
        i <= skip_byte(t, b, i, hi) <= hi,
    decreases hi - i,
{
    if i < hi && t[i] == b {
        lemma_skip_bounds(t, b, i + 1, hi);
    }
}

proof fn lemma_skip_back_bounds(t: Seq<u8>, b: u8, lo: int, j: int)
    requires
        lo <= j,
    ensures
        lo <= skip_byte_back(t, b, lo, j) <= j,
    decreases j - lo,
{
    if lo < j && t[j - 1] == b {
        lemma_skip_back_bounds(t, b, lo, j - 1);
    }
}

/// The node's text, without leading and trailing `b` bytes, is `want`.
pub open spec fn trimmed_text_is(src: Seq<u8>, n: NodeView, b: u8, want: Seq<u8>) -> bool {
    match node_bytes(src, n) {
        Some(_) => {
            let (s, e) = trimmed_range(src, b, n.start, n.end);
            src.subrange(s, e) == want
        },
        None => false,
    }
}

/// Exec form of [`trimmed_range`].
pub fn trim_range(src: &[u8], b: u8, lo: usize, hi: usize) -> (r: (usize, usize))
    requires
        lo <= hi <= src@.len(),
    ensures
        (r.0 as int, r.1 as int) == trimmed_range(src@, b, lo as int, hi as int),
        lo <= r.0 <= r.1 <= hi,
{
    let mut s = lo;
    while s < hi && src[s] == b
        invariant
            lo <= s <= hi <= src@.len(),
            skip_byte(src@, b, lo as int, hi as int) == skip_byte(src@, b, s as int, hi as int),
        decreases hi - s,
    {
        s = s + 1;
    }
    let mut e = hi;
    while s < e && src[e - 1] == b
        invariant
            lo <= s <= e <= hi <= src@.len(),
            skip_byte_back(src@, b, s as int, hi as int) == skip_byte_back(src@, b, s as int, e as int),
        decreases e - s,
    {
        e = e - 1;
    }
    (s, e)
}

/// Exec form of [`trimmed_text_is`].
pub fn node_trimmed_text_is(src: &[u8], n: &SyntaxNode, b: u8, want: &[u8]) -> (r: bool)
    ensures
        r == trimmed_text_is(src@, n@, b, want@),
{
    if !(n.start <= n.end && n.end <= src.len()) {
        return false;
    }
    let (s, e) = trim_range(src, b, n.start, n.end);
    let r = e - s == want.len() && bytes_at(src, s, want);
    proof {
        if r {
            assert(src@.subrange(s as int, e as int) =~= want@);
        } else if e - s == want@.len() {
            assert(src@.subrange(s as int, s + want@.len()) =~= src@.subrange(s as int, e as int));
        }
    }
    r
}

/// `kind` is one of `kinds`.
pub fn kind_among(kind: &str, kinds: &[&str]) -> (r: bool)
    ensures
        r == str_views(kinds@).contains(kind@),
{
    let ghost ks = str_views(kinds@);
    let mut i: usize = 0;
    while i < kinds.len()
        invariant
            ks == str_views(kinds@),
            i <= kinds@.len(),
            forall|j: int| 0 <= j < i ==> ks[j] != kind@,
        decreases kinds@.len() - i,
    {
        if str_eq(kinds[i], kind) {
            assert(ks[i as int] == kind@);
            return true;
        }
        i = i + 1;
    }
    false
}

/// The edit that renames node `i` when its kind is among `kinds` and its
/// text is `from`.
pub open spec fn kind_rename_at(
    src: Seq<u8>,
    ns: Seq<NodeView>,
    kinds: Seq<Seq<char>>,
    from: Seq<u8>,
    to: Seq<u8>,
    i: int,
) -> Seq<(int, int, Seq<u8>)> {
    if 0 <= i < ns.len() && kinds.contains(ns[i].kind) && text_is(src, ns[i], from) {
        seq![(ns[i].start, ns[i].end, to)]
    } else {
        Seq::empty()
    }
}

pub open spec fn kind_rename_step(
    src: Seq<u8>,
    ns: Seq<NodeView>,
    kinds: Seq<Seq<char>>,
    from: Seq<u8>,
    to: Seq<u8>,
) -> spec_fn(int) -> Seq<(int, int, Seq<u8>)> {
    |i: int| kind_rename_at(src, ns, kinds, from, to, i)
}

/// One edit per node of one of `kinds` whose text is `from`.
pub open spec fn kind_rename_edits(
    src: Seq<u8>,
    ns: Seq<NodeView>,
    kinds: Seq<Seq<char>>,
    from: Seq<u8>,
    to: Seq<u8>,
) -> Seq<(int, int, Seq<u8>)> {
    gather(ns.len() as int, kind_rename_step(src, ns, kinds, from, to))
}

/// The source with every node of one of `kinds` whose text is `from`
/// replaced by `to`; the source itself when it cannot be parsed.
pub open spec fn renamed_by_kind(
    grammar: Grammar,
    kinds: Seq<Seq<char>>,
    from: Seq<char>,
    to: Seq<char>,
    source: Seq<char>,
) -> Seq<char> {
    match parsed_syntax(grammar, source) {
        Some(ns) => rewritten(source, kind_rename_edits(utf8(source), ns, kinds, utf8(from), utf8(to))),
        None => source,
    }
}

/// Syntactic rename: replace the text of every node whose kind is one
/// of `kinds` and whose text equals `from` with `to`. Scopes are not
/// analysed.
pub fn rename_by_kind(grammar: Grammar, kinds: &[&str], from: &str, to: &str, source_code: &str) -> (r: String)
    ensures
        r@ == renamed_by_kind(grammar, str_views(kinds@), from@, to@, source_code@),
{
    let nodes = match parse_syntax(grammar, source_code) {
        Some(n) => n,
        None => return copy_str(source_code),
    };
    let src = source_code.as_bytes();
    let target = from.as_bytes();
    let text = bytes_of(to);
    let ghost ns = views(nodes@);
    let ghost ks = str_views(kinds@);
    let ghost step = kind_rename_step(src@, ns, ks, target@, text@);
    let mut edits: Vec<Edit> = Vec::new();
    let mut i: usize = 0;
    while i < nodes.len()
        invariant
            ns == views(nodes@),
            ks == str_views(kinds@),
            step == kind_rename_step(src@, ns, ks, target@, text@),
            i <= nodes@.len(),
            edit_views(edits@) == gather(i as int, step),
        decreases nodes@.len() - i,
    {
        assert(step(i as int) == kind_rename_at(src@, ns, ks, target@, text@, i as int));
        assert(ns[i as int] == nodes@[i as int]@);
        let n = &nodes[i];
        if kind_among(n.kind.as_str(), kinds) && node_text_is(src, n, target) {
            edits.push(Edit { start: n.start, end: n.end, text: copy_bytes(&text) });
        }
        assert(edit_views(edits@) =~= gather(i as int + 1, step));
        i = i + 1;
    }
    rewrite_source(source_code, &edits)
}

/// The edit that renames the `field` child of node `i` when `i` is of
/// one of `kinds` and that child's text is `from`.
pub open spec fn field_rename_at(
    src: Seq<u8>,
    ns: Seq<NodeView>,
    kinds: Seq<Seq<char>>,
    field: Seq<char>,
    from: Seq<u8>,
    to: Seq<u8>,
    i: int,
) -> Seq<(int, int, Seq<u8>)> {
    if 0 <= i < ns.len() && kinds.contains(ns[i].kind) {
        match field_child(ns, i, field) {
            Some(c) => if text_is(src, ns[c], from) { seq![(ns[c].start, ns[c].end, to)] } else { Seq::empty() },
            None => Seq::empty(),
        }
    } else {
        Seq::empty()
    }
}

pub open spec fn field_rename_step(
    src: Seq<u8>,
    ns: Seq<NodeView>,
    kinds: Seq<Seq<char>>,
    field: Seq<char>,
    from: Seq<u8>,
    to: Seq<u8>,
) -> spec_fn(int) -> Seq<(int, int, Seq<u8>)> {
    |i: int| field_rename_at(src, ns, kinds, field, from, to, i)
}

/// The source with the `field` child of every node of one of `kinds`
/// spelled `from` replaced by `to`; the source itself when it cannot be
/// parsed.
pub open spec fn renamed_in_field(
    grammar: Grammar,
    kinds: Seq<Seq<char>>,
    field: Seq<char>,
    from: Seq<char>,
    to: Seq<char>,
    source: Seq<char>,
) -> Seq<char> {
    match parsed_syntax(grammar, source) {
        Some(ns) => rewritten(source, gather(ns.len() as int, field_rename_step(utf8(source), ns, kinds, field, utf8(from), utf8(to)))),
        None => source,
    }
}

/// Rename the `field` child of every node of one of `kinds` whose text
/// is `from` (a declaration's name, for instance).
pub fn rename_in_field(
    grammar: Grammar,
    kinds: &[&str],
    field: &str,
    from: &str,
    to: &str,
    source_code: &str,
) -> (r: String)
    ensures
        r@ == renamed_in_field(grammar, str_views(kinds@), field@, from@, to@, source_code@),
{
    let nodes = match parse_syntax(grammar, source_code) {
        Some(n) => n,
        None => return copy_str(source_code),
    };
    let src = source_code.as_bytes();
    let target = from.as_bytes();
    let text = bytes_of(to);
    let ghost ns = views(nodes@);
    let ghost ks = str_views(kinds@);
    let ghost step = field_rename_step(src@, ns, ks, field@, target@, text@);
    let mut edits: Vec<Edit> = Vec::new();
    let mut i: usize = 0;
    while i < nodes.len()
        invariant
            ns == views(nodes@),
            ks == str_views(kinds@),
            step == field_rename_step(src@, ns, ks, field@, target@, text@),
            i <= nodes@.len(),
            edit_views(edits@) == gather(i as int, step),
        decreases nodes@.len() - i,
    {
        assert(step(i as int) == field_rename_at(src@, ns, ks, field@, target@, text@, i as int));
        assert(ns[i as int] == nodes@[i as int]@);
        if kind_among(nodes[i].kind.as_str(), kinds) {
            match child_by_field(&nodes, i, field) {
                Some(c) => {
                    assert(ns[c as int] == nodes@[c as int]@);
                    if node_text_is(src, &nodes[c], target) {
                        edits.push(Edit { start: nodes[c].start, end: nodes[c].end, text: copy_bytes(&text) });
                    }
                },
                None => {},
            }
        }
        assert(edit_views(edits@) =~= gather(i as int + 1, step));
        i = i + 1;
    }
    rewrite_source(source_code, &edits)
}

/// A rename by kind edits exactly the nodes of those kinds whose text is
/// `from`: each such node's whole span is replaced by `to`, and every
/// edit is one of these.
pub proof fn law_kind_rename_edits(src: Seq<u8>, ns: Seq<NodeView>, kinds: Seq<Seq<char>>, from: Seq<u8>, to: Seq<u8>)
    ensures
        forall|i: int| 0 <= i < ns.len() && kinds.contains(#[trigger] ns[i].kind) && text_is(src, ns[i], from)
            ==> kind_rename_edits(src, ns, kinds, from, to).contains((ns[i].start, ns[i].end, to)),
        forall|k: int| 0 <= k < kind_rename_edits(src, ns, kinds, from, to).len() ==> exists|i: int|
            0 <= i < ns.len() && kinds.contains(ns[i].kind) && text_is(src, ns[i], from)
            && #[trigger] kind_rename_edits(src, ns, kinds, from, to)[k] == (ns[i].start, ns[i].end, to),
{
    let f = kind_rename_step(src, ns, kinds, from, to);
    assert forall|i: int| 0 <= i < ns.len() && kinds.contains(#[trigger] ns[i].kind) && text_is(src, ns[i], from)
        implies kind_rename_edits(src, ns, kinds, from, to).contains((ns[i].start, ns[i].end, to)) by {
        assert(f(i)[0] == (ns[i].start, ns[i].end, to));
        lemma_gather_holds(ns.len() as int, f, i, 0);
    }
    assert forall|k: int| 0 <= k < kind_rename_edits(src, ns, kinds, from, to).len() implies exists|i: int|
        0 <= i < ns.len() && kinds.contains(ns[i].kind) && text_is(src, ns[i], from)
        && #[trigger] kind_rename_edits(src, ns, kinds, from, to)[k] == (ns[i].start, ns[i].end, to) by {
        lemma_gather_from(ns.len() as int, f, k);
        let (j, m) = choose|j: int, m: int| 0 <= j < ns.len() && 0 <= m < f(j).len()
            && gather(ns.len() as int, f)[k] == #[trigger] f(j)[m];
        assert(f(j).len() > 0);
        assert(kind_rename_edits(src, ns, kinds, from, to)[k] == (ns[j].start, ns[j].end, to));
    }
}

/// A rename in a field edits exactly the `field` children, reading
/// `from`, of the nodes of `kinds`: each such child's whole span is
/// replaced by `to`, and every edit is one of these.
pub proof fn law_field_rename_edits(src: Seq<u8>, ns: Seq<NodeView>, kinds: Seq<Seq<char>>, field: Seq<char>, from: Seq<u8>, to: Seq<u8>)
    ensures
        forall|i: int, c: int| #![trigger field_child(ns, i, field), ns[c]]
            0 <= i < ns.len() && kinds.contains(ns[i].kind) && field_child(ns, i, field) == Some(c) && text_is(src, ns[c], from)
            ==> gather(ns.len() as int, field_rename_step(src, ns, kinds, field, from, to)).contains((ns[c].start, ns[c].end, to)),
        forall|k: int| 0 <= k < gather(ns.len() as int, field_rename_step(src, ns, kinds, field, from, to)).len()
            ==> field_rename_of(src, ns, kinds, field, from, to,
                #[trigger] gather(ns.len() as int, field_rename_step(src, ns, kinds, field, from, to))[k]),
{
    let f = field_rename_step(src, ns, kinds, field, from, to);
    let n = ns.len() as int;
    assert forall|j: int| 0 <= j < n implies #[trigger] f(j).len() <= 1 by {}
    assert forall|i: int, c: int| #![trigger field_child(ns, i, field), ns[c]]
        0 <= i < ns.len() && kinds.contains(ns[i].kind) && field_child(ns, i, field) == Some(c) && text_is(src, ns[c], from)
        implies gather(n, f).contains((ns[c].start, ns[c].end, to)) by {
        assert(f(i)[0] == (ns[c].start, ns[c].end, to));
        lemma_gather_holds(n, f, i, 0);
    }
    assert forall|k: int| 0 <= k < gather(n, f).len()
        implies field_rename_of(src, ns, kinds, field, from, to, #[trigger] gather(n, f)[k]) by {
        let i = lemma_gather_single(n, f, k);
        let c = field_child(ns, i, field)->Some_0;
        assert(field_child(ns, i, field) == Some(c) && ns[c] == ns[c]);
    }
}

/// `e` replaces, with `to`, the `field` child reading `from` of a node of
/// one of `kinds`.
pub open spec fn field_rename_of(src: Seq<u8>, ns: Seq<NodeView>, kinds: Seq<Seq<char>>, field: Seq<char>, from: Seq<u8>, to: Seq<u8>, e: (int, int, Seq<u8>)) -> bool {
    exists|i: int, c: int| #![trigger field_child(ns, i, field), ns[c]]
        0 <= i < ns.len() && kinds.contains(ns[i].kind) && field_child(ns, i, field) == Some(c)
        && text_is(src, ns[c], from) && e.0 == ns[c].start && e.1 == ns[c].end && e.2 == to
}

} // verus!

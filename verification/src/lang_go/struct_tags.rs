//! Rewrite Go struct tag pairs.
//!
//! The match string is a `<key>:<value>` pair without quotes around the
//! value: `match go::struct_tag "json:old_name" { replace "json:new_name" }`
//! rewrites every `json:"old_name"` pair inside the tag of a field
//! declaration, leaving the other pairs of the tag untouched: a pair is
//! matched whole, at the start of the tag or after a space, so
//! `myjson:"old_name"` is not a `json` pair.

use vstd::prelude::*;
use vstd::utf8::*;
use crate::text::{utf8, copy_str, push_str, find_byte_from, find_byte, bytes_at, push_range, push_all};
use crate::syntax::{
    Grammar, NodeView, SyntaxNode, parsed_syntax, parse_syntax, views, field_child, child_by_field,
    kind_is, node_bytes,
};
use crate::edits::{Edit, edit_views, rewritten, rewrite_source, copy_bytes};
use crate::rewrite::gather;
use crate::operation::Operation;
use crate::lang_go::imports::{is_go, is_go_file};

verus! {

/// `<key>:<value>` split at its first `:` and written as it appears in a
/// tag, `<key>:"<value>"`; `None` when there is no `:`.
pub open spec fn tag_pair(pair: Seq<u8>) -> Option<Seq<u8>> {
    match find_byte_from(pair, 58u8, 0) {
        Some(p) => Some(pair.subrange(0, p) + seq![58u8, 34u8] + pair.subrange(p + 1, pair.len() as int) + seq![34u8]),
        None => None,
    }
}

/// The bytes that separate the pairs of a tag.
pub open spec fn tag_space(b: u8) -> bool {
    b == 32u8 || b == 9u8 || b == 10u8 || b == 13u8
}

/// Offset `i` of a tag whose text starts at `lo` can begin a pair: it is
/// the tag's first byte or follows a separator.
pub open spec fn pair_start(h: Seq<u8>, lo: int, i: int) -> bool {
    i == lo || (lo < i && tag_space(h[i - 1]))
}

/// The offsets of the non-overlapping whole pairs equal to `needle`
/// inside `h[i..hi]` (a tag whose text starts at `lo`), leftmost first: an
/// occurrence counts only where a pair begins, so `json:"a"` is not
/// found inside `myjson:"a"`.
pub open spec fn hits_from(h: Seq<u8>, needle: Seq<u8>, lo: int, i: int, hi: int) -> Seq<int>
    decreases hi - i,
{
    if i >= hi || needle.len() == 0 {
        Seq::empty()
    } else if pair_start(h, lo, i) && i + needle.len() <= hi && h.subrange(i, i + needle.len()) == needle {
        seq![i] + hits_from(h, needle, lo, i + needle.len(), hi)
    } else {
        hits_from(h, needle, lo, i + 1, hi)
    }
}

/// Offset `at` holds a whole pair equal to `needle` inside `h[i..hi]`
/// (a tag whose text starts at `lo`): the needle's bytes, at the tag's
/// first byte or right after a space, tab or line break.
pub open spec fn whole_pair_at(h: Seq<u8>, needle: Seq<u8>, lo: int, i: int, hi: int, at: int) -> bool {
    &&& i <= at && at + needle.len() <= hi
    &&& h.subrange(at, at + needle.len()) == needle
    &&& at == lo || h[at - 1] == 32u8 || h[at - 1] == 9u8 || h[at - 1] == 10u8 || h[at - 1] == 13u8
}

/// Every hit is a whole pair, so a longer key that merely ends in the
/// needle's key is never a hit.
pub proof fn law_hits_are_whole_pairs(h: Seq<u8>, needle: Seq<u8>, lo: int, i: int, hi: int)
    requires
        lo <= i,
        hi <= h.len(),
    ensures
        forall|k: int| 0 <= k < hits_from(h, needle, lo, i, hi).len()
            ==> whole_pair_at(h, needle, lo, i, hi, #[trigger] hits_from(h, needle, lo, i, hi)[k]),
    decreases hi - i,
{
    if i < hi && needle.len() > 0 {
        if pair_start(h, lo, i) && i + needle.len() <= hi && h.subrange(i, i + needle.len()) == needle {
            law_hits_are_whole_pairs(h, needle, lo, i + needle.len(), hi);
            let rest = hits_from(h, needle, lo, i + needle.len(), hi);
            assert forall|k: int| 0 <= k < hits_from(h, needle, lo, i, hi).len()
                implies whole_pair_at(h, needle, lo, i, hi, #[trigger] hits_from(h, needle, lo, i, hi)[k]) by {
                if k > 0 {
                    assert(hits_from(h, needle, lo, i, hi)[k] == rest[k - 1]);
                    assert(whole_pair_at(h, needle, lo, i + needle.len(), hi, rest[k - 1]));
                }
            }
        } else {
            law_hits_are_whole_pairs(h, needle, lo, i + 1, hi);
            assert forall|k: int| 0 <= k < hits_from(h, needle, lo, i, hi).len()
                implies whole_pair_at(h, needle, lo, i, hi, #[trigger] hits_from(h, needle, lo, i, hi)[k]) by {
                assert(whole_pair_at(h, needle, lo, i + 1, hi, hits_from(h, needle, lo, i + 1, hi)[k]));
            }
        }
    }
}

/// One replacement per occurrence offset.
pub open spec fn pair_edits(ps: Seq<int>, len: int, repl: Seq<u8>) -> Seq<(int, int, Seq<u8>)> {
    ps.map_values(|p: int| (p, p + len, repl))
}

/// The tag of field declaration `i`, when it has one whose text is valid
/// UTF-8.
pub open spec fn field_tag(src: Seq<u8>, ns: Seq<NodeView>, i: int) -> Option<int> {
    if 0 <= i < ns.len() && ns[i].named && ns[i].kind == "field_declaration"@ {
        match field_child(ns, i, "tag"@) {
            Some(t) => match node_bytes(src, ns[t]) {
                Some(b) => if valid_utf8(b) { Some(t) } else { None },
                None => None,
            },
            None => None,
        }
    } else {
        None
    }
}

/// The replacements inside the tag of node `i`, between its delimiters.
pub open spec fn tag_at(src: Seq<u8>, ns: Seq<NodeView>, needle: Seq<u8>, repl: Seq<u8>, i: int) -> Seq<(int, int, Seq<u8>)> {
    match field_tag(src, ns, i) {
        Some(t) => {
            let lo = ns[t].start + 1;
            let hi = ns[t].end - 1;
            if hi <= lo {
                Seq::empty()
            } else {
                pair_edits(hits_from(src, needle, lo, lo, hi), needle.len() as int, repl)
            }
        },
        None => Seq::empty(),
    }
}

pub open spec fn tag_step(src: Seq<u8>, ns: Seq<NodeView>, needle: Seq<u8>, repl: Seq<u8>) -> spec_fn(int) -> Seq<(int, int, Seq<u8>)> {
    |i: int| tag_at(src, ns, needle, repl, i)
}

/// The source with the pair `from` replaced by `to` inside every struct
/// field tag; unchanged when either pair has no `:`.
pub open spec fn rename_result(from: Seq<char>, to: Seq<char>, source: Seq<char>) -> Seq<char> {
    match (tag_pair(utf8(from)), tag_pair(utf8(to))) {
        (Some(needle), Some(repl)) => match parsed_syntax(Grammar::Go, source) {
            Some(ns) => rewritten(source, gather(ns.len() as int, tag_step(utf8(source), ns, needle, repl))),
            None => source,
        },
        _ => source,
    }
}

/// Exec form of [`tag_pair`].
fn split_pair(pair: &str) -> (r: Option<Vec<u8>>)
    ensures
        match tag_pair(utf8(pair@)) {
            Some(t) => r matches Some(v) && v@ == t,
            None => r is None,
        },
{
    let b = pair.as_bytes();
    let len = b.len();
    match find_byte(b, 58u8, 0) {
        Some(p) => {
            proof { crate::text::lemma_find_byte_bounds(b@, 58u8, 0); }
            let mut out: Vec<u8> = Vec::new();
            push_range(&mut out, b, 0, p);
            out.push(58u8);
            out.push(34u8);
            push_range(&mut out, b, p + 1, len);
            out.push(34u8);
            assert(out@ =~= b@.subrange(0, p as int) + seq![58u8, 34u8] + b@.subrange(p + 1, b@.len() as int) + seq![34u8]);
            Some(out)
        },
        None => None,
    }
}

/// Exec form of [`tag_space`].
fn is_tag_space(b: u8) -> (r: bool)
    ensures
        r == tag_space(b),
{
    b == 32u8 || b == 9u8 || b == 10u8 || b == 13u8
}

/// Append the replacements inside `src[lo..hi]`.
fn push_hits(src: &[u8], needle: &Vec<u8>, repl: &Vec<u8>, lo: usize, hi: usize, edits: &mut Vec<Edit>)
    requires
        lo <= hi <= src@.len(),
    ensures
        edit_views(final(edits)@) == edit_views(old(edits)@)
            + pair_edits(hits_from(src@, needle@, lo as int, lo as int, hi as int), needle@.len() as int, repl@),
{
    let ghost start = edit_views(edits@);
    if needle.len() == 0 {
        assert(pair_edits(hits_from(src@, needle@, lo as int, lo as int, hi as int), 0, repl@) =~= Seq::empty());
        assert(edit_views(edits@) =~= start + Seq::empty());
        return;
    }
    let n = needle.len();
    let mut i = lo;
    assert(edit_views(edits@) =~= start + pair_edits(Seq::empty(), n as int, repl@));
    let ghost mut done: Seq<int> = Seq::empty();
    while i < hi
        invariant
            lo <= i <= hi <= src@.len(),
            n == needle@.len(),
            n > 0,
            done + hits_from(src@, needle@, lo as int, i as int, hi as int) == hits_from(src@, needle@, lo as int, lo as int, hi as int),
            edit_views(edits@) == start + pair_edits(done, n as int, repl@),
        decreases hi - i,
    {
        let starts = i == lo || (i > lo && is_tag_space(src[i - 1]));
        if starts && n <= hi - i && bytes_at(src, i, needle.as_slice()) {
            let ghost prev_e = edit_views(edits@);
            edits.push(Edit { start: i, end: i + n, text: copy_bytes(repl) });
            assert(edit_views(edits@) =~= prev_e.push((i as int, i + n, repl@)));
            proof {
                assert(pair_edits(done.push(i as int), n as int, repl@)
                    =~= pair_edits(done, n as int, repl@).push((i as int, i + n, repl@)));
                assert(done.push(i as int) + hits_from(src@, needle@, lo as int, i + n, hi as int)
                    =~= done + hits_from(src@, needle@, lo as int, i as int, hi as int));
                done = done.push(i as int);
            }
            assert(edit_views(edits@) =~= start + pair_edits(done, n as int, repl@));
            i = i + n;
        } else {
            i = i + 1;
        }
    }
}

/// Rewrite the pair `from` (`<key>:<value>`) to `to` inside every
/// struct field tag. Returns the source unchanged when either pair has
/// no `:` separator.
pub fn rename(from: &str, to: &str, source_code: &str) -> (r: String)
    ensures
        r@ == rename_result(from@, to@, source_code@),
{
    let needle = match split_pair(from) {
        Some(v) => v,
        None => return copy_str(source_code),
    };
    let repl = match split_pair(to) {
        Some(v) => v,
        None => return copy_str(source_code),
    };
    let nodes = match parse_syntax(Grammar::Go, source_code) {
        Some(n) => n,
        None => return copy_str(source_code),
    };
    let src = source_code.as_bytes();
    let ghost ns = views(nodes@);
    let ghost step = tag_step(src@, ns, needle@, repl@);
    let mut edits: Vec<Edit> = Vec::new();
    let mut i: usize = 0;
    while i < nodes.len()
        invariant
            ns == views(nodes@),
            step == tag_step(src@, ns, needle@, repl@),
            i <= nodes@.len(),
            edit_views(edits@) == gather(i as int, step),
        decreases nodes@.len() - i,
    {
        assert(step(i as int) == tag_at(src@, ns, needle@, repl@, i as int));
        assert(ns[i as int] == nodes@[i as int]@);
        let ghost prev = edit_views(edits@);
        if nodes[i].named && kind_is(&nodes, i, "field_declaration") {
            match child_by_field(&nodes, i, "tag") {
                Some(t) => {
                    assert(ns[t as int] == nodes@[t as int]@);
                    let s = nodes[t].start;
                    let e = nodes[t].end;
                    if s <= e && e <= src.len() && crate::text::decode_range(src, s, e).is_some() {
                        if e >= 1 && s < e - 1 && s + 1 < e - 1 {
                            push_hits(src, &needle, &repl, s + 1, e - 1, &mut edits);
                        }
                    }
                },
                None => {},
            }
        }
        assert(edit_views(edits@) =~= gather(i as int + 1, step));
        i = i + 1;
    }
    rewrite_source(source_code, &edits)
}

/// Rewrite a `<key>:<value>` pair inside Go struct field tags.
#[derive(Debug)]
pub struct TagReplace {
    pub from: String,
    pub to: String,
}

impl Operation for TagReplace {
    open spec fn relevant_spec(&self, path: Seq<char>) -> bool {
        is_go(path)
    }

    open spec fn apply_spec(&self, source: Seq<char>) -> Seq<char> {
        rename_result(self.from@, self.to@, source)
    }

    open spec fn prefilter_spec(&self) -> Option<Seq<char>> {
        None
    }

    open spec fn describe_spec(&self) -> Seq<char> {
        "go::struct_tag \""@ + self.from@ + "\" -> \""@ + self.to@ + "\""@
    }

    fn is_file_relevant(&self, path: &str) -> (r: bool) {
        is_go_file(path)
    }

    fn apply(&self, source_code: &str) -> (r: String) {
        rename(self.from.as_str(), self.to.as_str(), source_code)
    }

    fn prefilter(&self) -> (r: Option<&str>) {
        None
    }

    fn describe(&self) -> (r: String) {
        let mut s = copy_str("go::struct_tag \"");
        push_str(&mut s, self.from.as_str());
        push_str(&mut s, "\" -> \"");
        push_str(&mut s, self.to.as_str());
        push_str(&mut s, "\"");
        s
    }
}

} // verus!

//! Byte-range edits and their application to a source file.
//!
//! A rewrite collects edits `(start, end, text)`, sorts them by start
//! (stably) and applies them from the last to the first, so that earlier
//! offsets stay valid while later ones are replaced. This is the order
//! every backend uses, and the result is defined by exactly that
//! sequence of replacements.

use vstd::prelude::*;
use crate::text::{
    utf8, decode_or, find_byte_from, rfind_byte_before, find_byte, rfind_byte, decode_bytes_or,
    copy_str,
};

verus! {

/// Replace the bytes `start..end` of a file with `text`.
#[derive(Debug)]
pub struct Edit {
    pub start: usize,
    pub end: usize,
    pub text: Vec<u8>,
}

impl View for Edit {
    type V = (int, int, Seq<u8>);

    open spec fn view(&self) -> (int, int, Seq<u8>) {
        (self.start as int, self.end as int, self.text@)
    }
}

pub open spec fn edit_views(v: Seq<Edit>) -> Seq<(int, int, Seq<u8>)> {
    v.map_values(|e: Edit| e@)
}

/// Where a stable insertion puts an edit starting at `key`: after every
/// edit that starts at or before it.
pub open spec fn insert_pos(s: Seq<(int, int, Seq<u8>)>, key: int) -> int
    decreases s.len(),
{
    if s.len() == 0 {
        0
    } else if s.last().0 <= key {
        s.len() as int
    } else {
        insert_pos(s.drop_last(), key)
    }
}

/// Insert one edit into a list sorted by start.
pub open spec fn insert_sorted(s: Seq<(int, int, Seq<u8>)>, e: (int, int, Seq<u8>)) -> Seq<(int, int, Seq<u8>)> {
    s.insert(insert_pos(s, e.0), e)
}

/// The edits sorted by start, keeping the original order among equal
/// starts (`sort_by_key` on the start offset).
pub open spec fn sort_by_start(s: Seq<(int, int, Seq<u8>)>) -> Seq<(int, int, Seq<u8>)>
    decreases s.len(),
{
    if s.len() == 0 {
        s
    } else {
        insert_sorted(sort_by_start(s.drop_last()), s.last())
    }
}

/// `s` with `start..end` replaced by `t`.
pub open spec fn splice(s: Seq<u8>, start: int, end: int, t: Seq<u8>) -> Seq<u8> {
    s.subrange(0, start) + t + s.subrange(end, s.len() as int)
}

/// Apply the edits from the last to the first; `None` when some edit's
/// range does not lie inside the text it is applied to.
pub open spec fn apply_rev(s: Seq<u8>, es: Seq<(int, int, Seq<u8>)>) -> Option<Seq<u8>>
    decreases es.len(),
{
    if es.len() == 0 {
        Some(s)
    } else {
        let e = es.last();
        if 0 <= e.0 <= e.1 <= s.len() {
            apply_rev(splice(s, e.0, e.1, e.2), es.drop_last())
        } else {
            None
        }
    }
}

/// The text of `src` after the edits, sorted by start and applied from
/// the last; `src` itself when an edit falls outside the text or the
/// result is not UTF-8.
pub open spec fn rewritten(src: Seq<char>, es: Seq<(int, int, Seq<u8>)>) -> Seq<char> {
    match apply_rev(utf8(src), sort_by_start(es)) {
        Some(b) => decode_or(b, src),
        None => src,
    }
}

/// A copy of a byte vector.
pub fn copy_bytes(v: &Vec<u8>) -> (r: Vec<u8>)
    ensures
        r@ == v@,
{
    vstd::slice::slice_to_vec(v.as_slice())
}

fn find_insert_pos(out: &Vec<Edit>, key: usize) -> (p: usize)
    ensures
        p as int == insert_pos(edit_views(out@), key as int),
        p <= out@.len(),
{
    let ghost s = edit_views(out@);
    let mut p = out.len();
    assert(s.subrange(0, p as int) =~= s);
    while p > 0 && out[p - 1].start > key
        invariant
            s == edit_views(out@),
            p <= out@.len(),
            insert_pos(s, key as int) == insert_pos(s.subrange(0, p as int), key as int),
        decreases p,
    {
        assert(s.subrange(0, p as int).drop_last() =~= s.subrange(0, p - 1));
        p = p - 1;
    }
    p
}

/// Stable sort of edits by their start offset.
pub fn sort_edits(edits: &Vec<Edit>) -> (r: Vec<Edit>)
    ensures
        edit_views(r@) == sort_by_start(edit_views(edits@)),
{
    let ghost es = edit_views(edits@);
    let mut out: Vec<Edit> = Vec::new();
    let mut i: usize = 0;
    assert(es.subrange(0, 0) =~= Seq::<(int, int, Seq<u8>)>::empty());
    while i < edits.len()
        invariant
            es == edit_views(edits@),
            i <= edits@.len(),
            edit_views(out@) == sort_by_start(es.subrange(0, i as int)),
        decreases edits@.len() - i,
    {
        let e = &edits[i];
        let p = find_insert_pos(&out, e.start);
        let copy = Edit { start: e.start, end: e.end, text: copy_bytes(&e.text) };
        out.insert(p, copy);
        proof {
            assert(es.subrange(0, i + 1).drop_last() =~= es.subrange(0, i as int));
            assert(edit_views(out@) =~= insert_sorted(sort_by_start(es.subrange(0, i as int)), es[i as int]));
        }
        i = i + 1;
    }
    assert(es.subrange(0, i as int) =~= es);
    out
}

/// `cur` with `start..end` replaced by `text`.
fn splice_bytes(cur: &Vec<u8>, start: usize, end: usize, text: &Vec<u8>) -> (r: Vec<u8>)
    requires
        start <= end <= cur@.len(),
    ensures
        r@ == splice(cur@, start as int, end as int, text@),
{
    let mut out: Vec<u8> = Vec::new();
    crate::text::push_range(&mut out, cur.as_slice(), 0, start);
    crate::text::push_all(&mut out, text.as_slice());
    crate::text::push_range(&mut out, cur.as_slice(), end, cur.len());
    out
}

/// Apply edits to `src`: sort them by start, then replace from the last.
pub fn apply_edits(src: &[u8], edits: &Vec<Edit>) -> (r: Option<Vec<u8>>)
    ensures
        match apply_rev(src@, sort_by_start(edit_views(edits@))) {
            Some(b) => r matches Some(v) && v@ == b,
            None => r is None,
        },
{
    let sorted = sort_edits(edits);
    let ghost sv = edit_views(sorted@);
    let mut cur = vstd::slice::slice_to_vec(src);
    let mut i = sorted.len();
    assert(sv.subrange(0, i as int) =~= sv);
    while i > 0
        invariant
            sv == edit_views(sorted@),
            sv == sort_by_start(edit_views(edits@)),
            i <= sorted@.len(),
            apply_rev(src@, sv) == apply_rev(cur@, sv.subrange(0, i as int)),
        decreases i,
    {
        let e = &sorted[i - 1];
        assert(sv.subrange(0, i as int).drop_last() =~= sv.subrange(0, i - 1));
        assert(sv.subrange(0, i as int).last() == sv[i - 1]);
        assert(sv[i - 1] == sorted@[i - 1]@);
        if e.start <= e.end && e.end <= cur.len() {
            cur = splice_bytes(&cur, e.start, e.end, &e.text);
        } else {
            assert(apply_rev(cur@, sv.subrange(0, i as int)) is None);
            return None;
        }
        i = i - 1;
    }
    Some(cur)
}

/// Apply edits to a source string, giving `rewritten(source, edits)`.
pub fn rewrite_source(source: &str, edits: &Vec<Edit>) -> (r: String)
    ensures
        r@ == rewritten(source@, edit_views(edits@)),
{
    match apply_edits(source.as_bytes(), edits) {
        Some(out) => decode_bytes_or(out, source),
        None => copy_str(source),
    }
}

/// The start of the line holding byte `s`.
pub open spec fn line_start(src: Seq<u8>, s: int) -> int {
    match rfind_byte_before(src, 10u8, s) {
        Some(p) => p + 1,
        None => 0,
    }
}

/// The end of the line holding byte `e`, past its newline.
pub open spec fn line_end(src: Seq<u8>, e: int) -> int {
    match find_byte_from(src, 10u8, e) {
        Some(p) => p + 1,
        None => src.len() as int,
    }
}

pub proof fn lemma_rfind_bounds(src: Seq<u8>, s: int)
    requires
        0 <= s <= src.len(),
    ensures
        rfind_byte_before(src, 10u8, s) matches Some(p) ==> 0 <= p < s,
    decreases s,
{
    if s > 0 && src[s - 1] != 10u8 {
        lemma_rfind_bounds(src, s - 1);
    }
}

pub proof fn lemma_find_bounds(src: Seq<u8>, e: int)
    requires
        0 <= e,
    ensures
        find_byte_from(src, 10u8, e) matches Some(p) ==> e <= p < src.len(),
    decreases src.len() - e,
{
    if e < src.len() && src[e] != 10u8 {
        lemma_find_bounds(src, e + 1);
    }
}

/// The whole-line span (newline included) around `s..e`.
pub fn line_span(src: &[u8], s: usize, e: usize) -> (r: (usize, usize))
    requires
        s <= src@.len(),
    ensures
        r.0 as int == line_start(src@, s as int),
        r.1 as int == line_end(src@, e as int),
        r.0 <= s,
        e <= src@.len() ==> e <= r.1 <= src@.len(),
{
    let n = src.len();
    proof {
        lemma_rfind_bounds(src@, s as int);
        lemma_find_bounds(src@, e as int);
    }
    let ls = match rfind_byte(src, 10u8, s) {
        Some(p) => p + 1,
        None => 0,
    };
    let le = match find_byte(src, 10u8, e) {
        Some(p) => p + 1,
        None => n,
    };
    (ls, le)
}

/// The end of the last line a span ending at `e` touches: `e` itself
/// when the span already ends with its newline, else past the newline
/// that follows.
pub open spec fn span_line_end(src: Seq<u8>, e: int) -> int {
    if 0 < e <= src.len() && src[e - 1] == 10u8 { e } else { line_end(src, e) }
}

/// `s..e` is made of whole lines and holds the lines that bytes `a..b`
/// touch, and no other: it starts at a line start with no line break
/// before `a`, and ends just past a line break (or at the end of the
/// text) with no earlier line break from `b` on.
pub open spec fn covers_lines(src: Seq<u8>, s: int, e: int, a: int, b: int) -> bool {
    &&& 0 <= s <= a <= b <= e <= src.len()
    &&& s == 0 || src[s - 1] == 10u8
    &&& forall|j: int| s <= j < a ==> src[j] != 10u8
    &&& e == src.len() || src[e - 1] == 10u8
    &&& forall|j: int| b <= j < e - 1 ==> src[j] != 10u8
}

proof fn lemma_rfind_is_last(src: Seq<u8>, c: u8, to: int)
    requires
        0 <= to <= src.len(),
    ensures
        match rfind_byte_before(src, c, to) {
            Some(p) => 0 <= p < to && src[p] == c && forall|j: int| p < j < to ==> src[j] != c,
            None => forall|j: int| 0 <= j < to ==> src[j] != c,
        },
    decreases to,
{
    if to > 0 && src[to - 1] != c {
        lemma_rfind_is_last(src, c, to - 1);
    }
}

proof fn lemma_find_is_first(src: Seq<u8>, c: u8, from: int)
    requires
        0 <= from <= src.len(),
    ensures
        match find_byte_from(src, c, from) {
            Some(p) => from <= p < src.len() && src[p] == c && forall|j: int| from <= j < p ==> src[j] != c,
            None => forall|j: int| from <= j < src.len() ==> src[j] != c,
        },
    decreases src.len() - from,
{
    if from < src.len() && src[from] != c {
        lemma_find_is_first(src, c, from + 1);
    }
}

/// `line_start`, `line_end` and `span_line_end` widen a span to exactly
/// the lines it touches.
pub proof fn lemma_line_bounds_cover(src: Seq<u8>, a: int, b: int)
    requires
        0 <= a <= b <= src.len(),
    ensures
        covers_lines(src, line_start(src, a), line_end(src, b), a, b),
        covers_lines(src, line_start(src, a), span_line_end(src, b), a, b),
{
    lemma_rfind_is_last(src, 10u8, a);
    lemma_find_is_first(src, 10u8, b);
}

/// The whole lines a span `s..e` touches, newline included, without
/// reaching into the next line when the span ends with a newline.
pub fn whole_lines(src: &[u8], s: usize, e: usize) -> (r: (usize, usize))
    requires
        s <= e <= src@.len(),
    ensures
        r.0 as int == line_start(src@, s as int),
        r.1 as int == span_line_end(src@, e as int),
{
    let n = src.len();
    let (ls, le) = line_span(src, s, e);
    if e > 0 && src[e - 1] == 10u8 {
        (ls, e)
    } else {
        (ls, le)
    }
}

/// The edit that erases the lines a span covers.
pub open spec fn line_deletion(src: Seq<u8>, s: int, e: int) -> (int, int, Seq<u8>) {
    (line_start(src, s), line_end(src, e), Seq::<u8>::empty())
}


/// With no edits, a rewrite returns its input unchanged.
pub proof fn lemma_no_edits(src: Seq<char>)
    ensures
        rewritten(src, Seq::empty()) == src,
{
    vstd::utf8::encode_utf8_valid_utf8(src);
    vstd::utf8::encode_utf8_decode_utf8(src);
    assert(sort_by_start(Seq::<(int, int, Seq<u8>)>::empty()) =~= Seq::<(int, int, Seq<u8>)>::empty());
}

} // verus!

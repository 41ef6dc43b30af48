//! The text layout of a JSON edit: indentation, line splitting, and the
//! re-indentation of a multi-line value so that it sits under its member.
//!
//! All of it works on bytes; the bytes that matter (`\n`, `\r`, space and
//! tab) are ASCII and never occur inside a multi-byte character.

use vstd::prelude::*;
use crate::text::{rfind_byte_before, rfind_byte, push_range, push_all, find_byte_from, find_byte};

verus! {

pub open spec fn is_blank_byte(b: u8) -> bool {
    b == 32u8 || b == 9u8
}

/// The end of the run of spaces and tabs starting at `i`.
pub open spec fn blank_run_end(s: Seq<u8>, i: int) -> int
    decreases s.len() - i,
{
    if 0 <= i < s.len() && is_blank_byte(s[i]) {
        blank_run_end(s, i + 1)
    } else {
        i
    }
}

pub proof fn lemma_blank_run_end(s: Seq<u8>, i: int)
    requires
        0 <= i <= s.len(),
    ensures
        i <= blank_run_end(s, i) <= s.len(),
    decreases s.len() - i,
{
    if i < s.len() && is_blank_byte(s[i]) {
        lemma_blank_run_end(s, i + 1);
    }
}

/// Exec form of [`blank_run_end`].
pub fn blank_end(s: &[u8], i: usize) -> (r: usize)
    requires
        i <= s@.len(),
    ensures
        r == blank_run_end(s@, i as int),
        i <= r <= s@.len(),
{
    let mut j = i;
    while j < s.len() && (s[j] == 32u8 || s[j] == 9u8)
        invariant
            i <= j <= s@.len(),
            blank_run_end(s@, i as int) == blank_run_end(s@, j as int),
        decreases s@.len() - j,
    {
        j = j + 1;
    }
    j
}

/// The start of the line holding byte `at`.
pub open spec fn line_begin(s: Seq<u8>, at: int) -> int {
    match rfind_byte_before(s, 10u8, at) {
        Some(p) => p + 1,
        None => 0,
    }
}

/// The spaces and tabs at the start of the line holding byte `at`.
pub open spec fn indent_at(s: Seq<u8>, at: int) -> Seq<u8> {
    let b = line_begin(s, at);
    s.subrange(b, blank_run_end(s, b))
}

/// Exec form of [`indent_at`].
pub fn indent_of(s: &[u8], at: usize) -> (r: Vec<u8>)
    requires
        at <= s@.len(),
    ensures
        r@ == indent_at(s@, at as int),
{
    proof {
        crate::text::lemma_rfind_byte_bounds(s@, 10u8, at as int);
    }
    let b = match rfind_byte(s, 10u8, at) {
        Some(p) => p + 1,
        None => 0,
    };
    let e = blank_end(s, b);
    let mut out: Vec<u8> = Vec::new();
    push_range(&mut out, s, b, e);
    out
}

/// `str::lines`: split at `\n`, dropping one `\r` before each `\n`; no
/// empty line after a final `\n`.
pub open spec fn lines(s: Seq<u8>) -> Seq<Seq<u8>>
    decreases s.len(),
{
    if s.len() == 0 {
        Seq::empty()
    } else {
        match find_byte_from(s, 10u8, 0) {
            Some(i) => {
                proof {
                    crate::text::lemma_find_byte_bounds(s, 10u8, 0);
                }
                let piece = s.subrange(0, i);
                let line = if piece.len() > 0 && piece.last() == 13u8 { piece.drop_last() } else { piece };
                seq![line] + lines(s.subrange(i + 1, s.len() as int))
            },
            None => seq![s],
        }
    }
}

/// The lines after the first, each on a new line behind `indent`.
pub open spec fn indented_rest(ls: Seq<Seq<u8>>, indent: Seq<u8>) -> Seq<u8>
    decreases ls.len(),
{
    if ls.len() == 0 {
        Seq::empty()
    } else {
        seq![10u8] + indent + ls[0] + indented_rest(ls.drop_first(), indent)
    }
}

/// A value's later lines indented to sit under a member at `indent`.
pub open spec fn reindent(text: Seq<u8>, indent: Seq<u8>) -> Seq<u8> {
    let ls = lines(text);
    if ls.len() == 0 {
        Seq::empty()
    } else {
        ls[0] + indented_rest(ls.drop_first(), indent)
    }
}

/// The line that starts at `from`, up to `end` (exclusive of its `\n`),
/// without a `\r` just before the `\n`.
fn line_at(s: &[u8], from: usize, end: usize, ended: bool) -> (r: Vec<u8>)
    requires
        from <= end <= s@.len(),
    ensures
        ({
            let piece = s@.subrange(from as int, end as int);
            r@ == if ended && piece.len() > 0 && piece.last() == 13u8 { piece.drop_last() } else { piece }
        }),
{
    let mut out: Vec<u8> = Vec::new();
    if ended && end > from && s[end - 1] == 13u8 {
        push_range(&mut out, s, from, end - 1);
        assert(s@.subrange(from as int, end as int).drop_last() =~= s@.subrange(from as int, end - 1));
    } else {
        push_range(&mut out, s, from, end);
    }
    out
}

/// The lines of `s[from..]`.
proof fn lemma_lines_step(s: Seq<u8>, from: int)
    requires
        0 <= from < s.len(),
    ensures
        ({
            let t = s.subrange(from, s.len() as int);
            match find_byte_from(s, 10u8, from) {
                Some(i) => {
                    let piece = s.subrange(from, i);
                    let line = if piece.len() > 0 && piece.last() == 13u8 { piece.drop_last() } else { piece };
                    lines(t) == seq![line] + lines(s.subrange(i + 1, s.len() as int))
                },
                None => lines(t) == seq![t],
            }
        }),
{
    let t = s.subrange(from, s.len() as int);
    lemma_find_shift(s, from, from);
    crate::text::lemma_find_byte_bounds(s, 10u8, from);
    match find_byte_from(s, 10u8, from) {
        Some(i) => {
            assert(find_byte_from(t, 10u8, 0) == Some(i - from));
            assert(t.subrange(0, i - from) =~= s.subrange(from, i));
            assert(t.subrange(i - from + 1, t.len() as int) =~= s.subrange(i + 1, s.len() as int));
        },
        None => {
            assert(find_byte_from(t, 10u8, 0) is None);
        },
    }
}

/// Searching a suffix finds what searching the whole finds, shifted.
proof fn lemma_find_shift(s: Seq<u8>, from: int, k: int)
    requires
        0 <= from <= k <= s.len(),
    ensures
        find_byte_from(s.subrange(from, s.len() as int), 10u8, k - from) == (match find_byte_from(s, 10u8, k) {
            Some(i) => Some(i - from),
            None => None,
        }),
    decreases s.len() - k,
{
    let t = s.subrange(from, s.len() as int);
    if k < s.len() {
        assert(t[k - from] == s[k]);
        if s[k] != 10u8 {
            lemma_find_shift(s, from, k + 1);
        }
    }
}

/// Exec form of [`reindent`].
pub fn reindent_text(text: &[u8], indent: &[u8]) -> (r: Vec<u8>)
    ensures
        r@ == reindent(text@, indent@),
{
    let ghost s = text@;
    let mut out: Vec<u8> = Vec::new();
    if text.len() == 0 {
        return out;
    }
    let mut from: usize = 0;
    let mut first = true;
    assert(s.subrange(0, s.len() as int) =~= s);
    while from < text.len()
        invariant
            s == text@,
            from <= s.len(),
            first ==> from == 0,
            ({
                let ls = lines(s);
                let rest = lines(s.subrange(from as int, s.len() as int));
                if first {
                    out@.len() == 0 && rest == ls
                } else {
                    ls.len() > 0 && out@ + indented_rest(rest, indent@) == reindent(s, indent@)
                }
            }),
        decreases s.len() - from,
    {
        proof {
            lemma_lines_step(s, from as int);
            crate::text::lemma_find_byte_bounds(s, 10u8, from as int);
        }
        let (end, next, ended) = match find_byte(text, 10u8, from) {
            Some(i) => (i, i + 1, true),
            None => (text.len(), text.len(), false),
        };
        let line = line_at(text, from, end, ended);
        let ghost rest = lines(s.subrange(from as int, s.len() as int));
        let ghost after = lines(s.subrange(next as int, s.len() as int));
        proof {
            if !ended {
                assert(s.subrange(from as int, end as int) =~= s.subrange(from as int, s.len() as int));
                assert(s.subrange(next as int, s.len() as int) =~= Seq::<u8>::empty());
            }
            assert(rest == seq![line@] + after);
            assert(rest.drop_first() =~= after);
        }
        if first {
            push_all(&mut out, line.as_slice());
            first = false;
        } else {
            out.push(10u8);
            push_all(&mut out, indent);
            push_all(&mut out, line.as_slice());
        }
        from = next;
    }
    proof {
        assert(s.subrange(from as int, s.len() as int) =~= Seq::<u8>::empty());
        if first {
            assert(lines(s.subrange(0, s.len() as int)) == lines(s));
        }
    }
    out
}

/// The indentation one level in: that of the first line that is
/// indented (two spaces when none is).
pub open spec fn first_indent(ls: Seq<Seq<u8>>) -> Seq<u8>
    decreases ls.len(),
{
    if ls.len() == 0 {
        seq![32u8, 32u8]
    } else if blank_run_end(ls[0], 0) > 0 {
        ls[0].subrange(0, blank_run_end(ls[0], 0))
    } else {
        first_indent(ls.drop_first())
    }
}

pub open spec fn indent_unit(s: Seq<u8>) -> Seq<u8> {
    first_indent(lines(s))
}

/// Exec form of [`indent_unit`].
pub fn indent_unit_of(s: &[u8]) -> (r: Vec<u8>)
    ensures
        r@ == indent_unit(s@),
{
    let ghost full = s@;
    let mut from: usize = 0;
    assert(full.subrange(0, full.len() as int) =~= full);
    while from < s.len()
        invariant
            full == s@,
            from <= full.len(),
            indent_unit(full) == first_indent(lines(full.subrange(from as int, full.len() as int))),
        decreases full.len() - from,
    {
        proof {
            lemma_lines_step(full, from as int);
            crate::text::lemma_find_byte_bounds(full, 10u8, from as int);
        }
        let (end, next, ended) = match find_byte(s, 10u8, from) {
            Some(i) => (i, i + 1, true),
            None => (s.len(), s.len(), false),
        };
        let line = line_at(s, from, end, ended);
        proof {
            if !ended {
                assert(full.subrange(from as int, end as int) =~= full.subrange(from as int, full.len() as int));
                assert(full.subrange(next as int, full.len() as int) =~= Seq::<u8>::empty());
            }
            let rest = lines(full.subrange(from as int, full.len() as int));
            assert(rest[0] == line@);
            assert(rest.drop_first() =~= lines(full.subrange(next as int, full.len() as int)));
        }
        let e = blank_end(line.as_slice(), 0);
        if e > 0 {
            let mut out: Vec<u8> = Vec::new();
            push_range(&mut out, line.as_slice(), 0, e);
            return out;
        }
        from = next;
    }
    assert(full.subrange(from as int, full.len() as int) =~= Seq::<u8>::empty());
    let mut out: Vec<u8> = Vec::new();
    out.push(32u8);
    out.push(32u8);
    assert(out@ =~= seq![32u8, 32u8]);
    out
}

} // verus!

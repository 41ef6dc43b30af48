//! "Did you mean …?" for the names a script can get wrong.
//!
//! Every site that rejects a name answers two questions at once: what was
//! valid here, and which valid name was probably meant.

use vstd::prelude::*;
use crate::text::{utf8, join, str_views, join_strs, push_str, copy_str};

verus! {

/// Levenshtein edit distance.
pub open spec fn lev(a: Seq<char>, b: Seq<char>) -> nat
    decreases a.len() + b.len(),
{
    if a.len() == 0 {
        b.len()
    } else if b.len() == 0 {
        a.len()
    } else {
        let sub = lev(a.drop_last(), b.drop_last()) + if a.last() == b.last() { 0nat } else { 1nat };
        let del = lev(a.drop_last(), b) + 1;
        let ins = lev(a, b.drop_last()) + 1;
        min3(sub, del, ins)
    }
}

pub open spec fn min3(x: nat, y: nat, z: nat) -> nat {
    let m = if x <= y { x } else { y };
    if m <= z { m } else { z }
}

pub open spec fn max2(x: nat, y: nat) -> nat {
    if x >= y { x } else { y }
}

/// The distance never exceeds the longer length.
pub proof fn lemma_lev_bound(a: Seq<char>, b: Seq<char>)
    ensures
        lev(a, b) <= max2(a.len(), b.len()),
    decreases a.len() + b.len(),
{
    if a.len() > 0 && b.len() > 0 {
        lemma_lev_bound(a.drop_last(), b.drop_last());
    }
}

/// The characters of a string.
pub fn chars_of(s: &str) -> (r: Vec<char>)
    ensures
        r@ == s@,
{
    let n = s.unicode_len();
    let mut out: Vec<char> = Vec::new();
    let mut i: usize = 0;
    while i < n
        invariant
            n == s@.len(),
            i <= n,
            out@ == s@.subrange(0, i as int),
        decreases n - i,
    {
        out.push(s.get_char(i));
        assert(out@ =~= s@.subrange(0, i + 1));
        i = i + 1;
    }
    assert(out@ =~= s@);
    out
}

/// `x + 1`, or `x` at the top of the range.
fn sat_inc(x: usize) -> (r: usize)
    ensures
        r == if x < usize::MAX { x + 1 } else { x as int },
{
    if x < usize::MAX { x + 1 } else { x }
}

/// Levenshtein edit distance between two strings, counted in characters.
pub fn edit_distance(a: &str, b: &str) -> (r: usize)
    ensures
        r == lev(a@, b@),
{
    let av = chars_of(a);
    let bv = chars_of(b);
    let n = av.len();
    let m = bv.len();
    if n == 0 {
        return m;
    }
    if m == 0 {
        return n;
    }
    let ghost sa = a@;
    let ghost sb = b@;
    // `prev[k]` holds the distance between the first `i` characters of
    // `a` and the first `k + 1` of `b`.
    let mut prev: Vec<usize> = Vec::new();
    let mut k: usize = 0;
    while k < m
        invariant
            k <= m,
            m == sb.len(),
            prev@.len() == k,
            forall|q: int| 0 <= q < k ==> #[trigger] prev@[q] == lev(sa.take(0), sb.take(q + 1)),
        decreases m - k,
    {
        proof {
            assert(sa.take(0).len() == 0);
            assert(sb.take(k + 1).len() == k + 1);
        }
        prev.push(k + 1);
        k = k + 1;
    }
    let mut i: usize = 0;
    while i < n
        invariant
            av@ == sa,
            bv@ == sb,
            n == sa.len(),
            m == sb.len(),
            0 < m,
            i <= n,
            prev@.len() == m,
            forall|q: int| 0 <= q < m ==> #[trigger] prev@[q] == lev(sa.take(i as int), sb.take(q + 1)),
        decreases n - i,
    {
        let mut curr: Vec<usize> = Vec::new();
        let mut left: usize = i + 1;
        let mut diag: usize = i;
        proof {
            assert(sb.take(0).len() == 0);
            assert(sa.take(i + 1).len() == i + 1);
            assert(sa.take(i as int).len() == i);
        }
        let mut j: usize = 0;
        while j < m
            invariant
                av@ == sa,
                bv@ == sb,
                n == sa.len(),
                m == sb.len(),
                i < n,
                j <= m,
                prev@.len() == m,
                curr@.len() == j,
                forall|q: int| 0 <= q < m ==> #[trigger] prev@[q] == lev(sa.take(i as int), sb.take(q + 1)),
                forall|q: int| 0 <= q < j ==> #[trigger] curr@[q] == lev(sa.take(i + 1), sb.take(q + 1)),
                left == lev(sa.take(i + 1), sb.take(j as int)),
                diag == lev(sa.take(i as int), sb.take(j as int)),
            decreases m - j,
        {
            let cost: usize = if av[i] != bv[j] { 1 } else { 0 };
            let up = prev[j];
            proof {
                let x = sa.take(i + 1);
                let y = sb.take(j + 1);
                assert(x.drop_last() =~= sa.take(i as int));
                assert(y.drop_last() =~= sb.take(j as int));
                assert(x.last() == sa[i as int]);
                assert(y.last() == sb[j as int]);
                lemma_lev_bound(x, y);
            }
            let s = if cost == 0 { diag } else { sat_inc(diag) };
            let d = sat_inc(up);
            let ins = sat_inc(left);
            let mut best = if s <= d { s } else { d };
            if ins < best {
                best = ins;
            }
            curr.push(best);
            diag = up;
            left = best;
            j = j + 1;
        }
        prev = curr;
        i = i + 1;
    }
    assert(sa.take(n as int) =~= sa);
    assert(sb.take(m as int) =~= sb);
    prev[m - 1]
}

/// The byte length of a candidate name: the tie-breaker among equally
/// distant candidates.
pub open spec fn name_len(s: Seq<char>) -> nat {
    utf8(s).len()
}

/// Candidate `x` is strictly closer than candidate `y` (distance first,
/// then length).
pub open spec fn closer(input: Seq<char>, x: Seq<char>, y: Seq<char>) -> bool {
    lev(input, x) < lev(input, y) || (lev(input, x) == lev(input, y) && name_len(x) < name_len(y))
}

/// Among the first `n` candidates within `threshold`, the index of the
/// first closest one.
pub open spec fn best_upto(input: Seq<char>, cs: Seq<Seq<char>>, threshold: nat, n: int) -> Option<int>
    decreases n,
{
    if n <= 0 {
        None
    } else {
        let prev = best_upto(input, cs, threshold, n - 1);
        if lev(input, cs[n - 1]) > threshold {
            prev
        } else {
            match prev {
                None => Some(n - 1),
                Some(p) => if closer(input, cs[n - 1], cs[p]) { Some(n - 1) } else { prev },
            }
        }
    }
}

/// How far a suggestion may be: a third of the input's length, and at
/// least one edit.
pub open spec fn suggestion_threshold(input: Seq<char>) -> nat {
    if input.len() / 3 >= 1 { input.len() / 3 } else { 1 }
}

/// The index of the candidate `closest` picks.
pub open spec fn closest_index(input: Seq<char>, cs: Seq<Seq<char>>) -> Option<int> {
    best_upto(input, cs, suggestion_threshold(input), cs.len() as int)
}

proof fn lemma_best_bounds(input: Seq<char>, cs: Seq<Seq<char>>, threshold: nat, n: int)
    ensures
        best_upto(input, cs, threshold, n) matches Some(k) ==> 0 <= k < n,
    decreases n,
{
    if n > 0 {
        lemma_best_bounds(input, cs, threshold, n - 1);
    }
}

/// The candidate closest to `input`, or `None` if none is close enough to
/// be worth suggesting. Ties go to the shorter candidate, then to the
/// earlier one.
pub fn closest<'a>(input: &str, candidates: &[&'a str]) -> (r: Option<&'a str>)
    ensures
        r == (match closest_index(input@, str_views(candidates@)) {
            Some(k) => Some(candidates@[k]),
            None => None,
        }),
        r matches Some(c) ==> closest_index(input@, str_views(candidates@)) matches Some(k)
            && 0 <= k < candidates@.len() && c@ == str_views(candidates@)[k],
{
    let ghost cs = str_views(candidates@);
    let count = input.unicode_len();
    let threshold = if count / 3 >= 1 { count / 3 } else { 1 };
    let mut best: Option<usize> = None;
    let mut best_d: usize = 0;
    let mut best_l: usize = 0;
    let mut i: usize = 0;
    while i < candidates.len()
        invariant
            cs == str_views(candidates@),
            cs.len() == candidates@.len(),
            threshold == suggestion_threshold(input@),
            i <= candidates@.len(),
            best == opt_usize(best_upto(input@, cs, threshold as nat, i as int)),
            best matches Some(k) ==> k < i && best_d == lev(input@, cs[k as int])
                && best_l == name_len(cs[k as int]),
        decreases candidates@.len() - i,
    {
        let c = candidates[i];
        let d = edit_distance(input, c);
        let l = c.as_bytes().len();
        assert(cs[i as int] == candidates@[i as int]@);
        proof {
            lemma_best_bounds(input@, cs, threshold as nat, i as int);
            lemma_best_bounds(input@, cs, threshold as nat, i + 1);
            assert(l == name_len(cs[i as int]));
        }
        if d <= threshold {
            match best {
                None => {
                    best = Some(i);
                    best_d = d;
                    best_l = l;
                },
                Some(_) => {
                    if d < best_d || (d == best_d && l < best_l) {
                        best = Some(i);
                        best_d = d;
                        best_l = l;
                    }
                },
            }
        }
        i = i + 1;
    }
    proof {
        lemma_best_bounds(input@, cs, threshold as nat, i as int);
    }
    match best {
        Some(k) => Some(candidates[k]),
        None => None,
    }
}

pub open spec fn opt_usize(o: Option<int>) -> Option<usize> {
    match o {
        Some(k) => Some(k as usize),
        None => None,
    }
}

/// `a <= b` in the byte order `str` sorts by.
pub open spec fn bytes_le(a: Seq<u8>, b: Seq<u8>) -> bool
    decreases a.len(),
{
    if a.len() == 0 {
        true
    } else if b.len() == 0 {
        false
    } else if a[0] != b[0] {
        a[0] < b[0]
    } else {
        bytes_le(a.drop_first(), b.drop_first())
    }
}

pub open spec fn str_le(a: Seq<char>, b: Seq<char>) -> bool {
    bytes_le(utf8(a), utf8(b))
}

fn bytes_le_exec(a: &[u8], b: &[u8]) -> (r: bool)
    ensures
        r == bytes_le(a@, b@),
{
    let mut i: usize = 0;
    assert(a@.skip(0) =~= a@);
    assert(b@.skip(0) =~= b@);
    while i < a.len() && i < b.len() && a[i] == b[i]
        invariant
            i <= a@.len(),
            i <= b@.len(),
            bytes_le(a@, b@) == bytes_le(a@.skip(i as int), b@.skip(i as int)),
        decreases a@.len() - i,
    {
        assert(a@.skip(i as int).drop_first() =~= a@.skip(i + 1));
        assert(b@.skip(i as int).drop_first() =~= b@.skip(i + 1));
        i = i + 1;
    }
    if i == a.len() {
        true
    } else if i == b.len() {
        false
    } else {
        a[i] < b[i]
    }
}

/// Where a stable insertion puts `key`: after every element not greater.
pub open spec fn str_insert_pos(s: Seq<Seq<char>>, key: Seq<char>) -> int
    decreases s.len(),
{
    if s.len() == 0 {
        0
    } else if str_le(s.last(), key) {
        s.len() as int
    } else {
        str_insert_pos(s.drop_last(), key)
    }
}

/// The names sorted in byte order.
pub open spec fn sort_names(s: Seq<Seq<char>>) -> Seq<Seq<char>>
    decreases s.len(),
{
    if s.len() == 0 {
        s
    } else {
        let sorted = sort_names(s.drop_last());
        sorted.insert(str_insert_pos(sorted, s.last()), s.last())
    }
}

/// Byte order is total.
proof fn lemma_bytes_le_total(a: Seq<u8>, b: Seq<u8>)
    ensures
        bytes_le(a, b) || bytes_le(b, a),
    decreases a.len(),
{
    if a.len() > 0 && b.len() > 0 && a[0] == b[0] {
        lemma_bytes_le_total(a.drop_first(), b.drop_first());
    }
}

/// Byte order is transitive.
proof fn lemma_bytes_le_trans(a: Seq<u8>, b: Seq<u8>, c: Seq<u8>)
    requires
        bytes_le(a, b),
        bytes_le(b, c),
    ensures
        bytes_le(a, c),
    decreases a.len(),
{
    if a.len() > 0 && b.len() > 0 && c.len() > 0 && a[0] == b[0] && b[0] == c[0] {
        lemma_bytes_le_trans(a.drop_first(), b.drop_first(), c.drop_first());
    }
}

/// `s` is in ascending byte order.
pub open spec fn names_sorted(s: Seq<Seq<char>>) -> bool {
    forall|i: int, j: int| 0 <= i < j < s.len() ==> str_le(#[trigger] s[i], #[trigger] s[j])
}

/// Where a stable insertion puts `key`: after an element not greater,
/// before elements greater.
proof fn lemma_insert_pos(s: Seq<Seq<char>>, key: Seq<char>)
    ensures
        0 <= str_insert_pos(s, key) <= s.len(),
        str_insert_pos(s, key) > 0 ==> str_le(s[str_insert_pos(s, key) - 1], key),
        forall|j: int| str_insert_pos(s, key) <= j < s.len() ==> !str_le(#[trigger] s[j], key),
    decreases s.len(),
{
    if s.len() > 0 && !str_le(s.last(), key) {
        lemma_insert_pos(s.drop_last(), key);
        let p = str_insert_pos(s.drop_last(), key);
        assert forall|j: int| p <= j < s.len() implies !str_le(#[trigger] s[j], key) by {
            if j < s.len() - 1 {
                assert(s[j] == s.drop_last()[j]);
            }
        }
        if p > 0 {
            assert(s[p - 1] == s.drop_last()[p - 1]);
        }
    }
}

/// Inserting at the stable position keeps a sorted sequence sorted.
proof fn lemma_insert_sorted(s: Seq<Seq<char>>, key: Seq<char>)
    requires
        names_sorted(s),
    ensures
        names_sorted(s.insert(str_insert_pos(s, key), key)),
{
    lemma_insert_pos(s, key);
    let p = str_insert_pos(s, key);
    let t = s.insert(p, key);
    assert forall|i: int, j: int| 0 <= i < j < t.len() implies str_le(#[trigger] t[i], #[trigger] t[j]) by {
        if j < p {
            assert(t[i] == s[i] && t[j] == s[j]);
        } else if j == p {
            assert(t[j] == key && t[i] == s[i]);
            if i < p - 1 {
                assert(str_le(s[i], s[p - 1]));
                lemma_bytes_le_trans(utf8(s[i]), utf8(s[p - 1]), utf8(key));
            }
        } else if i < p {
            assert(t[i] == s[i] && t[j] == s[j - 1]);
            assert(str_le(s[i], s[j - 1]));
        } else if i == p {
            assert(t[i] == key && t[j] == s[j - 1]);
            assert(!str_le(s[j - 1], key));
            lemma_bytes_le_total(utf8(s[j - 1]), utf8(key));
        } else {
            assert(t[i] == s[i - 1] && t[j] == s[j - 1]);
            assert(str_le(s[i - 1], s[j - 1]));
        }
    }
}

/// `sort_names` is the ascending sort: its result is in byte order and
/// holds exactly the names it was given, each as many times.
pub proof fn lemma_sort_names_sorts(s: Seq<Seq<char>>)
    ensures
        names_sorted(sort_names(s)),
        sort_names(s).to_multiset() == s.to_multiset(),
        sort_names(s).len() == s.len(),
    decreases s.len(),
{
    broadcast use vstd::seq_lib::to_multiset_insert, vstd::seq_lib::to_multiset_build;
    if s.len() > 0 {
        let rest = sort_names(s.drop_last());
        lemma_sort_names_sorts(s.drop_last());
        lemma_insert_pos(rest, s.last());
        lemma_insert_sorted(rest, s.last());
        assert(s =~= s.drop_last().push(s.last()));
    }
}

/// Sort names in byte order (`sort_unstable` on `&str`).
pub fn sort_strs<'a>(names: &[&'a str]) -> (r: Vec<&'a str>)
    ensures
        str_views(r@) == sort_names(str_views(names@)),
{
    let ghost ns = str_views(names@);
    let mut out: Vec<&'a str> = Vec::new();
    let mut i: usize = 0;
    assert(ns.subrange(0, 0) =~= Seq::<Seq<char>>::empty());
    while i < names.len()
        invariant
            ns == str_views(names@),
            i <= names@.len(),
            str_views(out@) == sort_names(ns.subrange(0, i as int)),
        decreases names@.len() - i,
    {
        let key = names[i];
        let ghost sv = str_views(out@);
        let mut p = out.len();
        assert(sv.subrange(0, p as int) =~= sv);
        while p > 0 && !bytes_le_exec(out[p - 1].as_bytes(), key.as_bytes())
            invariant
                sv == str_views(out@),
                p <= out@.len(),
                str_insert_pos(sv, key@) == str_insert_pos(sv.subrange(0, p as int), key@),
            decreases p,
        {
            assert(sv.subrange(0, p as int).drop_last() =~= sv.subrange(0, p - 1));
            p = p - 1;
        }
        out.insert(p, key);
        proof {
            assert(ns.subrange(0, i + 1).drop_last() =~= ns.subrange(0, i as int));
            assert(str_views(out@) =~= sv.insert(p as int, key@));
        }
        i = i + 1;
    }
    assert(ns.subrange(0, i as int) =~= ns);
    out
}

/// The note `candidates_note` renders.
pub open spec fn note_text(input: Seq<char>, label: Seq<char>, cs: Seq<Seq<char>>) -> Seq<char> {
    if cs.len() == 0 {
        "no "@ + label + " are registered"@
    } else {
        let sorted = sort_names(cs);
        let base = "known "@ + label + ": "@ + join(sorted, ", "@);
        match closest_index(input, sorted) {
            Some(k) => base + " (did you mean `"@ + sorted[k] + "`?)"@,
            None => base,
        }
    }
}

/// The tail of an error message: the valid names in byte order, plus a
/// "did you mean" when one is close.
pub fn candidates_note(input: &str, label: &str, candidates: &[&str]) -> (r: String)
    ensures
        r@ == note_text(input@, label@, str_views(candidates@)),
{
    if candidates.len() == 0 {
        let mut s = copy_str("no ");
        push_str(&mut s, label);
        push_str(&mut s, " are registered");
        return s;
    }
    let sorted = sort_strs(candidates);
    let ghost sv = str_views(sorted@);
    let mut note = copy_str("known ");
    push_str(&mut note, label);
    push_str(&mut note, ": ");
    let sl = sorted.as_slice();
    push_str(&mut note, join_strs(sl, ", ").as_str());
    match closest(input, sl) {
        Some(best) => {
            proof {
                let k = closest_index(input@, sv)->0;
                assert(best@ == sv[k]);
            }
            push_str(&mut note, " (did you mean `");
            push_str(&mut note, best);
            push_str(&mut note, "`?)");
        },
        None => {},
    }
    note
}

} // verus!

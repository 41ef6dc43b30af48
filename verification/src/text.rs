//! Byte- and string-level helpers shared by every rewrite.
//!
//! Source files are handled as their UTF-8 bytes, because syntax trees
//! report byte offsets. Results are decoded back to `String`s at the end
//! of each rewrite.

use vstd::prelude::*;
use vstd::utf8::*;
use vstd::string::*;

verus! {

broadcast use vstd::utf8::group_utf8_lib;

/// The UTF-8 encoding of a character sequence.
pub open spec fn utf8(s: Seq<char>) -> Seq<u8> {
    encode_utf8(s)
}

/// `needle` occurs in `hay` at byte offset `i`.
pub open spec fn occurs_at(hay: Seq<u8>, needle: Seq<u8>, i: int) -> bool {
    &&& 0 <= i
    &&& i + needle.len() <= hay.len()
    &&& hay.subrange(i, i + needle.len()) == needle
}

/// `needle` occurs somewhere in `hay`.
pub open spec fn contains_bytes(hay: Seq<u8>, needle: Seq<u8>) -> bool {
    exists|i: int| occurs_at(hay, needle, i)
}

/// The text a byte sequence decodes to, or `fallback` when the bytes are
/// not valid UTF-8.
pub open spec fn decode_or(bytes: Seq<u8>, fallback: Seq<char>) -> Seq<char> {
    if valid_utf8(bytes) {
        decode_utf8(bytes)
    } else {
        fallback
    }
}

/// Two strings are equal exactly when their encodings are.
pub proof fn lemma_utf8_injective(a: Seq<char>, b: Seq<char>)
    ensures
        (utf8(a) == utf8(b)) == (a == b),
{
    if utf8(a) == utf8(b) {
        encode_utf8_decode_utf8(a);
        encode_utf8_decode_utf8(b);
    }
}

/// A string has at least as many bytes as characters.
pub proof fn lemma_utf8_len(s: Seq<char>)
    ensures
        s.len() <= utf8(s).len(),
    decreases s.len(),
{
    if s.len() > 0 {
        lemma_utf8_len(s.drop_first());
    }
}

/// Byte-wise equality of `hay[i..i + needle.len()]` and `needle`.
pub fn bytes_at(hay: &[u8], i: usize, needle: &[u8]) -> (r: bool)
    ensures
        r == occurs_at(hay@, needle@, i as int),
{
    if i > hay.len() || needle.len() > hay.len() - i {
        return false;
    }
    let end = i + needle.len();
    let mut k: usize = 0;
    while k < needle.len()
        invariant
            end == i + needle@.len(),
            i + needle@.len() <= hay@.len(),
            0 <= k <= needle@.len(),
            forall|j: int| 0 <= j < k ==> hay@[i + j] == needle@[j],
        decreases needle@.len() - k,
    {
        if hay[i + k] != needle[k] {
            assert(hay@.subrange(i as int, i + needle@.len())[k as int] != needle@[k as int]);
            return false;
        }
        k = k + 1;
    }
    assert(hay@.subrange(i as int, i + needle@.len()) =~= needle@);
    true
}

/// Byte-wise equality of two slices.
pub fn bytes_eq(a: &[u8], b: &[u8]) -> (r: bool)
    ensures
        r == (a@ == b@),
{
    if a.len() != b.len() {
        return false;
    }
    let r = bytes_at(a, 0, b);
    assert(a@.subrange(0, b@.len() as int) =~= a@);
    r
}

/// Equality of two strings.
pub fn str_eq(a: &str, b: &str) -> (r: bool)
    ensures
        r == (a@ == b@),
{
    let r = bytes_eq(a.as_bytes(), b.as_bytes());
    proof {
        lemma_utf8_injective(a@, b@);
    }
    r
}

/// The first offset at or after `from` where `needle` occurs in `hay`.
pub open spec fn find_from(hay: Seq<u8>, needle: Seq<u8>, from: int) -> Option<int>
    decreases hay.len() - from,
{
    if from < 0 || from + needle.len() > hay.len() {
        None
    } else if occurs_at(hay, needle, from) {
        Some(from)
    } else if from >= hay.len() {
        None
    } else {
        find_from(hay, needle, from + 1)
    }
}

proof fn lemma_find_from_none(hay: Seq<u8>, needle: Seq<u8>, from: int)
    requires
        0 <= from,
        find_from(hay, needle, from) is None,
    ensures
        forall|i: int| from <= i ==> !occurs_at(hay, needle, i),
    decreases hay.len() - from,
{
    if from < hay.len() {
        lemma_find_from_none(hay, needle, from + 1);
    }
}

proof fn lemma_find_from_some(hay: Seq<u8>, needle: Seq<u8>, from: int)
    requires
        0 <= from,
        find_from(hay, needle, from) is Some,
    ensures
        occurs_at(hay, needle, find_from(hay, needle, from)->0),
        from <= find_from(hay, needle, from)->0,
        forall|i: int| from <= i < find_from(hay, needle, from)->0 ==> !occurs_at(hay, needle, i),
    decreases hay.len() - from,
{
    if !occurs_at(hay, needle, from) {
        if from >= hay.len() {
            assert(hay.subrange(from, from + needle.len()) =~= needle);
        }
        lemma_find_from_some(hay, needle, from + 1);
    }
}

/// `find_from` is the first occurrence: it finds something exactly when
/// the needle occurs at or after `from`.
pub proof fn lemma_find_from(hay: Seq<u8>, needle: Seq<u8>, from: int)
    requires
        0 <= from,
    ensures
        find_from(hay, needle, from) is None <==> (forall|i: int|
            from <= i ==> !occurs_at(hay, needle, i)),
        find_from(hay, needle, from) matches Some(p) ==> {
            &&& occurs_at(hay, needle, p)
            &&& from <= p
            &&& forall|i: int| from <= i < p ==> !occurs_at(hay, needle, i)
        },
{
    if find_from(hay, needle, from) is None {
        lemma_find_from_none(hay, needle, from);
    } else {
        lemma_find_from_some(hay, needle, from);
    }
}

/// Search `hay` for `needle` starting at `from`.
pub fn find_bytes(hay: &[u8], needle: &[u8], from: usize) -> (r: Option<usize>)
    ensures
        r == (match find_from(hay@, needle@, from as int) {
            Some(p) => Some(p as usize),
            None => None,
        }),
{
    let mut i = from;
    while i <= hay.len() && needle.len() <= hay.len() - i
        invariant
            from <= i,
            find_from(hay@, needle@, from as int) == find_from(hay@, needle@, i as int),
        decreases hay@.len() + 1 - i,
    {
        if bytes_at(hay, i, needle) {
            return Some(i);
        }
        if i == hay.len() {
            return None;
        }
        i = i + 1;
    }
    None
}

/// The first byte index at or after `from` holding `b`, if any.
pub open spec fn find_byte_from(hay: Seq<u8>, b: u8, from: int) -> Option<int>
    decreases hay.len() - from,
{
    if from < 0 || from >= hay.len() {
        None
    } else if hay[from] == b {
        Some(from)
    } else {
        find_byte_from(hay, b, from + 1)
    }
}

/// The last byte index before `to` holding `b`, if any.
pub open spec fn rfind_byte_before(hay: Seq<u8>, b: u8, to: int) -> Option<int>
    decreases to,
{
    if to <= 0 || to > hay.len() {
        None
    } else if hay[to - 1] == b {
        Some(to - 1)
    } else {
        rfind_byte_before(hay, b, to - 1)
    }
}

pub fn find_byte(hay: &[u8], b: u8, from: usize) -> (r: Option<usize>)
    ensures
        r == (match find_byte_from(hay@, b, from as int) {
            Some(p) => Some(p as usize),
            None => None,
        }),
{
    let mut i = from;
    while i < hay.len()
        invariant
            from <= i,
            find_byte_from(hay@, b, from as int) == find_byte_from(hay@, b, i as int),
        decreases hay@.len() - i,
    {
        if hay[i] == b {
            return Some(i);
        }
        i = i + 1;
    }
    None
}

pub fn rfind_byte(hay: &[u8], b: u8, to: usize) -> (r: Option<usize>)
    requires
        to <= hay@.len(),
    ensures
        r == (match rfind_byte_before(hay@, b, to as int) {
            Some(p) => Some(p as usize),
            None => None,
        }),
{
    let mut i = to;
    while i > 0
        invariant
            i <= to <= hay@.len(),
            rfind_byte_before(hay@, b, to as int) == rfind_byte_before(hay@, b, i as int),
        decreases i,
    {
        if hay[i - 1] == b {
            return Some(i - 1);
        }
        i = i - 1;
    }
    None
}

/// `String::from_utf8`: the string the bytes encode, or `None` when they
/// are not valid UTF-8.
#[verifier::external_body]
fn string_from_utf8(bytes: Vec<u8>) -> (r: Option<String>)
    ensures
        r is Some <==> valid_utf8(bytes@),
        r matches Some(s) ==> s@ == decode_utf8(bytes@),
{
    String::from_utf8(bytes).ok()
}

/// Decode rewritten bytes, keeping `fallback` when they are not UTF-8.
pub fn decode_bytes_or(bytes: Vec<u8>, fallback: &str) -> (r: String)
    ensures
        r@ == decode_or(bytes@, fallback@),
{
    match string_from_utf8(bytes) {
        Some(s) => s,
        None => fallback.to_owned(),
    }
}

/// Copy a string's UTF-8 bytes into a vector.
pub fn bytes_of(s: &str) -> (r: Vec<u8>)
    ensures
        r@ == utf8(s@),
{
    vstd::slice::slice_to_vec(s.as_bytes())
}

/// A copy of `s`.
pub fn copy_str(s: &str) -> (r: String)
    ensures
        r@ == s@,
{
    s.to_owned()
}

/// Append `src[from..to]` to `out`.
pub fn push_range(out: &mut Vec<u8>, src: &[u8], from: usize, to: usize)
    requires
        from <= to <= src@.len(),
    ensures
        final(out)@ == old(out)@ + src@.subrange(from as int, to as int),
{
    let mut i = from;
    while i < to
        invariant
            from <= i <= to <= src@.len(),
            out@ == old(out)@ + src@.subrange(from as int, i as int),
        decreases to - i,
    {
        out.push(src[i]);
        assert(src@.subrange(from as int, i + 1) =~= src@.subrange(from as int, i as int).push(src@[i as int]));
        i = i + 1;
    }
}

/// Append all of `src` to `out`.
pub fn push_all(out: &mut Vec<u8>, src: &[u8])
    ensures
        final(out)@ == old(out)@ + src@,
{
    push_range(out, src, 0, src.len());
    assert(src@.subrange(0, src@.len() as int) =~= src@);
}


/// Append `s` to `out`.
pub fn push_str(out: &mut String, s: &str)
    ensures
        final(out)@ == old(out)@ + s@,
{
    out.append(s);
}

/// The concatenation of two strings.
pub fn concat2(a: &str, b: &str) -> (r: String)
    ensures
        r@ == a@ + b@,
{
    let mut out = copy_str(a);
    push_str(&mut out, b);
    out
}

/// The decimal digit `d`.
pub open spec fn digit_char(d: int) -> char {
    if d == 0 { '0' } else if d == 1 { '1' } else if d == 2 { '2' } else if d == 3 { '3' }
    else if d == 4 { '4' } else if d == 5 { '5' } else if d == 6 { '6' } else if d == 7 { '7' }
    else if d == 8 { '8' } else { '9' }
}

/// The decimal rendering of `n`, without leading zeros.
pub open spec fn decimal(n: nat) -> Seq<char>
    decreases n,
{
    if n < 10 {
        seq![digit_char(n as int)]
    } else {
        decimal(n / 10) + seq![digit_char((n % 10) as int)]
    }
}

fn digit_str(d: usize) -> (r: &'static str)
    requires
        d < 10,
    ensures
        r@ == seq![digit_char(d as int)],
{
    proof {
        reveal_strlit("0");
        reveal_strlit("1");
        reveal_strlit("2");
        reveal_strlit("3");
        reveal_strlit("4");
        reveal_strlit("5");
        reveal_strlit("6");
        reveal_strlit("7");
        reveal_strlit("8");
        reveal_strlit("9");
    }
    if d == 0 { "0" } else if d == 1 { "1" } else if d == 2 { "2" } else if d == 3 { "3" }
    else if d == 4 { "4" } else if d == 5 { "5" } else if d == 6 { "6" } else if d == 7 { "7" }
    else if d == 8 { "8" } else { assert(d == 9); "9" }
}

/// `n` written in decimal.
pub fn decimal_string(n: usize) -> (r: String)
    ensures
        r@ == decimal(n as nat),
    decreases n,
{
    if n < 10 {
        copy_str(digit_str(n))
    } else {
        let mut s = decimal_string(n / 10);
        push_str(&mut s, digit_str(n % 10));
        s
    }
}

/// `n` spaces.
pub open spec fn spaces(n: nat) -> Seq<char> {
    Seq::new(n, |i: int| ' ')
}

/// A string of `n` spaces.
pub fn spaces_string(n: usize) -> (r: String)
    ensures
        r@ == spaces(n as nat),
{
    let mut out = String::new();
    let mut i: usize = 0;
    while i < n
        invariant
            i <= n,
            out@ == spaces(i as nat),
        decreases n - i,
    {
        push_str(&mut out, " ");
        proof { reveal_strlit(" "); }
        assert(out@ =~= spaces((i + 1) as nat));
        i = i + 1;
    }
    out
}

/// `char::is_whitespace`: the Unicode `White_Space` property.
pub open spec fn is_whitespace(c: char) -> bool {
    ||| '\t' <= c <= '\r'
    ||| c == ' '
    ||| c == '\u{85}'
    ||| c == '\u{a0}'
    ||| c == '\u{1680}'
    ||| '\u{2000}' <= c <= '\u{200a}'
    ||| c == '\u{2028}'
    ||| c == '\u{2029}'
    ||| c == '\u{202f}'
    ||| c == '\u{205f}'
    ||| c == '\u{3000}'
}

pub fn char_is_whitespace(c: char) -> (r: bool)
    ensures
        r == is_whitespace(c),
{
    ('\t' <= c && c <= '\r') || c == ' ' || c == '\u{85}' || c == '\u{a0}' || c == '\u{1680}'
        || ('\u{2000}' <= c && c <= '\u{200a}') || c == '\u{2028}' || c == '\u{2029}'
        || c == '\u{202f}' || c == '\u{205f}' || c == '\u{3000}'
}

/// `s.trim().is_empty()`: every character is whitespace.
pub open spec fn blank(s: Seq<char>) -> bool {
    forall|i: int| 0 <= i < s.len() ==> is_whitespace(#[trigger] s[i])
}

pub fn is_blank(s: &str) -> (r: bool)
    ensures
        r == blank(s@),
{
    let n = s.unicode_len();
    let mut i: usize = 0;
    while i < n
        invariant
            n == s@.len(),
            i <= n,
            forall|j: int| 0 <= j < i ==> is_whitespace(#[trigger] s@[j]),
        decreases n - i,
    {
        if !char_is_whitespace(s.get_char(i)) {
            return false;
        }
        i = i + 1;
    }
    true
}

/// The string a byte range of `src` decodes to, when it is valid UTF-8.
pub fn decode_range(src: &[u8], from: usize, to: usize) -> (r: Option<String>)
    requires
        from <= to <= src@.len(),
    ensures
        r is Some <==> valid_utf8(src@.subrange(from as int, to as int)),
        r matches Some(s) ==> s@ == decode_utf8(src@.subrange(from as int, to as int)),
{
    let mut v: Vec<u8> = Vec::new();
    push_range(&mut v, src, from, to);
    string_from_utf8(v)
}


/// `parts.join(sep)`.
pub open spec fn join(parts: Seq<Seq<char>>, sep: Seq<char>) -> Seq<char>
    decreases parts.len(),
{
    if parts.len() == 0 {
        Seq::empty()
    } else if parts.len() == 1 {
        parts[0]
    } else {
        join(parts.drop_last(), sep) + sep + parts.last()
    }
}

pub open spec fn string_views(v: Seq<String>) -> Seq<Seq<char>> {
    v.map_values(|s: String| s@)
}

pub open spec fn str_views(v: Seq<&str>) -> Seq<Seq<char>> {
    v.map_values(|s: &str| s@)
}

/// Join strings with a separator.
pub fn join_strings(parts: &Vec<String>, sep: &str) -> (r: String)
    ensures
        r@ == join(string_views(parts@), sep@),
{
    let ghost ps = string_views(parts@);
    let mut out = String::new();
    let mut i: usize = 0;
    assert(ps.subrange(0, 0) =~= Seq::<Seq<char>>::empty());
    while i < parts.len()
        invariant
            ps == string_views(parts@),
            i <= parts@.len(),
            out@ == join(ps.subrange(0, i as int), sep@),
        decreases parts@.len() - i,
    {
        if i > 0 {
            push_str(&mut out, sep);
        }
        push_str(&mut out, parts[i].as_str());
        assert(ps.subrange(0, i + 1).drop_last() =~= ps.subrange(0, i as int));
        i = i + 1;
    }
    assert(ps.subrange(0, i as int) =~= ps);
    out
}

/// Join string slices with a separator.
pub fn join_strs(parts: &[&str], sep: &str) -> (r: String)
    ensures
        r@ == join(str_views(parts@), sep@),
{
    let ghost ps = str_views(parts@);
    let mut out = String::new();
    let mut i: usize = 0;
    assert(ps.subrange(0, 0) =~= Seq::<Seq<char>>::empty());
    while i < parts.len()
        invariant
            ps == str_views(parts@),
            i <= parts@.len(),
            out@ == join(ps.subrange(0, i as int), sep@),
        decreases parts@.len() - i,
    {
        if i > 0 {
            push_str(&mut out, sep);
        }
        push_str(&mut out, parts[i]);
        assert(ps.subrange(0, i + 1).drop_last() =~= ps.subrange(0, i as int));
        i = i + 1;
    }
    assert(ps.subrange(0, i as int) =~= ps);
    out
}

/// How many newline bytes `s` holds.
pub open spec fn count_newlines(s: Seq<u8>) -> nat
    decreases s.len(),
{
    if s.len() == 0 {
        0
    } else {
        count_newlines(s.drop_last()) + if s.last() == 10u8 { 1nat } else { 0nat }
    }
}

pub fn newlines_before(src: &[u8], to: usize) -> (r: usize)
    requires
        to <= src@.len(),
    ensures
        r == count_newlines(src@.subrange(0, to as int)),
        r <= to,
{
    let mut i: usize = 0;
    let mut n: usize = 0;
    assert(src@.subrange(0, 0) =~= Seq::<u8>::empty());
    while i < to
        invariant
            i <= to <= src@.len(),
            n <= i,
            n == count_newlines(src@.subrange(0, i as int)),
        decreases to - i,
    {
        assert(src@.subrange(0, i + 1).drop_last() =~= src@.subrange(0, i as int));
        if src[i] == 10u8 {
            n = n + 1;
        }
        i = i + 1;
    }
    n
}


/// `n` written in decimal.
pub fn decimal_string_u64(n: u64) -> (r: String)
    ensures
        r@ == decimal(n as nat),
    decreases n,
{
    if n < 10 {
        copy_str(digit_str(n as usize))
    } else {
        let mut s = decimal_string_u64(n / 10);
        push_str(&mut s, digit_str((n % 10) as usize));
        s
    }
}


/// Where a backward byte search can land.
pub proof fn lemma_rfind_byte_bounds(hay: Seq<u8>, b: u8, to: int)
    requires
        0 <= to <= hay.len(),
    ensures
        rfind_byte_before(hay, b, to) matches Some(p) ==> 0 <= p < to && hay[p] == b,
    decreases to,
{
    if to > 0 && hay[to - 1] != b {
        lemma_rfind_byte_bounds(hay, b, to - 1);
    }
}

/// Where a forward byte search can land.
pub proof fn lemma_find_byte_bounds(hay: Seq<u8>, b: u8, from: int)
    requires
        0 <= from,
    ensures
        find_byte_from(hay, b, from) matches Some(p) ==> from <= p < hay.len() && hay[p] == b,
    decreases hay.len() - from,
{
    if from < hay.len() && hay[from] != b {
        lemma_find_byte_bounds(hay, b, from + 1);
    }
}

/// `hay.contains(needle)`, over the strings' bytes.
pub fn str_contains(hay: &str, needle: &str) -> (r: bool)
    ensures
        r == contains_bytes(utf8(hay@), utf8(needle@)),
{
    let h = hay.as_bytes();
    let n = needle.as_bytes();
    proof {
        lemma_find_from(h@, n@, 0);
    }
    let r = find_bytes(h, n, 0).is_some();
    proof {
        if r {
            let p = find_from(h@, n@, 0)->0;
            assert(occurs_at(h@, n@, p));
        } else {
            assert forall|i: int| !occurs_at(h@, n@, i) by {
                if 0 <= i {
                    assert(!occurs_at(h@, n@, i));
                }
            }
        }
    }
    r
}

/// `str::trim_start`.
pub open spec fn trim_start(s: Seq<char>) -> Seq<char>
    decreases s.len(),
{
    if s.len() > 0 && is_whitespace(s[0]) {
        trim_start(s.drop_first())
    } else {
        s
    }
}

/// `str::trim`.
pub open spec fn trim(s: Seq<char>) -> Seq<char> {
    crate::calls::trim_end(trim_start(s))
}

/// `str::trim`, executable.
pub fn trim_str(s: &str) -> (r: &str)
    ensures
        r@ == trim(s@),
{
    let n = s.unicode_len();
    let mut i: usize = 0;
    assert(s@.subrange(0, n as int) =~= s@);
    while i < n && char_is_whitespace(s.get_char(i))
        invariant
            n == s@.len(),
            i <= n,
            trim_start(s@) == trim_start(s@.subrange(i as int, n as int)),
        decreases n - i,
    {
        assert(s@.subrange(i as int, n as int).drop_first() =~= s@.subrange(i + 1, n as int));
        i = i + 1;
    }
    let rest = s.substring_char(i, n);
    crate::calls::trim_end_str(rest)
}

/// `str::trim_start`, executable.
pub fn trim_start_str(s: &str) -> (r: &str)
    ensures
        r@ == trim_start(s@),
{
    let n = s.unicode_len();
    let mut i: usize = 0;
    assert(s@.subrange(0, n as int) =~= s@);
    while i < n && char_is_whitespace(s.get_char(i))
        invariant
            n == s@.len(),
            i <= n,
            trim_start(s@) == trim_start(s@.subrange(i as int, n as int)),
        decreases n - i,
    {
        assert(s@.subrange(i as int, n as int).drop_first() =~= s@.subrange(i + 1, n as int));
        i = i + 1;
    }
    s.substring_char(i, n)
}

} // verus!

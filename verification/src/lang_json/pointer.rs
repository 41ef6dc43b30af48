//! JSON Pointer (RFC 6901) parsing.

use vstd::prelude::*;
use crate::text::{copy_str, push_str, string_views};
use crate::suggest::chars_of;

verus! {

/// The first `/` at or after `i`.
pub open spec fn next_slash(s: Seq<char>, i: int) -> Option<int>
    decreases s.len() - i,
{
    if i < 0 || i >= s.len() {
        None
    } else if s[i] == '/' {
        Some(i)
    } else {
        next_slash(s, i + 1)
    }
}

/// `s[i..]` split at every `/` (`str::split('/')`).
pub open spec fn pieces_from(s: Seq<char>, i: int) -> Seq<Seq<char>>
    decreases s.len() - i,
{
    match next_slash(s, i) {
        Some(p) => {
            proof { lemma_next_slash(s, i); }
            seq![s.subrange(i, p)] + pieces_from(s, p + 1)
        },
        None => seq![if 0 <= i <= s.len() { s.subrange(i, s.len() as int) } else { Seq::empty() }],
    }
}

pub proof fn lemma_next_slash(s: Seq<char>, i: int)
    ensures
        next_slash(s, i) matches Some(p) ==> i <= p < s.len() && s[p] == '/',
    decreases s.len() - i,
{
    if 0 <= i < s.len() && s[i] != '/' {
        lemma_next_slash(s, i + 1);
    }
}

/// A reference token with `~0` read as `~` and `~1` as `/`; `None` when a
/// `~` is followed by anything else.
pub open spec fn unescape(t: Seq<char>) -> Option<Seq<char>>
    decreases t.len(),
{
    if t.len() == 0 {
        Some(Seq::empty())
    } else if t[0] != '~' {
        match unescape(t.drop_first()) {
            Some(r) => Some(seq![t[0]] + r),
            None => None,
        }
    } else if t.len() >= 2 && (t[1] == '0' || t[1] == '1') {
        match unescape(t.subrange(2, t.len() as int)) {
            Some(r) => Some(seq![if t[1] == '0' { '~' } else { '/' }] + r),
            None => None,
        }
    } else {
        None
    }
}

/// Every token unescaped, or `None` when one cannot be.
pub open spec fn unescape_all(ts: Seq<Seq<char>>) -> Option<Seq<Seq<char>>>
    decreases ts.len(),
{
    if ts.len() == 0 {
        Some(Seq::empty())
    } else {
        match (unescape(ts[0]), unescape_all(ts.drop_first())) {
            (Some(a), Some(rest)) => Some(seq![a] + rest),
            _ => None,
        }
    }
}

pub open spec fn not_a_pointer_text(pointer: Seq<char>) -> Seq<char> {
    "`"@ + pointer + "` is not a JSON Pointer: it must start with `/`, such as /enabledPlugins"@
}

pub open spec fn bad_escape_text(pointer: Seq<char>) -> Seq<char> {
    "`"@ + pointer + "`: `~` must be written `~0`, and `/` inside a key `~1`"@
}

/// The reference tokens of a pointer, or the message saying why it is
/// not one.
pub open spec fn pointer_tokens(pointer: Seq<char>) -> Result<Seq<Seq<char>>, Seq<char>> {
    if pointer.len() == 0 || pointer[0] != '/' {
        Err(not_a_pointer_text(pointer))
    } else {
        match unescape_all(pieces_from(pointer, 1)) {
            Some(ts) => Ok(ts),
            None => Err(bad_escape_text(pointer)),
        }
    }
}

/// Unescape `cs[a..b]`.
fn unescape_range(text: &str, cs: &Vec<char>, a: usize, b: usize) -> (r: Option<String>)
    requires
        a <= b <= cs@.len(),
        cs@ == text@,
    ensures
        match unescape(cs@.subrange(a as int, b as int)) {
            Some(t) => r matches Some(s) && s@ == t,
            None => r is None,
        },
{
    let mut out = String::new();
    let mut i = a;
    let ghost whole = cs@.subrange(a as int, b as int);
    proof { reveal_strlit(""); }
    assert(whole == cs@.subrange(i as int, b as int));
    while i < b
        invariant
            a <= i <= b <= cs@.len(),
            cs@ == text@,
            whole == cs@.subrange(a as int, b as int),
            unescape(whole) == (match unescape(cs@.subrange(i as int, b as int)) {
                Some(r) => Some(out@ + r),
                None => None,
            }),
        decreases b - i,
    {
        let c = cs[i];
        let ghost t = cs@.subrange(i as int, b as int);
        let ghost prev = out@;
        if c != '~' {
            let one = text.substring_char(i, i + 1);
            assert(one@ =~= seq![c]);
            push_str(&mut out, one);
            assert(t.drop_first() =~= cs@.subrange(i + 1, b as int));
            proof {
                match unescape(cs@.subrange(i + 1, b as int)) {
                    Some(r) => { assert(prev + (seq![c] + r) =~= out@ + r); },
                    None => {},
                }
            }
            i = i + 1;
        } else if i + 1 < b && (cs[i + 1] == '0' || cs[i + 1] == '1') {
            let e = if cs[i + 1] == '0' { '~' } else { '/' };
            let one = if cs[i + 1] == '0' { "~" } else { "/" };
            proof {
                reveal_strlit("~");
                reveal_strlit("/");
            }
            assert(one@ =~= seq![e]);
            push_str(&mut out, one);
            assert(t.subrange(2, t.len() as int) =~= cs@.subrange(i + 2, b as int));
            proof {
                match unescape(cs@.subrange(i + 2, b as int)) {
                    Some(r) => { assert(prev + (seq![e] + r) =~= out@ + r); },
                    None => {},
                }
            }
            i = i + 2;
        } else {
            return None;
        }
    }
    assert(cs@.subrange(i as int, b as int) =~= Seq::<char>::empty());
    assert(out@ + Seq::<char>::empty() =~= out@);
    Some(out)
}

/// The reference tokens of a pointer: `/a/b~1c` gives `["a", "b/c"]`.
/// The whole-document pointer `""` is not accepted, since the rules that
/// use pointers edit members, not whole documents.
pub fn parse(pointer: &str) -> (r: Result<Vec<String>, String>)
    ensures
        match pointer_tokens(pointer@) {
            Ok(ts) => r matches Ok(v) && string_views(v@) == ts,
            Err(m) => r matches Err(e) && e@ == m,
        },
{
    let cs = chars_of(pointer);
    let n = cs.len();
    if n == 0 || cs[0] != '/' {
        let mut m = copy_str("`");
        push_str(&mut m, pointer);
        push_str(&mut m, "` is not a JSON Pointer: it must start with `/`, such as /enabledPlugins");
        return Err(m);
    }
    let mut out: Vec<String> = Vec::new();
    let mut i: usize = 1;
    let ghost s = cs@;
    loop
        invariant
            s == cs@,
            s == pointer@,
            n == s.len(),
            1 <= i <= n,
            s[0] == '/',
            unescape_all(pieces_from(s, 1)) == (match unescape_all(pieces_from(s, i as int)) {
                Some(rest) => Some(string_views(out@) + rest),
                None => None,
            }),
        decreases n - i,
    {
        // The end of the current piece.
        let mut j = i;
        while j < n && cs[j] != '/'
            invariant
                i <= j <= n,
                n == cs@.len(),
                next_slash(cs@, i as int) == next_slash(cs@, j as int),
            decreases n - j,
        {
            j = j + 1;
        }
        let piece = unescape_range(pointer, &cs, i, j);
        match piece {
            Some(t) => {
                let ghost prev = string_views(out@);
                let ghost tv = t@;
                out.push(t);
                assert(string_views(out@) =~= prev.push(tv));
                if j == n {
                    proof {
                        assert(pieces_from(s, i as int) == seq![s.subrange(i as int, n as int)]);
                        let one = seq![s.subrange(i as int, n as int)];
                        assert(one[0] == s.subrange(i as int, j as int));
                        assert(one.drop_first() =~= Seq::<Seq<char>>::empty());
                        assert(unescape_all(Seq::<Seq<char>>::empty()) == Some(Seq::<Seq<char>>::empty()));
                        assert(seq![tv] + Seq::<Seq<char>>::empty() =~= seq![tv]);
                        assert(unescape_all(one) == Some(seq![tv]));
                        assert(prev + seq![tv] =~= prev.push(tv));
                    }
                    return Ok(out);
                }
                proof {
                    let ps = pieces_from(s, i as int);
                    assert(ps == seq![s.subrange(i as int, j as int)] + pieces_from(s, j + 1));
                    assert(ps[0] == s.subrange(i as int, j as int));
                    assert(ps.drop_first() =~= pieces_from(s, j + 1));
                    match unescape_all(pieces_from(s, j + 1)) {
                        Some(rest) => {
                            assert(prev + (seq![tv] + rest) =~= prev.push(tv) + rest);
                        },
                        None => {},
                    }
                }
                i = j + 1;
            },
            None => {
                proof {
                    let ps = pieces_from(s, i as int);
                    if j < n {
                        assert(ps[0] == s.subrange(i as int, j as int));
                    } else {
                        assert(ps[0] == s.subrange(i as int, n as int));
                    }
                }
                let mut m = copy_str("`");
                push_str(&mut m, pointer);
                push_str(&mut m, "`: `~` must be written `~0`, and `/` inside a key `~1`");
                return Err(m);
            },
        }
    }
}

} // verus!

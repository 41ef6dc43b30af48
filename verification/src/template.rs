//! The string template language of `replace_call`.
//!
//! Placeholders:
//!
//! - `$1`, `$2`, … — 1-indexed positional argument; out-of-range indices
//!   expand to the empty string.
//! - `$args` — the argument list, joined with `", "`.
//! - `$func` — the matched function name.
//! - `$$` — a literal `$`.
//!
//! Anything else after a `$` is emitted verbatim, `$` included.

use vstd::prelude::*;
use vstd::string::*;
use crate::text::{join, str_views, join_strs, push_str, copy_str};

verus! {

pub open spec fn is_digit(c: char) -> bool {
    '0' <= c <= '9'
}

/// The value of the decimal digits `t[i..j]`.
pub open spec fn digits_value(t: Seq<char>, i: int, j: int) -> nat
    decreases j - i,
{
    if j <= i {
        0
    } else {
        digits_value(t, i, j - 1) * 10 + ((t[j - 1] as int) - ('0' as int)) as nat
    }
}

/// The end of the run of ASCII digits starting at `i`.
pub open spec fn digit_run_end(t: Seq<char>, i: int) -> int
    decreases t.len() - i,
{
    if 0 <= i < t.len() && is_digit(t[i]) {
        digit_run_end(t, i + 1)
    } else {
        i
    }
}

/// `t[i..]` starts with `p`.
pub open spec fn starts_at(t: Seq<char>, i: int, p: Seq<char>) -> bool {
    0 <= i && i + p.len() <= t.len() && t.subrange(i, i + p.len()) == p
}

/// What the template renders to from position `i` on.
pub open spec fn render_from(t: Seq<char>, i: int, func: Seq<char>, args: Seq<Seq<char>>) -> Seq<char>
    decreases 2 * (t.len() - i),
{
    if i < 0 || i >= t.len() {
        Seq::empty()
    } else if t[i] != '$' {
        seq![t[i]] + render_from(t, i + 1, func, args)
    } else {
        render_placeholder(t, i + 1, func, args)
    }
}

/// What follows a `$` at position `i - 1`.
pub open spec fn render_placeholder(t: Seq<char>, i: int, func: Seq<char>, args: Seq<Seq<char>>) -> Seq<char>
    decreases 2 * (t.len() - i) + 1,
{
    if i < 1 || i > t.len() {
        Seq::empty()
    } else if starts_at(t, i, seq!['$']) {
        seq!['$'] + render_from(t, i + 1, func, args)
    } else if starts_at(t, i, seq!['a', 'r', 'g', 's']) {
        join(args, seq![',', ' ']) + render_from(t, i + 4, func, args)
    } else if starts_at(t, i, seq!['f', 'u', 'n', 'c']) {
        func + render_from(t, i + 4, func, args)
    } else {
        let e = digit_run_end(t, i);
        proof {
            lemma_digit_run_end(t, i);
        }
        if e > i {
            let v = digits_value(t, i, e);
            if 1 <= v <= args.len() {
                args[v - 1] + render_from(t, e, func, args)
            } else {
                render_from(t, e, func, args)
            }
        } else {
            seq!['$'] + render_from(t, i, func, args)
        }
    }
}

/// The rendered template.
pub open spec fn render(t: Seq<char>, func: Seq<char>, args: Seq<Seq<char>>) -> Seq<char> {
    render_from(t, 0, func, args)
}

pub proof fn lemma_digit_run_end(t: Seq<char>, i: int)
    requires
        0 <= i <= t.len(),
    ensures
        i <= digit_run_end(t, i) <= t.len(),
        forall|k: int| i <= k < digit_run_end(t, i) ==> is_digit(#[trigger] t[k]),
    decreases t.len() - i,
{
    if i < t.len() && is_digit(t[i]) {
        lemma_digit_run_end(t, i + 1);
    }
}

fn starts_with_at(t: &str, n: usize, i: usize, p: &str) -> (r: bool)
    requires
        n == t@.len(),
        i <= n,
    ensures
        r == starts_at(t@, i as int, p@),
{
    let m = p.unicode_len();
    if m > n - i {
        return false;
    }
    let mut k: usize = 0;
    while k < m
        invariant
            m == p@.len(),
            n == t@.len(),
            i + m <= n,
            k <= m,
            forall|j: int| 0 <= j < k ==> t@[i + j] == p@[j],
        decreases m - k,
    {
        if t.get_char(i + k) != p.get_char(k) {
            assert(t@.subrange(i as int, i + m)[k as int] != p@[k as int]);
            return false;
        }
        k = k + 1;
    }
    assert(t@.subrange(i as int, i + m) =~= p@);
    true
}

/// Render `template` with the matched function name and its arguments
/// (each the verbatim source text of one argument).
pub fn render_call_template(template: &str, function_name: &str, args: &[&str]) -> (r: String)
    ensures
        r@ == render(template@, function_name@, str_views(args@)),
{
    let ghost t = template@;
    let ghost av = str_views(args@);
    let n = template.unicode_len();
    let mut out = String::new();
    let mut i: usize = 0;
    proof {
        reveal_strlit("$");
        reveal_strlit("args");
        reveal_strlit("func");
        reveal_strlit(", ");
    }
    while i < n
        invariant
            t == template@,
            av == str_views(args@),
            n == t.len(),
            i <= n,
            out@ + render_from(t, i as int, function_name@, av) == render(t, function_name@, av),
            "$"@ == seq!['$'],
            "args"@ == seq!['a', 'r', 'g', 's'],
            "func"@ == seq!['f', 'u', 'n', 'c'],
            ", "@ == seq![',', ' '],
        decreases n - i,
    {
        let c = template.get_char(i);
        let ghost out0 = out@;
        let ghost i0 = i as int;
        let ghost f = function_name@;
        if c != '$' {
            // Emit the run of plain characters up to the next `$`.
            let mut j = i + 1;
            assert(t.subrange(i as int, i + 1) =~= seq![t[i as int]]);
            while j < n && template.get_char(j) != '$'
                invariant
                    t == template@,
                    n == t.len(),
                    i < j <= n,
                    render_from(t, i as int, function_name@, av)
                        == t.subrange(i as int, j as int) + render_from(t, j as int, function_name@, av),
                decreases n - j,
            {
                assert(t.subrange(i as int, j + 1) =~= t.subrange(i as int, j as int) + seq![t[j as int]]);
                j = j + 1;
            }
            let run = template.substring_char(i, j);
            push_str(&mut out, run);
            assert(out@ + render_from(t, j as int, f, av) =~= out0 + render_from(t, i0, f, av));
            i = j;
        } else {
            let dollar = i + 1 < n && template.get_char(i + 1) == '$';
            proof {
                if i + 1 < n {
                    assert(t.subrange(i + 1, i + 2)[0] == t[i + 1]);
                    assert(t.subrange(i + 1, i + 2).len() == 1);
                    if t[i + 1] == '$' {
                        assert(t.subrange(i + 1, i + 2) =~= seq!['$']);
                    }
                }
                assert(dollar == starts_at(t, i + 1, seq!['$']));
            }
            if dollar {
                push_str(&mut out, "$");
                assert(render_from(t, i0, f, av) == render_placeholder(t, i0 + 1, f, av));
                assert(out@ + render_from(t, i + 2, f, av) =~= out0 + render_from(t, i0, f, av));
                i = i + 2;
            } else if starts_with_at(template, n, i + 1, "args") {
                let joined = join_strs(args, ", ");
                push_str(&mut out, joined.as_str());
                assert(render_from(t, i0, f, av) == render_placeholder(t, i0 + 1, f, av));
                assert(out@ + render_from(t, i + 5, f, av) =~= out0 + render_from(t, i0, f, av));
                i = i + 5;
            } else if starts_with_at(template, n, i + 1, "func") {
                push_str(&mut out, function_name);
                assert(render_from(t, i0, f, av) == render_placeholder(t, i0 + 1, f, av));
                assert(out@ + render_from(t, i + 5, f, av) =~= out0 + render_from(t, i0, f, av));
                i = i + 5;
            } else {
                proof {
                    lemma_digit_run_end(t, i + 1);
                }
                let mut e = i + 1;
                // Value of the digits so far, or None once it exceeds the
                // number of arguments.
                let mut v: Option<usize> = Some(0);
                while e < n && is_ascii_digit(template.get_char(e))
                    invariant
                        t == template@,
                        n == t.len(),
                        i + 1 <= e <= n,
                        digit_run_end(t, i + 1) == digit_run_end(t, e as int),
                        match v {
                            Some(x) => x == digits_value(t, i + 1, e as int) && x <= args@.len(),
                            None => digits_value(t, i + 1, e as int) > args@.len(),
                        },
                    decreases n - e,
                {
                    let d = digit_value(template.get_char(e));
                    let ghost old_val = digits_value(t, i + 1, e as int);
                    assert(digits_value(t, i + 1, e + 1) == old_val * 10 + d);
                    v = match v {
                        Some(x) => {
                            if d <= args.len() && x <= (args.len() - d) / 10 {
                                proof {
                                    assert(x * 10 + d <= args@.len()) by (nonlinear_arith)
                                        requires x <= (args@.len() - d) / 10, d <= args@.len();
                                }
                                Some(x * 10 + d)
                            } else {
                                proof {
                                    if d <= args@.len() {
                                        assert(x * 10 + d > args@.len()) by (nonlinear_arith)
                                            requires x > (args@.len() - d) / 10, d <= args@.len();
                                    }
                                }
                                None
                            }
                        },
                        None => {
                            proof {
                                assert(old_val * 10 + d >= old_val) by (nonlinear_arith);
                            }
                            None
                        },
                    };
                    e = e + 1;
                }
                assert(digit_run_end(t, e as int) == e);
                assert(render_from(t, i0, f, av) == render_placeholder(t, i0 + 1, f, av));
                if e > i + 1 {
                    match v {
                        Some(x) => {
                            if x >= 1 {
                                push_str(&mut out, args[x - 1]);
                            }
                        },
                        None => {},
                    }
                    assert(out@ + render_from(t, e as int, f, av) =~= out0 + render_from(t, i0, f, av));
                    i = e;
                } else {
                    push_str(&mut out, "$");
                    assert(out@ + render_from(t, i + 1, f, av) =~= out0 + render_from(t, i0, f, av));
                    i = i + 1;
                }
            }
        }
    }
    out
}

fn is_ascii_digit(c: char) -> (r: bool)
    ensures
        r == is_digit(c),
{
    '0' <= c && c <= '9'
}

fn digit_value(c: char) -> (r: usize)
    requires
        is_digit(c),
    ensures
        r == (c as int) - ('0' as int),
        r <= 9,
{
    (c as u32 - '0' as u32) as usize
}

} // verus!

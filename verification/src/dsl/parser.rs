//! Parsing a codemod script.
//!
//! ```text
//! program   := "refactor" string "{" item* "}"
//! item      := "include" string
//!            | "match" ident "::" ident string ("in" string)? "{" action "}"
//! action    := "replace" string | "delete" | "ensure" | "replace_call" string
//!            | "set" value | "insert" value
//! ```
//!
//! A `string` is double-quoted; a `value` is single- or double-quoted.
//! An identifier is a word that is not a keyword, except `include`, which
//! is allowed so that `c::include` can be named. A failure is reported at
//! the offending token with the tokens that would have been valid there.

use vstd::prelude::*;
use vstd::utf8::*;
use crate::text::{utf8, str_eq, copy_str, push_str, string_views, str_views};
use crate::error::{Error, ParseDetail, detail_at};
use crate::dsl::ast::{
    Action, ActionView, Command, CommandView, Item, ItemView, Match, MatchView, Namespace, item_views,
};
use crate::dsl::lexer::{TokKind, Token, Tok, tok_views, lex, tokenize};

verus! {

/// A parse failure: where (a character index), what, and the tokens
/// that would have been valid.
pub struct Failure {
    pub at: int,
    pub message: Seq<char>,
    pub expected: Seq<Seq<char>>,
}

/// The characters a token spans.
pub open spec fn text_of(s: Seq<char>, t: Tok) -> Seq<char> {
    if 0 <= t.start <= t.end <= s.len() { s.subrange(t.start, t.end) } else { Seq::empty() }
}

/// The characters between a quoted token's quotes.
pub open spec fn inner_of(s: Seq<char>, t: Tok) -> Seq<char> {
    if 0 <= t.start + 1 <= t.end - 1 <= s.len() { s.subrange(t.start + 1, t.end - 1) } else { Seq::empty() }
}

pub open spec fn keywords() -> Seq<Seq<char>> {
    seq![
        "refactor"@, "match"@, "include"@, "in"@, "replace"@, "delete"@, "ensure"@,
        "replace_call"@, "set"@, "insert"@,
    ]
}

/// Token `k` exists and has kind `kind`.
pub open spec fn has_kind(ts: Seq<Tok>, k: int, kind: TokKind) -> bool {
    0 <= k < ts.len() && ts[k].kind == kind
}

/// Token `k` is the word `w`.
pub open spec fn is_word(s: Seq<char>, ts: Seq<Tok>, k: int, w: Seq<char>) -> bool {
    has_kind(ts, k, TokKind::Word) && text_of(s, ts[k]) == w
}

/// Token `k` can name a language or a module.
pub open spec fn is_ident(s: Seq<char>, ts: Seq<Tok>, k: int) -> bool {
    has_kind(ts, k, TokKind::Word) && (!keywords().contains(text_of(s, ts[k])) || text_of(s, ts[k]) == "include"@)
}

/// A token that does not fit, or the end of the script, where one of
/// `expected` should have been.
pub open spec fn unexpected(s: Seq<char>, ts: Seq<Tok>, k: int, expected: Seq<Seq<char>>) -> Failure {
    if 0 <= k < ts.len() {
        Failure { at: ts[k].start, message: "Unrecognized token `"@ + text_of(s, ts[k]) + "`"@, expected }
    } else {
        Failure { at: if ts.len() > 0 { ts.last().end } else { 0 }, message: "Unrecognized EOF"@, expected }
    }
}

pub open spec fn want_string() -> Seq<Seq<char>> { seq!["string"@] }
pub open spec fn want_value() -> Seq<Seq<char>> { seq!["value"@] }
pub open spec fn want_ident() -> Seq<Seq<char>> { seq!["identifier"@] }
pub open spec fn want_path() -> Seq<Seq<char>> { seq!["\"::\""@] }
pub open spec fn want_open() -> Seq<Seq<char>> { seq!["\"{\""@] }
pub open spec fn want_close() -> Seq<Seq<char>> { seq!["\"}\""@] }
pub open spec fn want_scope_or_open() -> Seq<Seq<char>> { seq!["\"in\""@, "\"{\""@] }
pub open spec fn want_refactor() -> Seq<Seq<char>> { seq!["\"refactor\""@] }
pub open spec fn want_item() -> Seq<Seq<char>> { seq!["\"include\""@, "\"match\""@, "\"}\""@] }
pub open spec fn want_action() -> Seq<Seq<char>> {
    seq!["\"delete\""@, "\"ensure\""@, "\"insert\""@, "\"replace\""@, "\"replace_call\""@, "\"set\""@]
}

/// A quoted value, single or double.
pub open spec fn is_value(ts: Seq<Tok>, k: int) -> bool {
    has_kind(ts, k, TokKind::Text) || has_kind(ts, k, TokKind::Raw)
}

/// The action starting at token `k`, and the token after it.
pub open spec fn parse_action(s: Seq<char>, ts: Seq<Tok>, k: int) -> Result<(ActionView, int), Failure> {
    if is_word(s, ts, k, "replace"@) {
        if has_kind(ts, k + 1, TokKind::Text) {
            Ok((ActionView::Replace(inner_of(s, ts[k + 1])), k + 2))
        } else {
            Err(unexpected(s, ts, k + 1, want_string()))
        }
    } else if is_word(s, ts, k, "delete"@) {
        Ok((ActionView::Delete, k + 1))
    } else if is_word(s, ts, k, "ensure"@) {
        Ok((ActionView::Ensure, k + 1))
    } else if is_word(s, ts, k, "replace_call"@) {
        if has_kind(ts, k + 1, TokKind::Text) {
            Ok((ActionView::ReplaceCall(inner_of(s, ts[k + 1])), k + 2))
        } else {
            Err(unexpected(s, ts, k + 1, want_string()))
        }
    } else if is_word(s, ts, k, "set"@) {
        if is_value(ts, k + 1) {
            Ok((ActionView::SetValue(inner_of(s, ts[k + 1])), k + 2))
        } else {
            Err(unexpected(s, ts, k + 1, want_value()))
        }
    } else if is_word(s, ts, k, "insert"@) {
        if is_value(ts, k + 1) {
            Ok((ActionView::Insert(inner_of(s, ts[k + 1])), k + 2))
        } else {
            Err(unexpected(s, ts, k + 1, want_value()))
        }
    } else {
        Err(unexpected(s, ts, k, want_action()))
    }
}

/// The optional `in "<glob>"` clause at token `k`, and the token after it.
pub open spec fn parse_scope(s: Seq<char>, ts: Seq<Tok>, k: int) -> Result<(Option<Seq<char>>, int), Failure> {
    if is_word(s, ts, k, "in"@) {
        if has_kind(ts, k + 1, TokKind::Text) {
            Ok((Some(inner_of(s, ts[k + 1])), k + 2))
        } else {
            Err(unexpected(s, ts, k + 1, want_string()))
        }
    } else {
        Ok((None, k))
    }
}

/// `{ <action> }` at token `k`, with the head of the match already read.
pub open spec fn parse_block(
    s: Seq<char>,
    ts: Seq<Tok>,
    k: int,
    scoped: bool,
) -> Result<(ActionView, int), Failure> {
    if !has_kind(ts, k, TokKind::Open) {
        Err(unexpected(s, ts, k, if scoped { want_open() } else { want_scope_or_open() }))
    } else {
        match parse_action(s, ts, k + 1) {
            Ok((a, c)) => if has_kind(ts, c, TokKind::Close) {
                Ok((a, c + 1))
            } else {
                Err(unexpected(s, ts, c, want_close()))
            },
            Err(e) => Err(e),
        }
    }
}

/// The match block whose `match` keyword is token `k`, and the token
/// after it.
pub open spec fn parse_match(s: Seq<char>, ts: Seq<Tok>, k: int) -> Result<(MatchView, int), Failure> {
    if !is_ident(s, ts, k + 1) {
        Err(unexpected(s, ts, k + 1, want_ident()))
    } else if !has_kind(ts, k + 2, TokKind::Path) {
        Err(unexpected(s, ts, k + 2, want_path()))
    } else if !is_ident(s, ts, k + 3) {
        Err(unexpected(s, ts, k + 3, want_ident()))
    } else if !has_kind(ts, k + 4, TokKind::Text) {
        Err(unexpected(s, ts, k + 4, want_string()))
    } else {
        match parse_scope(s, ts, k + 5) {
            Ok((scope, b)) => match parse_block(s, ts, b, scope is Some) {
                Ok((action, c)) => Ok((
                    MatchView {
                        lang: text_of(s, ts[k + 1]),
                        module: text_of(s, ts[k + 3]),
                        target: inner_of(s, ts[k + 4]),
                        scope,
                        action,
                    },
                    c,
                )),
                Err(e) => Err(e),
            },
            Err(e) => Err(e),
        }
    }
}

pub proof fn lemma_match_advances(s: Seq<char>, ts: Seq<Tok>, k: int)
    requires
        0 <= k,
    ensures
        parse_match(s, ts, k) matches Ok((m, c)) ==> k < c <= ts.len(),
{
}

/// The items from token `k` up to the closing brace, and the token after
/// the brace.
pub open spec fn parse_items(s: Seq<char>, ts: Seq<Tok>, k: int) -> Result<(Seq<ItemView>, int), Failure>
    decreases ts.len() - k,
{
    if k < 0 {
        Err(unexpected(s, ts, k, want_item()))
    } else if has_kind(ts, k, TokKind::Close) {
        Ok((Seq::empty(), k + 1))
    } else if is_word(s, ts, k, "include"@) {
        if has_kind(ts, k + 1, TokKind::Text) {
            match parse_items(s, ts, k + 2) {
                Ok((rest, e)) => Ok((seq![ItemView::Include(inner_of(s, ts[k + 1]))] + rest, e)),
                Err(x) => Err(x),
            }
        } else {
            Err(unexpected(s, ts, k + 1, want_string()))
        }
    } else if is_word(s, ts, k, "match"@) {
        proof {
            lemma_match_advances(s, ts, k);
        }
        match parse_match(s, ts, k) {
            Ok((m, c)) => match parse_items(s, ts, c) {
                Ok((rest, e)) => Ok((seq![ItemView::Match(m)] + rest, e)),
                Err(x) => Err(x),
            },
            Err(x) => Err(x),
        }
    } else {
        Err(unexpected(s, ts, k, want_item()))
    }
}

/// The command the tokens spell.
pub open spec fn parse_program(s: Seq<char>, ts: Seq<Tok>) -> Result<CommandView, Failure> {
    if !is_word(s, ts, 0, "refactor"@) {
        Err(unexpected(s, ts, 0, want_refactor()))
    } else if !has_kind(ts, 1, TokKind::Text) {
        Err(unexpected(s, ts, 1, want_string()))
    } else if !has_kind(ts, 2, TokKind::Open) {
        Err(unexpected(s, ts, 2, want_open()))
    } else {
        match parse_items(s, ts, 3) {
            Ok((items, e)) => if e < ts.len() {
                Err(unexpected(s, ts, e, Seq::empty()))
            } else {
                Ok(CommandView { name: inner_of(s, ts[1]), items })
            },
            Err(x) => Err(x),
        }
    }
}

/// What a script parses to, or why it does not.
pub open spec fn parse_script(s: Seq<char>) -> Result<CommandView, Failure> {
    match lex(s) {
        Ok(ts) => parse_program(s, ts),
        Err(p) => Err(Failure { at: p, message: "Invalid token"@, expected: Seq::empty() }),
    }
}

/// The byte offset of character index `p`, clamped to the script.
pub open spec fn byte_offset(s: Seq<char>, p: int) -> int {
    if p <= 0 {
        0
    } else if p >= s.len() {
        utf8(s).len() as int
    } else {
        utf8(s.subrange(0, p)).len() as int
    }
}

/// The error a failure is reported as.
pub open spec fn failure_reported(s: Seq<char>, f: Failure, e: Error) -> bool {
    match e {
        Error::Parse(d) => {
            &&& detail_at(s, byte_offset(s, f.at), d)
            &&& d.message@ == f.message
            &&& string_views(d.expected@) == f.expected
        },
        _ => false,
    }
}

/// Exec form of a [`Failure`].
struct Fail {
    at: usize,
    message: String,
    expected: Vec<String>,
}

spec fn fail_view(f: Fail) -> Failure {
    Failure { at: f.at as int, message: f.message@, expected: string_views(f.expected@) }
}

/// The script, its characters and its tokens.
struct Input<'a> {
    text: &'a str,
    chars: Vec<char>,
    toks: Vec<Token>,
}

spec fn input_ok(inp: &Input) -> bool {
    &&& inp.chars@ == inp.text@
}

fn strings(names: &[&str]) -> (r: Vec<String>)
    ensures
        string_views(r@) == str_views(names@),
{
    let mut out: Vec<String> = Vec::new();
    let mut i: usize = 0;
    while i < names.len()
        invariant
            i <= names@.len(),
            string_views(out@) == str_views(names@.subrange(0, i as int)),
        decreases names@.len() - i,
    {
        let ghost prev = out@;
        let s = copy_str(names[i]);
        out.push(s);
        assert(string_views(out@) =~= string_views(prev).push(names@[i as int]@));
        assert(str_views(names@.subrange(0, i + 1)) =~= str_views(names@.subrange(0, i as int)).push(names@[i as int]@));
        i = i + 1;
    }
    assert(names@.subrange(0, i as int) =~= names@);
    out
}

fn want_string_v() -> (r: Vec<String>)
    ensures
        string_views(r@) == want_string(),
{
    let names: [&str; 1] = ["string"];
    let r = strings(&names);
    assert(str_views(names@) =~= want_string());
    r
}

fn want_value_v() -> (r: Vec<String>)
    ensures
        string_views(r@) == want_value(),
{
    let names: [&str; 1] = ["value"];
    let r = strings(&names);
    assert(str_views(names@) =~= want_value());
    r
}

fn want_ident_v() -> (r: Vec<String>)
    ensures
        string_views(r@) == want_ident(),
{
    let names: [&str; 1] = ["identifier"];
    let r = strings(&names);
    assert(str_views(names@) =~= want_ident());
    r
}

fn want_path_v() -> (r: Vec<String>)
    ensures
        string_views(r@) == want_path(),
{
    let names: [&str; 1] = ["\"::\""];
    let r = strings(&names);
    assert(str_views(names@) =~= want_path());
    r
}

fn want_open_v() -> (r: Vec<String>)
    ensures
        string_views(r@) == want_open(),
{
    let names: [&str; 1] = ["\"{\""];
    let r = strings(&names);
    assert(str_views(names@) =~= want_open());
    r
}

fn want_close_v() -> (r: Vec<String>)
    ensures
        string_views(r@) == want_close(),
{
    let names: [&str; 1] = ["\"}\""];
    let r = strings(&names);
    assert(str_views(names@) =~= want_close());
    r
}

fn want_scope_or_open_v() -> (r: Vec<String>)
    ensures
        string_views(r@) == want_scope_or_open(),
{
    let names: [&str; 2] = ["\"in\"", "\"{\""];
    let r = strings(&names);
    assert(str_views(names@) =~= want_scope_or_open());
    r
}

fn want_refactor_v() -> (r: Vec<String>)
    ensures
        string_views(r@) == want_refactor(),
{
    let names: [&str; 1] = ["\"refactor\""];
    let r = strings(&names);
    assert(str_views(names@) =~= want_refactor());
    r
}

fn want_item_v() -> (r: Vec<String>)
    ensures
        string_views(r@) == want_item(),
{
    let names: [&str; 3] = ["\"include\"", "\"match\"", "\"}\""];
    let r = strings(&names);
    assert(str_views(names@) =~= want_item());
    r
}

fn want_action_v() -> (r: Vec<String>)
    ensures
        string_views(r@) == want_action(),
{
    let names: [&str; 6] = ["\"delete\"", "\"ensure\"", "\"insert\"", "\"replace\"", "\"replace_call\"", "\"set\""];
    let r = strings(&names);
    assert(str_views(names@) =~= want_action());
    r
}

impl<'a> Input<'a> {
    spec fn toks_view(&self) -> Seq<Tok> {
        tok_views(self.toks@)
    }

    fn kind_at(&self, k: usize, kind: TokKind) -> (r: bool)
        ensures
            r == has_kind(self.toks_view(), k as int, kind),
    {
        k < self.toks.len() && self.toks[k].kind == kind
    }

    /// The characters of token `k`.
    fn text(&self, k: usize) -> (r: &'a str)
        requires
            input_ok(self),
            k < self.toks@.len(),
        ensures
            r@ == text_of(self.text@, self.toks_view()[k as int]),
    {
        let t = self.toks[k];
        assert(self.toks_view()[k as int] == t@);
        let n = self.chars.len();
        if t.start <= t.end && t.end <= n {
            self.text.substring_char(t.start, t.end)
        } else {
            proof { reveal_strlit(""); }
            ""
        }
    }

    /// The characters between the quotes of token `k`.
    fn inner(&self, k: usize) -> (r: String)
        requires
            input_ok(self),
            k < self.toks@.len(),
        ensures
            r@ == inner_of(self.text@, self.toks_view()[k as int]),
    {
        let t = self.toks[k];
        assert(self.toks_view()[k as int] == t@);
        let n = self.chars.len();
        if t.end >= 1 && t.start < t.end - 1 + 1 && t.start + 1 <= t.end - 1 && t.end - 1 <= n {
            copy_str(self.text.substring_char(t.start + 1, t.end - 1))
        } else {
            proof { reveal_strlit(""); }
            copy_str("")
        }
    }

    fn word_is(&self, k: usize, w: &str) -> (r: bool)
        requires
            input_ok(self),
        ensures
            r == is_word(self.text@, self.toks_view(), k as int, w@),
    {
        self.kind_at(k, TokKind::Word) && str_eq(self.text(k), w)
    }

    fn ident_at(&self, k: usize) -> (r: bool)
        requires
            input_ok(self),
        ensures
            r == is_ident(self.text@, self.toks_view(), k as int),
    {
        if !self.kind_at(k, TokKind::Word) {
            return false;
        }
        let t = self.text(k);
        let kws: [&str; 10] = [
            "refactor", "match", "include", "in", "replace", "delete", "ensure", "replace_call", "set", "insert",
        ];
        assert(str_views(kws@) =~= keywords());
        let is_kw = crate::rewrite::kind_among(t, &kws);
        !is_kw || str_eq(t, "include")
    }

    /// The failure at token `k`.
    fn unexpected(&self, k: usize, exp: Vec<String>) -> (r: Fail)
        requires
            input_ok(self),
        ensures
            fail_view(r) == unexpected(self.text@, self.toks_view(), k as int, string_views(exp@)),
    {
        if k < self.toks.len() {
            let mut m = copy_str("Unrecognized token `");
            push_str(&mut m, self.text(k));
            push_str(&mut m, "`");
            assert(self.toks_view()[k as int] == self.toks@[k as int]@);
            Fail { at: self.toks[k].start, message: m, expected: exp }
        } else {
            let n = self.toks.len();
            let at = if n > 0 {
                assert(self.toks_view().last() == self.toks@[n - 1]@);
                self.toks[n - 1].end
            } else {
                0
            };
            Fail { at, message: copy_str("Unrecognized EOF"), expected: exp }
        }
    }
}

spec fn action_result(r: core::result::Result<(Action, usize), Fail>) -> core::result::Result<(ActionView, int), Failure> {
    match r {
        Ok((a, k)) => Ok((a@, k as int)),
        Err(f) => Err(fail_view(f)),
    }
}

impl<'a> Input<'a> {
    fn action(&self, k: usize) -> (r: core::result::Result<(Action, usize), Fail>)
        requires
            input_ok(self),
        ensures
            action_result(r) == parse_action(self.text@, self.toks_view(), k as int),
    {
        let n = self.toks.len();
        if self.word_is(k, "replace") {
            if self.kind_at(k + 1, TokKind::Text) {
                Ok((Action::Replace(self.inner(k + 1)), k + 2))
            } else {
                Err(self.unexpected(k + 1, want_string_v()))
            }
        } else if self.word_is(k, "delete") {
            Ok((Action::Delete, k + 1))
        } else if self.word_is(k, "ensure") {
            Ok((Action::Ensure, k + 1))
        } else if self.word_is(k, "replace_call") {
            if self.kind_at(k + 1, TokKind::Text) {
                Ok((Action::ReplaceCall(self.inner(k + 1)), k + 2))
            } else {
                Err(self.unexpected(k + 1, want_string_v()))
            }
        } else if self.word_is(k, "set") {
            if self.kind_at(k + 1, TokKind::Text) || self.kind_at(k + 1, TokKind::Raw) {
                Ok((Action::SetValue(self.inner(k + 1)), k + 2))
            } else {
                Err(self.unexpected(k + 1, want_value_v()))
            }
        } else if self.word_is(k, "insert") {
            if self.kind_at(k + 1, TokKind::Text) || self.kind_at(k + 1, TokKind::Raw) {
                Ok((Action::Insert(self.inner(k + 1)), k + 2))
            } else {
                Err(self.unexpected(k + 1, want_value_v()))
            }
        } else {
            Err(self.unexpected(k, want_action_v()))
        }
    }

    fn scope(&self, k: usize) -> (r: core::result::Result<(Option<String>, usize), Fail>)
        requires
            input_ok(self),
        ensures
            match parse_scope(self.text@, self.toks_view(), k as int) {
                Ok((sc, b)) => r matches Ok((x, c)) && crate::dsl::ast::opt_view(x) == sc && c == b,
                Err(e) => r matches Err(f) && fail_view(f) == e,
            },
    {
        let n = self.toks.len();
        if self.word_is(k, "in") {
            if self.kind_at(k + 1, TokKind::Text) {
                Ok((Some(self.inner(k + 1)), k + 2))
            } else {
                Err(self.unexpected(k + 1, want_string_v()))
            }
        } else {
            Ok((None, k))
        }
    }

    fn block(&self, k: usize, scoped: bool) -> (r: core::result::Result<(Action, usize), Fail>)
        requires
            input_ok(self),
        ensures
            action_result(r) == parse_block(self.text@, self.toks_view(), k as int, scoped),
    {
        let n = self.toks.len();
        if !self.kind_at(k, TokKind::Open) {
            if scoped {
                return Err(self.unexpected(k, want_open_v()));
            } else {
                return Err(self.unexpected(k, want_scope_or_open_v()));
            }
        }
        match self.action(k + 1) {
            Ok((a, c)) => {
                if self.kind_at(c, TokKind::Close) {
                    Ok((a, c + 1))
                } else {
                    Err(self.unexpected(c, want_close_v()))
                }
            },
            Err(e) => Err(e),
        }
    }

    fn match_block(&self, k: usize) -> (r: core::result::Result<(Match, usize), Fail>)
        requires
            input_ok(self),
            k < self.toks@.len(),
        ensures
            match parse_match(self.text@, self.toks_view(), k as int) {
                Ok((m, c)) => r matches Ok((x, d)) && x@ == m && d == c,
                Err(e) => r matches Err(f) && fail_view(f) == e,
            },
    {
        let n = self.toks.len();
        if !self.ident_at(k + 1) {
            return Err(self.unexpected(k + 1, want_ident_v()));
        }
        if !self.kind_at(k + 2, TokKind::Path) {
            return Err(self.unexpected(k + 2, want_path_v()));
        }
        if !self.ident_at(k + 3) {
            return Err(self.unexpected(k + 3, want_ident_v()));
        }
        if !self.kind_at(k + 4, TokKind::Text) {
            return Err(self.unexpected(k + 4, want_string_v()));
        }
        match self.scope(k + 5) {
            Ok((scope, b)) => {
                let scoped = scope.is_some();
                match self.block(b, scoped) {
                    Ok((action, c)) => {
                        let lang = copy_str(self.text(k + 1));
                        let module = copy_str(self.text(k + 3));
                        let target = self.inner(k + 4);
                        Ok((Match { namespace: Namespace { lang, module }, match_string: target, scope, action }, c))
                    },
                    Err(e) => Err(e),
                }
            },
            Err(e) => Err(e),
        }
    }

    fn items(&self, k0: usize) -> (r: core::result::Result<(Vec<Item>, usize), Fail>)
        requires
            input_ok(self),
        ensures
            match parse_items(self.text@, self.toks_view(), k0 as int) {
                Ok((items, e)) => r matches Ok((v, d)) && item_views(v@) == items && d == e,
                Err(x) => r matches Err(f) && fail_view(f) == x,
            },
    {
        let ghost s = self.text@;
        let ghost ts = self.toks_view();
        let mut out: Vec<Item> = Vec::new();
        let mut k = k0;
        while k < self.toks.len()
            invariant
                input_ok(self),
                s == self.text@,
                ts == self.toks_view(),
                parse_items(s, ts, k0 as int) == (match parse_items(s, ts, k as int) {
                    Ok((rest, e)) => Ok((item_views(out@) + rest, e)),
                    Err(x) => Err(x),
                }),
            decreases self.toks@.len() - k,
        {
            if self.kind_at(k, TokKind::Close) {
                assert(item_views(out@) + Seq::<ItemView>::empty() =~= item_views(out@));
                return Ok((out, k + 1));
            } else if self.word_is(k, "include") {
                if self.kind_at(k + 1, TokKind::Text) {
                    let path = self.inner(k + 1);
                    let ghost prev = item_views(out@);
                    let ghost it = ItemView::Include(path@);
                    out.push(Item::Include(path));
                    assert(item_views(out@) =~= prev.push(it));
                    proof {
                        match parse_items(s, ts, k + 2) {
                            Ok((rest, e)) => {
                                assert(prev + (seq![it] + rest) =~= prev.push(it) + rest);
                            },
                            Err(x) => {},
                        }
                    }
                    k = k + 2;
                } else {
                    return Err(self.unexpected(k + 1, want_string_v()));
                }
            } else if self.word_is(k, "match") {
                proof {
                    lemma_match_advances(s, ts, k as int);
                }
                match self.match_block(k) {
                    Ok((m, c)) => {
                        let ghost prev = item_views(out@);
                        let ghost it = ItemView::Match(m@);
                        out.push(Item::Match(m));
                        assert(item_views(out@) =~= prev.push(it));
                        proof {
                            match parse_items(s, ts, c as int) {
                                Ok((rest, e)) => {
                                    assert(prev + (seq![it] + rest) =~= prev.push(it) + rest);
                                },
                                Err(x) => {},
                            }
                        }
                        k = c;
                    },
                    Err(e) => {
                        return Err(e);
                    },
                }
            } else {
                return Err(self.unexpected(k, want_item_v()));
            }
        }
        Err(self.unexpected(k, want_item_v()))
    }

    fn program(&self) -> (r: core::result::Result<Command, Fail>)
        requires
            input_ok(self),
        ensures
            match parse_program(self.text@, self.toks_view()) {
                Ok(c) => r matches Ok(x) && x@ == c,
                Err(e) => r matches Err(f) && fail_view(f) == e,
            },
    {
        let n = self.toks.len();
        assert(self.toks_view().len() == n);
        if !self.word_is(0, "refactor") {
            return Err(self.unexpected(0, want_refactor_v()));
        }
        if !self.kind_at(1, TokKind::Text) {
            return Err(self.unexpected(1, want_string_v()));
        }
        if !self.kind_at(2, TokKind::Open) {
            return Err(self.unexpected(2, want_open_v()));
        }
        match self.items(3) {
            Ok((items, e)) => {
                if e < self.toks.len() {
                    let none: Vec<String> = Vec::new();
                    assert(string_views(none@) =~= Seq::<Seq<char>>::empty());
                    Err(self.unexpected(e, none))
                } else {
                    Ok(Command { refactor_name: self.inner(1), items })
                }
            },
            Err(x) => Err(x),
        }
    }
}

/// The byte offset of character index `p` of `text`.
fn offset_of(text: &str, p: usize) -> (r: usize)
    ensures
        r as int == byte_offset(text@, p as int),
{
    let n = text.unicode_len();
    if p == 0 {
        0
    } else if p >= n {
        text.as_bytes().len()
    } else {
        text.substring_char(0, p).as_bytes().len()
    }
}

/// Parse a script into its syntax tree. A failure is an
/// [`Error::Parse`] naming the position and the tokens that would have
/// been valid.
pub fn parse(text: &str) -> (r: crate::error::Result<Command>)
    requires
        utf8(text@).len() < usize::MAX,
    ensures
        match parse_script(text@) {
            Ok(c) => r matches Ok(x) && x@ == c,
            Err(f) => r matches Err(e) && failure_reported(text@, f, e),
        },
{
    let chars = crate::suggest::chars_of(text);
    let ghost sv = text@;
    let fail = match tokenize(&chars) {
        Ok(toks) => {
            let input = Input { text, chars, toks };
            assert(lex(sv) == Ok::<Seq<Tok>, int>(input.toks_view()));
            match input.program() {
                Ok(c) => return Ok(c),
                Err(f) => f,
            }
        },
        Err(p) => {
            let f = Fail { at: p, message: copy_str("Invalid token"), expected: Vec::new() };
            assert(string_views(f.expected@) =~= Seq::<Seq<char>>::empty());
            f
        },
    };
    let ghost fv = fail_view(fail);
    assert(parse_script(sv) == Err::<CommandView, Failure>(fv));
    let at = offset_of(text, fail.at);
    let d = ParseDetail::at_offset(text, at, fail.message, fail.expected);
    assert(d.message@ == fv.message);
    assert(string_views(d.expected@) == fv.expected);
    Err(Error::Parse(d))
}

} // verus!

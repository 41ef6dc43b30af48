//! Splitting a script into tokens.
//!
//! Whitespace and `//` comments separate tokens. A token is a word
//! (`[A-Za-z_][A-Za-z0-9_]*`), a double-quoted string, a single-quoted
//! value, `{`, `}` or `::`. Strings have no escapes: a string runs to the
//! next quote of its kind. Positions are character indices.

use vstd::prelude::*;

verus! {

/// The kinds of token.
#[derive(Clone, Copy, Debug, PartialEq, Eq, Structural)]
pub enum TokKind {
    Word,
    /// `"..."`
    Text,
    /// `'...'`
    Raw,
    Open,
    Close,
    Path,
}

/// A token: its kind and the characters `start..end` it spans (quotes
/// included).
#[derive(Clone, Copy, Debug)]
pub struct Token {
    pub kind: TokKind,
    pub start: usize,
    pub end: usize,
}

/// The mathematical form of a [`Token`].
pub struct Tok {
    pub kind: TokKind,
    pub start: int,
    pub end: int,
}

impl View for Token {
    type V = Tok;

    open spec fn view(&self) -> Tok {
        Tok { kind: self.kind, start: self.start as int, end: self.end as int }
    }
}

pub open spec fn tok_views(ts: Seq<Token>) -> Seq<Tok> {
    ts.map_values(|t: Token| t@)
}

pub open spec fn is_space(c: char) -> bool {
    c == ' ' || c == '\t' || c == '\n' || c == '\r' || c == '\x0c'
}

pub open spec fn is_word_start(c: char) -> bool {
    ('a' <= c <= 'z') || ('A' <= c <= 'Z') || c == '_'
}

pub open spec fn is_word_char(c: char) -> bool {
    is_word_start(c) || ('0' <= c <= '9')
}

/// The first position at or after `i` that is neither whitespace nor
/// inside a `//` comment (`comment` says whether `i` is).
pub open spec fn trivia_end(s: Seq<char>, i: int, comment: bool) -> int
    decreases s.len() - i, (if comment { 1int } else { 0int }),
{
    if i < 0 || i >= s.len() {
        i
    } else if comment {
        if s[i] == '\n' { trivia_end(s, i, false) } else { trivia_end(s, i + 1, true) }
    } else if is_space(s[i]) {
        trivia_end(s, i + 1, false)
    } else if i + 1 < s.len() && s[i] == '/' && s[i + 1] == '/' {
        trivia_end(s, i + 2, true)
    } else {
        i
    }
}

/// The end of the word whose remaining characters start at `i`.
pub open spec fn word_end(s: Seq<char>, i: int) -> int
    decreases s.len() - i,
{
    if 0 <= i < s.len() && is_word_char(s[i]) { word_end(s, i + 1) } else { i }
}

/// The first position at or after `i` holding `c`.
pub open spec fn find_char(s: Seq<char>, c: char, i: int) -> Option<int>
    decreases s.len() - i,
{
    if i < 0 || i >= s.len() {
        None
    } else if s[i] == c {
        Some(i)
    } else {
        find_char(s, c, i + 1)
    }
}

/// The token that starts at `j`, as its kind and end.
pub open spec fn token_at(s: Seq<char>, j: int) -> Option<(TokKind, int)> {
    if j < 0 || j >= s.len() {
        None
    } else {
        let c = s[j];
        if c == '{' {
            Some((TokKind::Open, j + 1))
        } else if c == '}' {
            Some((TokKind::Close, j + 1))
        } else if c == ':' && j + 1 < s.len() && s[j + 1] == ':' {
            Some((TokKind::Path, j + 2))
        } else if c == '"' {
            match find_char(s, '"', j + 1) {
                Some(q) => Some((TokKind::Text, q + 1)),
                None => None,
            }
        } else if c == '\'' {
            match find_char(s, '\'', j + 1) {
                Some(q) => Some((TokKind::Raw, q + 1)),
                None => None,
            }
        } else if is_word_start(c) {
            Some((TokKind::Word, word_end(s, j + 1)))
        } else {
            None
        }
    }
}

pub proof fn lemma_trivia_end(s: Seq<char>, i: int, comment: bool)
    requires
        0 <= i,
    ensures
        i <= trivia_end(s, i, comment),
        trivia_end(s, i, comment) <= s.len() || trivia_end(s, i, comment) == i,
    decreases s.len() - i, (if comment { 1int } else { 0int }),
{
    if i < s.len() {
        if comment {
            if s[i] == '\n' { lemma_trivia_end(s, i, false); } else { lemma_trivia_end(s, i + 1, true); }
        } else if is_space(s[i]) {
            lemma_trivia_end(s, i + 1, false);
        } else if i + 1 < s.len() && s[i] == '/' && s[i + 1] == '/' {
            lemma_trivia_end(s, i + 2, true);
        }
    }
}

pub proof fn lemma_word_end(s: Seq<char>, i: int)
    requires
        0 <= i <= s.len(),
    ensures
        i <= word_end(s, i) <= s.len(),
    decreases s.len() - i,
{
    if i < s.len() && is_word_char(s[i]) {
        lemma_word_end(s, i + 1);
    }
}

pub proof fn lemma_find_char(s: Seq<char>, c: char, i: int)
    requires
        0 <= i,
    ensures
        find_char(s, c, i) matches Some(q) ==> i <= q < s.len() && s[q] == c,
    decreases s.len() - i,
{
    if i < s.len() && s[i] != c {
        lemma_find_char(s, c, i + 1);
    }
}

pub proof fn lemma_token_at(s: Seq<char>, j: int)
    requires
        0 <= j < s.len(),
    ensures
        token_at(s, j) matches Some((k, e)) ==> j < e <= s.len(),
{
    lemma_find_char(s, '"', j + 1);
    lemma_find_char(s, '\'', j + 1);
    lemma_word_end(s, j + 1);
}

/// The tokens from position `i` on, or the position of the first
/// character that starts no token.
pub open spec fn lex_from(s: Seq<char>, i: int) -> Result<Seq<Tok>, int>
    decreases s.len() - i,
{
    if i < 0 {
        Ok(Seq::empty())
    } else {
        let j = trivia_end(s, i, false);
        if j >= s.len() {
            Ok(Seq::empty())
        } else {
            proof {
                lemma_trivia_end(s, i, false);
            }
            match token_at(s, j) {
                Some((k, e)) => {
                    proof {
                        lemma_token_at(s, j);
                    }
                    match lex_from(s, e) {
                        Ok(rest) => Ok(seq![Tok { kind: k, start: j, end: e }] + rest),
                        Err(p) => Err(p),
                    }
                },
                None => Err(j),
            }
        }
    }
}

/// The tokens of a whole script.
pub open spec fn lex(s: Seq<char>) -> Result<Seq<Tok>, int> {
    lex_from(s, 0)
}

fn char_is_space(c: char) -> (r: bool)
    ensures
        r == is_space(c),
{
    c == ' ' || c == '\t' || c == '\n' || c == '\r' || c == '\x0c'
}

fn char_is_word_start(c: char) -> (r: bool)
    ensures
        r == is_word_start(c),
{
    ('a' <= c && c <= 'z') || ('A' <= c && c <= 'Z') || c == '_'
}

fn char_is_word_char(c: char) -> (r: bool)
    ensures
        r == is_word_char(c),
{
    char_is_word_start(c) || ('0' <= c && c <= '9')
}

/// Exec form of [`trivia_end`] from outside a comment.
fn skip_trivia(s: &Vec<char>, i: usize) -> (r: usize)
    requires
        i <= s@.len(),
    ensures
        r as int == trivia_end(s@, i as int, false),
        i <= r <= s@.len(),
{
    let n = s.len();
    let mut j = i;
    let mut comment = false;
    while j < n
        invariant
            n == s@.len(),
            i <= j <= n,
            trivia_end(s@, i as int, false) == trivia_end(s@, j as int, comment),
        decreases n - j, (if comment { 1int } else { 0int }),
    {
        if comment {
            if s[j] == '\n' {
                comment = false;
            } else {
                j = j + 1;
            }
        } else if char_is_space(s[j]) {
            j = j + 1;
        } else if j + 1 < n && s[j] == '/' && s[j + 1] == '/' {
            j = j + 2;
            comment = true;
        } else {
            return j;
        }
    }
    j
}

fn find_char_from(s: &Vec<char>, c: char, i: usize) -> (r: Option<usize>)
    requires
        i <= s@.len(),
    ensures
        match find_char(s@, c, i as int) {
            Some(q) => r == Some(q as usize),
            None => r is None,
        },
{
    let n = s.len();
    let mut j = i;
    while j < n
        invariant
            n == s@.len(),
            i <= j <= n,
            find_char(s@, c, i as int) == find_char(s@, c, j as int),
        decreases n - j,
    {
        if s[j] == c {
            return Some(j);
        }
        j = j + 1;
    }
    None
}

fn scan_word(s: &Vec<char>, i: usize) -> (r: usize)
    requires
        i <= s@.len(),
    ensures
        r as int == word_end(s@, i as int),
{
    let n = s.len();
    let mut j = i;
    while j < n && char_is_word_char(s[j])
        invariant
            n == s@.len(),
            i <= j <= n,
            word_end(s@, i as int) == word_end(s@, j as int),
        decreases n - j,
    {
        j = j + 1;
    }
    j
}

/// Exec form of [`token_at`].
fn next_token(s: &Vec<char>, j: usize) -> (r: Option<(TokKind, usize)>)
    requires
        j < s@.len(),
    ensures
        match token_at(s@, j as int) {
            Some((k, e)) => r == Some((k, e as usize)),
            None => r is None,
        },
{
    let n = s.len();
    let c = s[j];
    proof {
        lemma_token_at(s@, j as int);
    }
    if c == '{' {
        Some((TokKind::Open, j + 1))
    } else if c == '}' {
        Some((TokKind::Close, j + 1))
    } else if c == ':' && j + 1 < n && s[j + 1] == ':' {
        Some((TokKind::Path, j + 2))
    } else if c == '"' {
        match find_char_from(s, '"', j + 1) {
            Some(q) => Some((TokKind::Text, q + 1)),
            None => None,
        }
    } else if c == '\'' {
        match find_char_from(s, '\'', j + 1) {
            Some(q) => Some((TokKind::Raw, q + 1)),
            None => None,
        }
    } else if char_is_word_start(c) {
        Some((TokKind::Word, scan_word(s, j + 1)))
    } else {
        None
    }
}

/// Split a script into tokens, or give the position of the first
/// character that starts none.
pub fn tokenize(s: &Vec<char>) -> (r: Result<Vec<Token>, usize>)
    ensures
        match lex(s@) {
            Ok(ts) => r matches Ok(v) && tok_views(v@) == ts,
            Err(p) => r matches Err(q) && q as int == p,
        },
{
    let n = s.len();
    let mut out: Vec<Token> = Vec::new();
    let mut i: usize = 0;
    while i < n
        invariant
            n == s@.len(),
            i <= n,
            lex(s@) == (match lex_from(s@, i as int) {
                Ok(rest) => Ok(tok_views(out@) + rest),
                Err(p) => Err(p),
            }),
        decreases n - i,
    {
        let j = skip_trivia(s, i);
        if j >= n {
            assert(lex_from(s@, i as int) == Ok::<Seq<Tok>, int>(Seq::empty()));
            assert(tok_views(out@) + Seq::<Tok>::empty() =~= tok_views(out@));
            return Ok(out);
        }
        match next_token(s, j) {
            Some((k, e)) => {
                proof {
                    lemma_token_at(s@, j as int);
                }
                let ghost prev = tok_views(out@);
                out.push(Token { kind: k, start: j, end: e });
                assert(tok_views(out@) =~= prev.push(Tok { kind: k, start: j as int, end: e as int }));
                proof {
                    let t = Tok { kind: k, start: j as int, end: e as int };
                    match lex_from(s@, e as int) {
                        Ok(rest) => {
                            assert(prev + (seq![t] + rest) =~= prev.push(t) + rest);
                        },
                        Err(p) => {},
                    }
                }
                i = e;
            },
            None => {
                return Err(j);
            },
        }
    }
    assert(lex_from(s@, i as int) == Ok::<Seq<Tok>, int>(Seq::empty()));
    assert(tok_views(out@) + Seq::<Tok>::empty() =~= tok_views(out@));
    Ok(out)
}

} // verus!

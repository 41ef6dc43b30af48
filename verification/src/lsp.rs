//! What the language server for `.codemod` scripts answers, apart from
//! the protocol itself: diagnostics for a script, and completions for
//! the text before the cursor.
//!
//! Completion items come from the backend registry, so completion stays
//! in lockstep with `colab list-rules`.

use vstd::prelude::*;
use crate::text::{
    utf8, copy_str, push_str, str_views, trim_start, trim_start_str, find_byte_from, find_byte,
};
use crate::backend::{BackendRegistry, LanguageBackend, first_with_lang};
use crate::backends::Backend;
use crate::error::{Error, Result, exit_code_of, error_text};
use crate::dsl::compiler::{compile, compiled};
use crate::dsl::parser::{parse_script, failure_reported};
use crate::dsl::ast::Command;
use crate::dsl::model::Refactoring;
use crate::suggest::chars_of;

verus! {

/// The kind of a completion item.
#[derive(Clone, Copy, Debug, PartialEq, Eq, Structural)]
pub enum CompletionKind {
    Keyword,
    Module,
}

/// One completion item, as the server sends it.
#[derive(Debug)]
pub struct Completion {
    pub label: String,
    pub kind: CompletionKind,
    /// The text inserted, when it differs from the label.
    pub insert_text: Option<String>,
    /// Whether `insert_text` is a snippet (with `$1`, `$0` stops).
    pub snippet: bool,
    pub detail: Option<String>,
}

/// The script is a `.codemod` file.
pub open spec fn is_codemod(path: Seq<char>) -> bool {
    path.len() >= 8 && path.subrange(path.len() - 8, path.len() as int) == ".codemod"@
}

/// Whether the path (of a document URI) names a `.codemod` script.
pub fn is_codemod_path(path: &str) -> (r: bool)
    ensures
        r == is_codemod(path@),
{
    proof { reveal_strlit(".codemod"); }
    let n = path.unicode_len();
    if n < 8 {
        return false;
    }
    let tail = path.substring_char(n - 8, n);
    crate::text::str_eq(tail, ".codemod")
}

/// Where line `line` of `text` starts, or `None` when there are fewer
/// lines.
pub open spec fn nth_line_start(text: Seq<u8>, line: nat) -> Option<int>
    decreases line,
{
    if line == 0 {
        Some(0)
    } else {
        match nth_line_start(text, (line - 1) as nat) {
            Some(s) => match find_byte_from(text, 10u8, s) {
                Some(p) => Some(p + 1),
                None => None,
            },
            None => None,
        }
    }
}

/// The bytes of line `line` before column `character` (clamped to the
/// line's length); empty when the text has no such line.
pub open spec fn prefix_bytes(text: Seq<u8>, line: nat, character: nat) -> Seq<u8> {
    match nth_line_start(text, line) {
        Some(s) => {
            let e = match find_byte_from(text, 10u8, s) {
                Some(p) => p,
                None => text.len() as int,
            };
            let cut = if character < e - s { character as int } else { e - s };
            text.subrange(s, s + cut)
        },
        None => Seq::empty(),
    }
}

proof fn lemma_line_start_bounds(text: Seq<u8>, line: nat)
    ensures
        nth_line_start(text, line) matches Some(s) ==> 0 <= s <= text.len(),
    decreases line,
{
    if line > 0 {
        lemma_line_start_bounds(text, (line - 1) as nat);
        if let Some(s) = nth_line_start(text, (line - 1) as nat) {
            crate::text::lemma_find_byte_bounds(text, 10u8, s);
        }
    }
}

/// The text of line `line` before column `character`, which drives
/// context-aware completion; `None` when the column falls inside a
/// multi-byte character.
pub fn line_prefix(text: &str, line: u32, character: u32) -> (r: Option<String>)
    ensures
        r is Some <==> vstd::utf8::valid_utf8(prefix_bytes(utf8(text@), line as nat, character as nat)),
        r matches Some(s) ==> utf8(s@) == prefix_bytes(utf8(text@), line as nat, character as nat),
{
    let src = text.as_bytes();
    let ghost t = src@;
    assert(t == utf8(text@));
    let n = src.len();
    let mut start: usize = 0;
    let mut k: u32 = 0;
    while k < line
        invariant
            t == src@,
            t == utf8(text@),
            n == t.len(),
            k <= line,
            nth_line_start(t, k as nat) == Some(start as int),
            start <= t.len(),
        decreases line - k,
    {
        proof {
            crate::text::lemma_find_byte_bounds(t, 10u8, start as int);
        }
        match find_byte(src, 10u8, start) {
            Some(p) => {
                assert(p < n);
                start = p + 1;
            },
            None => {
                proof {
                    lemma_none_after(t, k as nat, line as nat);
                }
                let out = String::new();
                assert(prefix_bytes(t, line as nat, character as nat) =~= Seq::<u8>::empty());
                proof {
                    vstd::utf8::encode_utf8_valid_utf8(out@);
                    assert(out@ =~= Seq::<char>::empty());
                    assert(utf8(out@) =~= Seq::<u8>::empty());
                }
                return Some(out);
            },
        }
        k = k + 1;
    }
    proof {
        crate::text::lemma_find_byte_bounds(t, 10u8, start as int);
    }
    let end = match find_byte(src, 10u8, start) {
        Some(p) => p,
        None => src.len(),
    };
    assert(start <= end <= src@.len());
    assert(k == line);
    let cut: usize = if (character as usize) < end - start { character as usize } else { end - start };
    let r = crate::text::decode_range(src, start, start + cut);
    proof {
        if vstd::utf8::valid_utf8(t.subrange(start as int, start + cut)) {
            vstd::utf8::decode_utf8_encode_utf8(t.subrange(start as int, start + cut));
        }
    }
    r
}

/// Line `n` is missing when an earlier line has no line break after it.
proof fn lemma_none_after(t: Seq<u8>, k: nat, n: nat)
    requires
        k < n,
        nth_line_start(t, k) matches Some(s) && find_byte_from(t, 10u8, s) is None,
    ensures
        nth_line_start(t, n) is None,
    decreases n - k,
{
    if k + 1 < n {
        lemma_none_after_step(t, (k + 1) as nat, n);
    }
}

proof fn lemma_none_after_step(t: Seq<u8>, k: nat, n: nat)
    requires
        k <= n,
        nth_line_start(t, k) is None,
    ensures
        nth_line_start(t, n) is None,
    decreases n - k,
{
    if k < n {
        lemma_none_after_step(t, (k + 1) as nat, n);
    }
}

/// `s` starts with `p`.
pub open spec fn starts_with(s: Seq<char>, p: Seq<char>) -> bool {
    s.len() >= p.len() && s.subrange(0, p.len() as int) == p
}

/// Where the cursor is, as far as completion cares.
pub enum Context {
    /// Inside a match block's braces: an action comes next.
    Action,
    /// After `match `, before the block: a namespace or module, whose
    /// text so far is the payload.
    Namespace(Seq<char>),
    /// Inside the `refactor` block.
    MatchBlock,
    /// At top level, on a prefix of `refactor`.
    Refactor,
    /// Nothing to suggest.
    Nothing,
}

/// The completion context of the text before the cursor.
pub open spec fn context_of(prefix: Seq<char>) -> Context {
    let t = trim_start(prefix);
    if starts_with(t, "match "@) && t.contains('{') {
        Context::Action
    } else if starts_with(t, "match "@) {
        Context::Namespace(trim_start(t.subrange(6, t.len() as int)))
    } else if t.contains('{') {
        Context::MatchBlock
    } else if t.len() > 0 && starts_with("refactor"@, t) {
        Context::Refactor
    } else {
        Context::Nothing
    }
}

/// The first `::` in `f`, by the index of its first colon.
pub open spec fn first_colons(f: Seq<char>, i: int) -> Option<int>
    decreases f.len() - i,
{
    if i < 0 || i + 1 >= f.len() {
        None
    } else if f[i] == ':' && f[i + 1] == ':' {
        Some(i)
    } else {
        first_colons(f, i + 1)
    }
}

/// What a completion item carries, as plain values.
pub struct CompletionView {
    pub label: Seq<char>,
    pub kind: CompletionKind,
    pub insert_text: Option<Seq<char>>,
    pub snippet: bool,
    pub detail: Option<Seq<char>>,
}

/// The text of an optional string.
pub open spec fn text_of(o: Option<String>) -> Option<Seq<char>> {
    match o {
        Some(s) => Some(s@),
        None => None,
    }
}

/// A completion item as plain values.
pub open spec fn item_view(c: Completion) -> CompletionView {
    CompletionView {
        label: c.label@,
        kind: c.kind,
        insert_text: text_of(c.insert_text),
        snippet: c.snippet,
        detail: text_of(c.detail),
    }
}

/// The items of a completion list as plain values, in order.
pub open spec fn items(cs: Seq<Completion>) -> Seq<CompletionView> {
    cs.map_values(|c: Completion| item_view(c))
}

/// A keyword item: inserted as a snippet, with a short detail.
pub open spec fn keyword_item(label: Seq<char>, insert: Seq<char>, detail: Seq<char>) -> CompletionView {
    CompletionView {
        label,
        kind: CompletionKind::Keyword,
        insert_text: Some(insert),
        snippet: true,
        detail: Some(detail),
    }
}

/// The four actions of a match block.
pub open spec fn action_items() -> Seq<CompletionView> {
    seq![
        keyword_item("replace"@, "replace \"$0\""@, "DSL action"@),
        keyword_item("delete"@, "delete"@, "DSL action"@),
        keyword_item("ensure"@, "ensure"@, "DSL action"@),
        keyword_item("replace_call"@, "replace_call \"$0\""@, "DSL action"@),
    ]
}

/// A language namespace, inserted with its `::`.
pub open spec fn namespace_item(lang: Seq<char>) -> CompletionView {
    CompletionView {
        label: lang,
        kind: CompletionKind::Module,
        insert_text: Some(lang + "::"@),
        snippet: false,
        detail: Some("colab backend namespace"@),
    }
}

/// The modules of a backend, each with its description.
pub open spec fn module_items(offered: Seq<(Seq<char>, Seq<Seq<char>>)>, described: Seq<Seq<char>>) -> Seq<CompletionView> {
    Seq::new(offered.len(), |j: int| CompletionView {
        label: offered[j].0,
        kind: CompletionKind::Module,
        insert_text: None,
        snippet: false,
        detail: Some(described[j]),
    })
}

/// The items offered in a context: the actions, the `match` or
/// `refactor` keyword, the languages, or the modules of the language
/// before `::` (none for an unknown language).
pub open spec fn completion_items(bs: Seq<Backend>, prefix: Seq<char>) -> Seq<CompletionView> {
    match context_of(prefix) {
        Context::Action => action_items(),
        Context::Namespace(f) => match first_colons(f, 0) {
            Some(i) => match first_with_lang(bs, f.subrange(0, i)) {
                Some(k) => module_items(bs[k].offered(), bs[k].described()),
                None => Seq::empty(),
            },
            None => bs.map_values(|b: Backend| namespace_item(b.lang_spec())),
        },
        Context::MatchBlock => seq![keyword_item("match"@, "match $1::$2 \"$3\" { $0 }"@, "Match block"@)],
        Context::Refactor => seq![keyword_item("refactor"@, "refactor \"$1\" {\n    $0\n}"@, "Top-level codemod block"@)],
        Context::Nothing => Seq::empty(),
    }
}

fn keyword(label: &str, insert: &str, detail: &str) -> (r: Completion)
    ensures
        item_view(r) == keyword_item(label@, insert@, detail@),
{
    Completion {
        label: copy_str(label),
        kind: CompletionKind::Keyword,
        insert_text: Some(copy_str(insert)),
        snippet: true,
        detail: Some(copy_str(detail)),
    }
}

fn action_completions() -> (r: Vec<Completion>)
    ensures
        items(r@) == action_items(),
{
    let mut out: Vec<Completion> = Vec::new();
    out.push(keyword("replace", "replace \"$0\"", "DSL action"));
    out.push(keyword("delete", "delete", "DSL action"));
    out.push(keyword("ensure", "ensure", "DSL action"));
    out.push(keyword("replace_call", "replace_call \"$0\"", "DSL action"));
    assert(items(out@) =~= action_items());
    out
}

/// Exec form of [`first_colons`].
fn find_colons(f: &Vec<char>) -> (r: Option<usize>)
    ensures
        match first_colons(f@, 0) {
            Some(i) => r matches Some(x) && x as int == i,
            None => r is None,
        },
        r matches Some(i) ==> i + 1 < f@.len(),
{
    let mut i: usize = 0;
    while i < f.len() && i + 1 < f.len()
        invariant
            i <= f@.len(),
            first_colons(f@, 0) == first_colons(f@, i as int),
        decreases f@.len() - i,
    {
        if f[i] == ':' && f[i + 1] == ':' {
            return Some(i);
        }
        i = i + 1;
    }
    None
}

/// The namespaces, or the modules of one, for the text after `match `.
fn namespace_or_module_completions(registry: &BackendRegistry, fragment: &str) -> (r: Vec<Completion>)
    ensures
        items(r@) == (match first_colons(fragment@, 0) {
            Some(i) => match first_with_lang(registry.entries(), fragment@.subrange(0, i)) {
                Some(k) => module_items(registry.entries()[k].offered(), registry.entries()[k].described()),
                None => Seq::empty(),
            },
            None => registry.entries().map_values(|b: Backend| namespace_item(b.lang_spec())),
        }),
{
    let cs = chars_of(fragment);
    let mut out: Vec<Completion> = Vec::new();
    match find_colons(&cs) {
        Some(i) => {
            let lang = fragment.substring_char(0, i);
            match registry.get(lang) {
                Some(backend) => {
                    let caps = backend.capabilities();
                    let ghost want = module_items(backend.offered(), backend.described());
                    let mut j: usize = 0;
                    while j < caps.len()
                        invariant
                            crate::backend::capability_views(caps@) == backend.offered(),
                            crate::backend::descriptions_of(caps@) == backend.described(),
                            want == module_items(backend.offered(), backend.described()),
                            want.len() == caps@.len(),
                            j <= caps@.len(),
                            items(out@) == want.subrange(0, j as int),
                        decreases caps@.len() - j,
                    {
                        assert(crate::backend::capability_views(caps@)[j as int].0 == caps@[j as int].module@);
                        assert(crate::backend::descriptions_of(caps@)[j as int] == caps@[j as int].description@);
                        let ghost prev = out@;
                        out.push(Completion {
                            label: copy_str(caps[j].module),
                            kind: CompletionKind::Module,
                            insert_text: None,
                            snippet: false,
                            detail: Some(copy_str(caps[j].description)),
                        });
                        assert(items(out@) =~= items(prev).push(want[j as int]));
                        assert(want.subrange(0, j + 1) =~= want.subrange(0, j as int).push(want[j as int]));
                        j = j + 1;
                    }
                    assert(want.subrange(0, j as int) =~= want);
                },
                None => {
                    assert(items(out@) =~= Seq::<CompletionView>::empty());
                },
            }
        },
        None => {
            let langs = registry.languages();
            let ghost names = registry.langs();
            let ghost want = registry.entries().map_values(|b: Backend| namespace_item(b.lang_spec()));
            assert(langs@.map_values(|s: &str| s@).len() == langs@.len());
            let mut j: usize = 0;
            while j < langs.len()
                invariant
                    langs@.map_values(|s: &str| s@) == names,
                    names == registry.entries().map_values(|b: Backend| b.lang_spec()),
                    want == registry.entries().map_values(|b: Backend| namespace_item(b.lang_spec())),
                    want.len() == langs@.len(),
                    j <= langs@.len(),
                    items(out@) == want.subrange(0, j as int),
                decreases langs@.len() - j,
            {
                let mut insert = copy_str(langs[j]);
                push_str(&mut insert, "::");
                let ghost prev = out@;
                out.push(Completion {
                    label: copy_str(langs[j]),
                    kind: CompletionKind::Module,
                    insert_text: Some(insert),
                    snippet: false,
                    detail: Some(copy_str("colab backend namespace")),
                });
                assert(names[j as int] == langs@[j as int]@);
                assert(want[j as int] == namespace_item(registry.entries()[j as int].lang_spec()));
                assert(items(prev).len() == j);
                assert(items(out@) =~= items(prev).push(want[j as int]));
                assert(want.subrange(0, j + 1) =~= want.subrange(0, j as int).push(want[j as int]));
                j = j + 1;
            }
            assert(want.subrange(0, j as int) =~= want);
        },
    }
    out
}

/// Whether `s` starts with `p`, executable.
fn starts_with_str(s: &str, p: &str) -> (r: bool)
    ensures
        r == starts_with(s@, p@),
{
    let n = s.unicode_len();
    let m = p.unicode_len();
    if n < m {
        return false;
    }
    crate::text::str_eq(s.substring_char(0, m), p)
}

/// Whether `s` holds the character `c`.
fn has_char(s: &str, c: char) -> (r: bool)
    ensures
        r == s@.contains(c),
{
    let n = s.unicode_len();
    let mut i: usize = 0;
    while i < n
        invariant
            n == s@.len(),
            i <= n,
            forall|q: int| 0 <= q < i ==> s@[q] != c,
        decreases n - i,
    {
        if s.get_char(i) == c {
            return true;
        }
        i = i + 1;
    }
    false
}

/// The completion items for the text before the cursor.
pub fn completions_for(registry: &BackendRegistry, prefix: &str) -> (r: Vec<Completion>)
    ensures
        items(r@) == completion_items(registry.entries(), prefix@),
{
    proof {
        reveal_strlit("match ");
        reveal_strlit("refactor");
    }
    let trimmed = trim_start_str(prefix);
    let is_match = starts_with_str(trimmed, "match ");
    if is_match && has_char(trimmed, '{') {
        return action_completions();
    }
    if is_match {
        let n = trimmed.unicode_len();
        let after = trim_start_str(trimmed.substring_char(6, n));
        return namespace_or_module_completions(registry, after);
    }
    let mut out: Vec<Completion> = Vec::new();
    if has_char(trimmed, '{') {
        out.push(keyword("match", "match $1::$2 \"$3\" { $0 }", "Match block"));
        assert(items(out@) =~= seq![keyword_item("match"@, "match $1::$2 \"$3\" { $0 }"@, "Match block"@)]);
        return out;
    }
    if trimmed.unicode_len() > 0 && starts_with_str("refactor", trimmed) {
        out.push(keyword("refactor", "refactor \"$1\" {\n    $0\n}", "Top-level codemod block"));
        assert(items(out@) =~= seq![keyword_item("refactor"@, "refactor \"$1\" {\n    $0\n}"@, "Top-level codemod block"@)]);
        return out;
    }
    assert(items(out@) =~= Seq::<CompletionView>::empty());
    out
}

/// `r` is the diagnostic for the outcome `e` of compiling a script: its
/// exit code and message.
pub open spec fn diagnosed(e: Error, r: Option<(i32, String)>) -> bool {
    r matches Some((code, m)) && code == exit_code_of(e) && m@ == error_text(e)
}

/// The diagnostic for a script: `None` when it compiles, else the
/// error's exit code and message, exactly as `compile` reports it.
pub fn diagnose(registry: &BackendRegistry, text: &str) -> (r: Option<(i32, String)>)
    requires
        utf8(text@).len() < usize::MAX,
    ensures
        match parse_script(text@) {
            Ok(cv) => exists|cmd: Command, res: Result<Refactoring>|
                cmd@ == cv && compiled(cmd, registry.entries(), res) && match res {
                    Ok(_) => r is None,
                    Err(e) => diagnosed(e, r),
                },
            Err(f) => exists|e: Error| failure_reported(text@, f, e) && diagnosed(e, r),
        },
{
    let res = compile(text, registry);
    let r = match &res {
        Ok(_) => None,
        Err(e) => Some((e.exit_code(), e.to_string())),
    };
    proof {
        match parse_script(text@) {
            Ok(cv) => {
                let cmd = choose|cmd: Command| cmd@ == cv && compiled(cmd, registry.entries(), res);
                assert(cmd@ == cv && compiled(cmd, registry.entries(), res));
            },
            Err(f) => {
                let e = res->Err_0;
                assert(failure_reported(text@, f, e));
            },
        }
    }
    r
}

} // verus!

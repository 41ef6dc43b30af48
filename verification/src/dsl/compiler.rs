//! Lowering a parsed script into rules.
//!
//! Each match block is handed, as a backend-neutral [`RuleSpec`], to the
//! backend registered for its language; an `in "<glob>"` clause wraps
//! the rule so it applies only where the glob matches. The first block a
//! backend rejects fails the whole script.

use vstd::prelude::*;
use crate::text::{utf8, copy_str, push_str};
use crate::error::{Error, Result};
use crate::backend::{BackendRegistry, LanguageBackend, RuleSpec, first_with_lang};
use crate::backends::Backend;
use crate::rules::Rule;
use crate::scoped::{scope_problem, invalid_scope_text, ScopedOperation};
use crate::dsl::ast::{Action, Command, Item, Match, CommandView};
use crate::dsl::parser::{parse, parse_script, failure_reported};
use crate::dsl::model::Refactoring;

verus! {

/// Why a script does not compile, by error variant and message.
pub enum CompileError {
    Unsupported(Seq<char>),
    Config(Seq<char>),
}

/// `e` is the error `ce` describes.
pub open spec fn reported_as(e: Error, ce: CompileError) -> bool {
    match ce {
        CompileError::Unsupported(m) => e matches Error::UnsupportedOperation(x) && x@ == m,
        CompileError::Config(m) => e matches Error::Config(x) && x@ == m,
    }
}

/// The backend-neutral request a match block makes.
pub open spec fn spec_of(m: Match) -> RuleSpec {
    match m.action {
        Action::Replace(r) => RuleSpec::Replace { target: m.match_string, replacement: r },
        Action::Delete => RuleSpec::Delete { target: m.match_string },
        Action::Ensure => RuleSpec::Ensure { target: m.match_string },
        Action::ReplaceCall(t) => RuleSpec::ReplaceCall { target: m.match_string, template: t },
        Action::SetValue(v) => RuleSpec::SetValue { target: m.match_string, value: v },
        Action::Insert(v) => RuleSpec::Insert { target: m.match_string, value: v },
    }
}

/// The message for a match block whose language no backend owns.
pub open spec fn unknown_namespace_text(lang: Seq<char>, module: Seq<char>) -> Seq<char> {
    lang + "::"@ + module + " is not a supported namespace"@
}

/// The message for an `include` that `compile` cannot resolve.
pub open spec fn unresolved_include_text(path: Seq<char>) -> Seq<char> {
    "cannot resolve `include \""@ + path
        + "\"`: no base path. Use `compile_at_path` instead of `compile` to enable includes."@
}

/// The rule a match block lowers to with the backends `bs`.
pub open spec fn lowered(m: Match, bs: Seq<Backend>) -> core::result::Result<Rule, CompileError> {
    let lang = m.namespace.lang@;
    let module = m.namespace.module@;
    match first_with_lang(bs, lang) {
        None => Err(CompileError::Unsupported(
            unknown_namespace_text(lang, module),
        )),
        Some(k) => match bs[k].rule_for(module, spec_of(m)) {
            None => Err(CompileError::Unsupported(
                crate::backend::unsupported_text(bs[k].lang_spec(), module, spec_of(m), bs[k].offered()),
            )),
            Some(Err(problem)) => Err(CompileError::Config(problem)),
            Some(Ok(rule)) => match m.scope {
                None => Ok(rule),
                Some(g) => match scope_problem(g@) {
                    None => Ok(Rule::Scoped(ScopedOperation { inner: Box::new(rule), pattern: g })),
                    Some(p) => Err(CompileError::Config(invalid_scope_text(g@, p))),
                },
            },
        },
    }
}

/// The first `include` among `items`, from position `i` on.
pub open spec fn first_include(items: Seq<Item>, i: int) -> Option<Seq<char>>
    decreases items.len() - i,
{
    if i < 0 || i >= items.len() {
        None
    } else {
        match items[i] {
            Item::Include(p) => Some(p@),
            Item::Match(_) => first_include(items, i + 1),
        }
    }
}

/// The first match block among `items`, from position `i` on, that does
/// not lower.
pub open spec fn first_failure(items: Seq<Item>, bs: Seq<Backend>, i: int) -> Option<CompileError>
    decreases items.len() - i,
{
    if i < 0 || i >= items.len() {
        None
    } else {
        match items[i] {
            Item::Match(m) => match lowered(m, bs) {
                Err(e) => Some(e),
                Ok(_) => first_failure(items, bs, i + 1),
            },
            Item::Include(_) => first_failure(items, bs, i + 1),
        }
    }
}

/// `r` is what compiling `cmd` with the backends `bs` gives: an error
/// for the first `include` (nothing to resolve it against), else for the
/// first block that does not lower, else one rule per block, in order.
pub open spec fn compiled(cmd: Command, bs: Seq<Backend>, r: Result<Refactoring>) -> bool {
    match first_include(cmd.items@, 0) {
        Some(p) => r matches Err(e) && reported_as(e, CompileError::Config(unresolved_include_text(p))),
        None => match first_failure(cmd.items@, bs, 0) {
            Some(ce) => r matches Err(e) && reported_as(e, ce),
            None => r matches Ok(refac) && {
                &&& refac.name == cmd.refactor_name
                &&& refac.rules@.len() == cmd.items@.len()
                &&& forall|k: int| 0 <= k < cmd.items@.len() ==>
                    (#[trigger] cmd.items@[k] matches Item::Match(m) && lowered(m, bs) == Ok::<Rule, CompileError>(refac.rules@[k]))
            },
        },
    }
}

/// Exec form of [`spec_of`].
fn request(m: Match) -> (r: (String, String, RuleSpec, Option<String>))
    ensures
        r.0@ == m.namespace.lang@,
        r.1@ == m.namespace.module@,
        r.2 == spec_of(m),
        r.3 == m.scope,
{
    let Match { namespace, match_string, scope, action } = m;
    let spec = match action {
        Action::Replace(r) => RuleSpec::Replace { target: match_string, replacement: r },
        Action::Delete => RuleSpec::Delete { target: match_string },
        Action::Ensure => RuleSpec::Ensure { target: match_string },
        Action::ReplaceCall(t) => RuleSpec::ReplaceCall { target: match_string, template: t },
        Action::SetValue(v) => RuleSpec::SetValue { target: match_string, value: v },
        Action::Insert(v) => RuleSpec::Insert { target: match_string, value: v },
    };
    (namespace.lang, namespace.module, spec, scope)
}

/// Lower one match block with the registered backends.
pub fn lower_match(m: Match, backends: &BackendRegistry) -> (r: Result<Rule>)
    ensures
        match lowered(m, backends.entries()) {
            Ok(rule) => r matches Ok(x) && x == rule,
            Err(ce) => r matches Err(e) && reported_as(e, ce),
        },
{
    let ghost mv = m;
    let (lang, module, spec, scope) = request(m);
    let backend = match backends.get(lang.as_str()) {
        Some(b) => b,
        None => {
            let mut msg = copy_str(lang.as_str());
            push_str(&mut msg, "::");
            push_str(&mut msg, module.as_str());
            push_str(&mut msg, " is not a supported namespace");
            return Err(Error::UnsupportedOperation(msg));
        },
    };
    let rule = match backend.build_rule(module.as_str(), spec) {
        Ok(rule) => rule,
        Err(e) => return Err(e),
    };
    match scope {
        None => Ok(rule),
        Some(g) => {
            match ScopedOperation::new(rule, g.as_str()) {
                Ok(s) => Ok(Rule::Scoped(ScopedOperation { inner: s.inner, pattern: g })),
                Err(e) => Err(e),
            }
        },
    }
}

/// Lower a parsed script into rules.
pub fn compile_command(cmd: Command, backends: &BackendRegistry) -> (r: Result<Refactoring>)
    ensures
        compiled(cmd, backends.entries(), r),
{
    let ghost c = cmd;
    let Command { refactor_name, items } = cmd;
    let ghost iv = items@;
    let mut i: usize = 0;
    while i < items.len()
        invariant
            iv == items@,
            c == cmd,
            c.items@ == iv,
            i <= iv.len(),
            first_include(iv, 0) == first_include(iv, i as int),
        decreases iv.len() - i,
    {
        match &items[i] {
            Item::Include(p) => {
                assert(first_include(iv, i as int) == Some(p@));
                let mut msg = copy_str("cannot resolve `include \"");
                push_str(&mut msg, p.as_str());
                push_str(&mut msg, "\"`: no base path. Use `compile_at_path` instead of `compile` to enable includes.");
                return Err(Error::Config(msg));
            },
            Item::Match(_) => {},
        }
        i = i + 1;
    }
    let mut rules: Vec<Rule> = Vec::new();
    let mut rest = items;
    let ghost bs = backends.entries();
    while rest.len() > 0
        invariant
            iv == c.items@,
            c == cmd,
            bs == backends.entries(),
            first_include(iv, 0) is None,
            rules@.len() + rest@.len() == iv.len(),
            rest@ == iv.subrange(rules@.len() as int, iv.len() as int),
            first_failure(iv, bs, 0) == first_failure(iv, bs, rules@.len() as int),
            forall|j: int| 0 <= j < rules@.len() ==>
                (#[trigger] iv[j] matches Item::Match(m) && lowered(m, bs) == Ok::<Rule, CompileError>(rules@[j])),
        decreases rest@.len(),
    {
        let ghost k = rules@.len() as int;
        let it = rest.remove(0);
        assert(it == iv[k]);
        assert(rest@ =~= iv.subrange(k + 1, iv.len() as int));
        match it {
            Item::Match(m) => {
                match lower_match(m, backends) {
                    Ok(rule) => {
                        rules.push(rule);
                    },
                    Err(e) => {
                        return Err(e);
                    },
                }
            },
            Item::Include(_) => {
                proof {
                    lemma_no_include_at(iv, 0, k);
                }
                return Err(Error::Config(String::new()));
            },
        }
    }
    Ok(Refactoring { name: refactor_name, rules })
}

proof fn lemma_no_include_at(items: Seq<Item>, i: int, k: int)
    requires
        0 <= i <= k < items.len(),
        first_include(items, i) is None,
    ensures
        items[k] is Match,
    decreases k - i,
{
    if i < k {
        lemma_no_include_at(items, i + 1, k);
    }
}

/// Parse and lower a script. `include` directives cannot be resolved
/// here, with no file to resolve them against, and fail with a
/// [`Error::Config`].
pub fn compile(text: &str, backends: &BackendRegistry) -> (r: Result<Refactoring>)
    requires
        utf8(text@).len() < usize::MAX,
    ensures
        match parse_script(text@) {
            Ok(cv) => exists|cmd: Command| cmd@ == cv && compiled(cmd, backends.entries(), r),
            Err(f) => r matches Err(e) && failure_reported(text@, f, e),
        },
{
    match parse(text) {
        Ok(cmd) => {
            let ghost c = cmd;
            let r = compile_command(cmd, backends);
            assert(c@ == parse_script(text@)->Ok_0 && compiled(c, backends.entries(), r));
            r
        },
        Err(e) => Err(e),
    }
}

/// The message for an included script that is already being compiled.
pub open spec fn circular_text(shown: Seq<char>) -> Seq<char> {
    "circular \u{69}nclude: "@ + shown + " re-\u{69}ncludes itself"@
}

/// Record that the script at `canonical` (displayed as `shown`) is being
/// expanded; a script already on the list is a circular inclusion. The
/// list is a set: a name is added only when absent.
pub fn enter_script(seen: &mut Vec<String>, canonical: &str, shown: &str) -> (r: Result<()>)
    ensures
        crate::text::string_views(old(seen)@).contains(canonical@) ==> {
            &&& r matches Err(Error::Config(m)) && m@ == circular_text(shown@)
            &&& final(seen)@ == old(seen)@
        },
        !crate::text::string_views(old(seen)@).contains(canonical@) ==> {
            &&& r is Ok
            &&& crate::text::string_views(final(seen)@) == crate::text::string_views(old(seen)@).push(canonical@)
        },
        crate::text::string_views(old(seen)@).no_duplicates() ==> crate::text::string_views(final(seen)@).no_duplicates(),
{
    let ghost sv = crate::text::string_views(seen@);
    let mut i: usize = 0;
    while i < seen.len()
        invariant
            sv == crate::text::string_views(seen@),
            i <= seen@.len(),
            forall|q: int| 0 <= q < i ==> sv[q] != canonical@,
        decreases seen@.len() - i,
    {
        if crate::text::str_eq(seen[i].as_str(), canonical) {
            assert(sv[i as int] == canonical@);
            let mut m = copy_str("circular \u{69}nclude: ");
            push_str(&mut m, shown);
            push_str(&mut m, " re-\u{69}ncludes itself");
            return Err(Error::Config(m));
        }
        i = i + 1;
    }
    let ghost prev = seen@;
    seen.push(copy_str(canonical));
    assert(crate::text::string_views(seen@) =~= crate::text::string_views(prev).push(canonical@));
    proof {
        let nv = crate::text::string_views(seen@);
        if sv.no_duplicates() {
            assert forall|a: int, b: int| 0 <= a < nv.len() && 0 <= b < nv.len() && a != b implies nv[a] != nv[b] by {
                if a < sv.len() && b < sv.len() {
                    assert(nv[a] == sv[a] && nv[b] == sv[b]);
                }
            }
        }
    }
    Ok(())
}

/// `s` without its trailing `/` characters.
pub open spec fn trim_slashes_end(s: Seq<char>) -> Seq<char>
    decreases s.len(),
{
    if s.len() > 0 && s.last() == '/' { trim_slashes_end(s.drop_last()) } else { s }
}

/// The last `/` in `s[..i]`.
pub open spec fn last_slash(s: Seq<char>, i: int) -> Option<int>
    decreases i,
{
    if i <= 0 {
        None
    } else if s[i - 1] == '/' {
        Some(i - 1)
    } else {
        last_slash(s, i - 1)
    }
}

/// The directory of a script path, as `Path::parent` gives it: `None`
/// for the empty path and the root, empty for a bare file name, `/` for a
/// file at the root, else the text before the last name (trailing `/`
/// characters ignored).
pub open spec fn parent_dir(base: Seq<char>) -> Option<Seq<char>> {
    let t = trim_slashes_end(base);
    if t.len() == 0 {
        None
    } else {
        match last_slash(t, t.len() as int) {
            None => Some(Seq::empty()),
            Some(k) => {
                let d = trim_slashes_end(t.subrange(0, k));
                if d.len() == 0 { Some("/"@) } else { Some(d) }
            },
        }
    }
}

/// `dir` joined with a relative path, as `Path::join` writes it.
pub open spec fn join_path(dir: Seq<char>, rel: Seq<char>) -> Seq<char> {
    if dir.len() == 0 {
        rel
    } else if dir.last() == '/' {
        dir + rel
    } else {
        dir + "/"@ + rel
    }
}

/// Where `include "<relative>"` in the script at `base` points: an
/// absolute path as written, else the path beside the script (in `.`
/// when the script's path has no directory); without a base, a relative
/// path cannot be resolved.
pub open spec fn resolved_include(relative: Seq<char>, base: Option<Seq<char>>) -> core::result::Result<Seq<char>, Seq<char>> {
    if relative.len() > 0 && relative[0] == '/' {
        Ok(relative)
    } else {
        match base {
            None => Err(unresolved_include_text(relative)),
            Some(b) => match parent_dir(b) {
                Some(d) => Ok(join_path(d, relative)),
                None => Ok(join_path("."@, relative)),
            },
        }
    }
}

/// Exec form of [`trim_slashes_end`] on `s[..n]`: the new end.
fn trim_end_at(s: &Vec<char>, n: usize) -> (r: usize)
    requires
        n <= s@.len(),
    ensures
        r <= n,
        s@.subrange(0, r as int) == trim_slashes_end(s@.subrange(0, n as int)),
{
    let mut e = n;
    while e > 0 && s[e - 1] == '/'
        invariant
            e <= n <= s@.len(),
            trim_slashes_end(s@.subrange(0, n as int)) == trim_slashes_end(s@.subrange(0, e as int)),
        decreases e,
    {
        assert(s@.subrange(0, e as int).drop_last() =~= s@.subrange(0, e - 1));
        e = e - 1;
    }
    assert(e == 0 ==> s@.subrange(0, e as int) =~= Seq::<char>::empty());
    e
}

/// A trimmed text does not end with `/`.
proof fn lemma_trimmed_end(s: Seq<char>)
    ensures
        trim_slashes_end(s).len() > 0 ==> trim_slashes_end(s).last() != '/',
    decreases s.len(),
{
    if s.len() > 0 && s.last() == '/' {
        lemma_trimmed_end(s.drop_last());
    }
}

/// Resolve the path of an `include` (see [`resolved_include`]); a
/// relative path with no base is a configuration error.
pub fn resolve_include_path(relative: &str, base: Option<&str>) -> (r: Result<String>)
    ensures
        match resolved_include(relative@, match base { Some(b) => Some(b@), None => None }) {
            Ok(p) => r matches Ok(x) && x@ == p,
            Err(m) => r matches Err(Error::Config(x)) && x@ == m,
        },
{
    proof {
        reveal_strlit("/");
        reveal_strlit(".");
    }
    let rn = relative.unicode_len();
    if rn > 0 && relative.get_char(0) == '/' {
        return Ok(copy_str(relative));
    }
    let b = match base {
        None => {
            let mut m = copy_str("cannot resolve `\u{69}nclude \"");
            push_str(&mut m, relative);
            push_str(&mut m, "\"`: no base path. Use `compile_at_path` instead of `compile` to enable \u{69}ncludes.");
            return Err(Error::Config(m));
        },
        Some(b) => b,
    };
    let cs = crate::suggest::chars_of(b);
    let t = trim_end_at(&cs, cs.len());
    assert(cs@.subrange(0, cs@.len() as int) =~= b@);
    let ghost tt = cs@.subrange(0, t as int);
    if t == 0 {
        let mut out = copy_str("./");
        push_str(&mut out, relative);
        proof { reveal_strlit("./"); }
        assert(out@ =~= join_path("."@, relative@));
        return Ok(out);
    }
    let mut k = t;
    while k > 0 && cs[k - 1] != '/'
        invariant
            k <= t <= cs@.len(),
            tt == cs@.subrange(0, t as int),
            last_slash(tt, t as int) == last_slash(tt, k as int),
        decreases k,
    {
        assert(tt[k - 1] == cs@[k - 1]);
        k = k - 1;
    }
    if k == 0 {
        return Ok(copy_str(relative));
    }
    assert(tt[k - 1] == cs@[k - 1]);
    let d = trim_end_at(&cs, k - 1);
    assert(tt.subrange(0, k - 1) =~= cs@.subrange(0, k - 1));
    if d == 0 {
        let mut out = copy_str("/");
        push_str(&mut out, relative);
        return Ok(out);
    }
    proof { lemma_trimmed_end(cs@.subrange(0, k - 1)); }
    let mut out = b.substring_char(0, d).to_owned();
    assert(out@ == cs@.subrange(0, d as int));
    push_str(&mut out, "/");
    push_str(&mut out, relative);
    Ok(out)
}

/// `last_slash` finds the last `/` before `i`.
proof fn lemma_last_slash_is_last(s: Seq<char>, i: int, k: int)
    requires
        0 <= k < i <= s.len(),
        s[k] == '/',
        forall|j: int| k < j < i ==> s[j] != '/',
    ensures
        last_slash(s, i) == Some(k),
    decreases i,
{
    if i - 1 > k {
        lemma_last_slash_is_last(s, i - 1, k);
    }
}

/// `last_slash` finds nothing in a text without `/`.
proof fn lemma_last_slash_none(s: Seq<char>, i: int)
    requires
        0 <= i <= s.len(),
        forall|j: int| 0 <= j < i ==> s[j] != '/',
    ensures
        last_slash(s, i) is None,
    decreases i,
{
    if i > 0 {
        lemma_last_slash_none(s, i - 1);
    }
}

/// A relative include in a script at `base` names the file beside the
/// script: the text of `base` before its last `/`, then `/`, then the
/// relative path (a script path without `/` keeps the relative path as
/// it is), as `Path::parent` and `Path::join` give it.
pub proof fn law_include_resolves_beside_the_script(relative: Seq<char>, base: Seq<char>)
    requires
        relative.len() == 0 || relative[0] != '/',
        base.len() > 0,
        base.last() != '/',
    ensures
        forall|k: int| 0 < k < base.len() && base[k] == '/' && base[k - 1] != '/'
            && (forall|j: int| k < j < base.len() ==> base[j] != '/')
            ==> resolved_include(relative, Some(base)) == Ok::<Seq<char>, Seq<char>>(base.subrange(0, k) + "/"@ + relative),
        (forall|j: int| 0 <= j < base.len() ==> base[j] != '/')
            ==> resolved_include(relative, Some(base)) == Ok::<Seq<char>, Seq<char>>(relative),
{
    reveal_strlit("/");
    assert(trim_slashes_end(base) == base);
    assert forall|k: int| 0 < k < base.len() && base[k] == '/' && base[k - 1] != '/'
        && (forall|j: int| k < j < base.len() ==> base[j] != '/')
        implies resolved_include(relative, Some(base)) == Ok::<Seq<char>, Seq<char>>(base.subrange(0, k) + "/"@ + relative) by {
        lemma_last_slash_is_last(base, base.len() as int, k);
        let d = base.subrange(0, k);
        assert(d.last() == base[k - 1]);
        assert(trim_slashes_end(d) == d);
    }
    if forall|j: int| 0 <= j < base.len() ==> base[j] != '/' {
        lemma_last_slash_none(base, base.len() as int);
        assert(join_path(Seq::empty(), relative) == relative);
    }
}

} // verus!

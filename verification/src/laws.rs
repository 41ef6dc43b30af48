//! Properties that hold of the rules as a whole, across operations.
//!
//! The walker skips a rule's parse when the rule's literal does not occur
//! in a file; that is only sound because every rule leaves such a file
//! unchanged, which is proved here for every kind of rule.

use vstd::prelude::*;
use crate::text::{utf8, contains_bytes, occurs_at};
use crate::syntax::{Grammar, NodeView, text_is, parsed_syntax, field_child, named_children};
use crate::edits::lemma_no_edits;
use crate::rewrite::{
    gather, kind_rename_step, renamed_by_kind, field_rename_step, renamed_in_field,
};
use crate::lang_go::packages as go_packages;
use crate::lang_c::includes as c_includes;
use crate::lang_csharp::usings as csharp_usings;
use crate::lang_js::imports as js_imports;
use crate::rules::{Rule, rule_apply, rule_prefilter, rule_relevant};
use crate::backend::{LanguageBackend, RuleSpec, advertises, action_word_spec};
use crate::backends::Backend;
use crate::paths::{extension_in, has_extension};
use crate::lang_go::imports::is_go;
use crate::lang_java::is_java;
use crate::lang_json::key::is_json;
use crate::lang_c::{is_c, c_extensions};
use crate::lang_cpp::{is_cpp, cpp_extensions};
use crate::lang_csharp::{is_csharp, csharp_extensions};
use crate::lang_js::{is_js, js_extensions};
use crate::dsl::model::{run_from, skipped, SingleRule};
use crate::transformer::CodeTransformer;
use crate::render::{Detail, detail_from, detail_name};
use crate::template::{render, render_from};
use crate::scoped::{scope_match, ScopedOperation};
use crate::render::{
    ChangeCollector, pushed, member, summary_text, rules_text, json_array, json_quoted, diff_text,
    skipped_text,
};
use crate::report::{RunReport, SkippedFile};
use crate::walker::FileChange;
use crate::suggest::lev;
use crate::calls::{Callee, call_step, call_arguments, calls_rewritten, trim_end};

verus! {

/// A concatenation of empty pieces is empty.
proof fn lemma_gather_empty<T>(n: int, f: spec_fn(int) -> Seq<T>)
    requires
        forall|i: int| 0 <= i < n ==> #[trigger] f(i) == Seq::<T>::empty(),
    ensures
        gather(n, f) == Seq::<T>::empty(),
    decreases n,
{
    if n > 0 {
        lemma_gather_empty(n - 1, f);
        assert(gather(n - 1, f) + f(n - 1) =~= Seq::<T>::empty());
    }
}

/// A node spelling `t` shows that `t` occurs in the source.
proof fn lemma_text_is_occurs(src: Seq<u8>, n: NodeView, t: Seq<u8>)
    requires
        text_is(src, n, t),
    ensures
        contains_bytes(src, t),
{
    assert(occurs_at(src, t, n.start));
}

/// A syntactic rename by kind changes nothing when `from` does not occur.
proof fn lemma_kind_rename_absent(grammar: Grammar, kinds: Seq<Seq<char>>, from: Seq<char>, to: Seq<char>, source: Seq<char>)
    requires
        !contains_bytes(utf8(source), utf8(from)),
    ensures
        renamed_by_kind(grammar, kinds, from, to, source) == source,
{
    lemma_no_edits(source);
    if let Some(ns) = parsed_syntax(grammar, source) {
        let step = kind_rename_step(utf8(source), ns, kinds, utf8(from), utf8(to));
        assert forall|i: int| 0 <= i < ns.len() implies #[trigger] step(i) == Seq::<(int, int, Seq<u8>)>::empty() by {
            if kinds.contains(ns[i].kind) && text_is(utf8(source), ns[i], utf8(from)) {
                lemma_text_is_occurs(utf8(source), ns[i], utf8(from));
            }
        }
        lemma_gather_empty(ns.len() as int, step);
    }
}

/// A rename of a field child changes nothing when `from` does not occur.
proof fn lemma_field_rename_absent(
    grammar: Grammar,
    kinds: Seq<Seq<char>>,
    field: Seq<char>,
    from: Seq<char>,
    to: Seq<char>,
    source: Seq<char>,
)
    requires
        !contains_bytes(utf8(source), utf8(from)),
    ensures
        renamed_in_field(grammar, kinds, field, from, to, source) == source,
{
    lemma_no_edits(source);
    if let Some(ns) = parsed_syntax(grammar, source) {
        let step = field_rename_step(utf8(source), ns, kinds, field, utf8(from), utf8(to));
        assert forall|i: int| 0 <= i < ns.len() implies #[trigger] step(i) == Seq::<(int, int, Seq<u8>)>::empty() by {
            if kinds.contains(ns[i].kind) {
                if let Some(c) = field_child(ns, i, field) {
                    if text_is(utf8(source), ns[c], utf8(from)) {
                        lemma_text_is_occurs(utf8(source), ns[c], utf8(from));
                    }
                }
            }
        }
        lemma_gather_empty(ns.len() as int, step);
    }
}

/// The encoding of a concatenation is the concatenation of encodings.
proof fn lemma_utf8_concat(a: Seq<char>, b: Seq<char>)
    ensures
        utf8(a + b) == utf8(a) + utf8(b),
    decreases a.len(),
{
    if a.len() > 0 {
        assert((a + b).drop_first() =~= a.drop_first() + b);
        lemma_utf8_concat(a.drop_first(), b);
        assert(utf8(a) + utf8(b) =~= vstd::utf8::encode_scalar(a[0] as u32) + (utf8(a.drop_first()) + utf8(b)));
    } else {
        assert(a + b =~= b);
        assert(utf8(a) + utf8(b) =~= utf8(b));
    }
}

/// A run of characters of `y` occurs, encoded, in the encoding of `y`.
proof fn lemma_chars_occur(y: Seq<char>, a: int, c: int)
    requires
        0 <= a <= c <= y.len(),
    ensures
        occurs_at(utf8(y), utf8(y.subrange(a, c)), utf8(y.subrange(0, a)).len() as int),
{
    let p = y.subrange(0, a);
    let m = y.subrange(a, c);
    let q = y.subrange(c, y.len() as int);
    assert(y =~= p + m + q);
    lemma_utf8_concat(p + m, q);
    lemma_utf8_concat(p, m);
    let bs = utf8(p) + utf8(m) + utf8(q);
    assert(bs.subrange(utf8(p).len() as int, utf8(p).len() + utf8(m).len() as int) =~= utf8(m));
}

/// An occurrence inside a slice of `src` is an occurrence in `src`.
proof fn lemma_occurs_in_slice(src: Seq<u8>, s: int, e: int, t: Seq<u8>, o: int)
    requires
        0 <= s <= e <= src.len(),
        occurs_at(src.subrange(s, e), t, o),
    ensures
        occurs_at(src, t, s + o),
{
    assert(src.subrange(s, e).subrange(o, o + t.len()) =~= src.subrange(s + o, s + o + t.len()));
}

/// Valid bytes whose text has `m` as the run `a..c` contain `m`'s encoding.
proof fn lemma_decoded_run_occurs(src: Seq<u8>, s: int, e: int, a: int, c: int)
    requires
        0 <= s <= e <= src.len(),
        vstd::utf8::valid_utf8(src.subrange(s, e)),
        0 <= a <= c <= vstd::utf8::decode_utf8(src.subrange(s, e)).len(),
    ensures
        contains_bytes(src, utf8(vstd::utf8::decode_utf8(src.subrange(s, e)).subrange(a, c))),
{
    let b = src.subrange(s, e);
    let y = vstd::utf8::decode_utf8(b);
    vstd::utf8::decode_utf8_encode_utf8(b);
    lemma_chars_occur(y, a, c);
    lemma_occurs_in_slice(src, s, e, utf8(y.subrange(a, c)), utf8(y.subrange(0, a)).len() as int);
}

/// Trimming trailing whitespace keeps a prefix.
proof fn lemma_trim_end_prefix(s: Seq<char>)
    ensures
        trim_end(s).len() <= s.len(),
        trim_end(s) == s.subrange(0, trim_end(s).len() as int),
    decreases s.len(),
{
    if s.len() > 0 && crate::text::is_whitespace(s.last()) {
        lemma_trim_end_prefix(s.drop_last());
        assert(s.drop_last().subrange(0, trim_end(s).len() as int) =~= s.subrange(0, trim_end(s).len() as int));
    } else {
        assert(s.subrange(0, s.len() as int) =~= s);
    }
}

/// A call rewrite changes nothing when the callee name does not occur.
proof fn lemma_calls_absent(
    grammar: Grammar,
    kinds: Seq<Seq<char>>,
    callee: Callee,
    function: Seq<char>,
    template: Seq<char>,
    source: Seq<char>,
)
    requires
        !contains_bytes(utf8(source), utf8(function)),
    ensures
        calls_rewritten(grammar, kinds, callee, function, template, source) == source,
{
    lemma_no_edits(source);
    if let Some(ns) = parsed_syntax(grammar, source) {
        let src = utf8(source);
        let step = call_step(src, ns, kinds, callee, function, template);
        assert forall|i: int| 0 <= i < ns.len() implies #[trigger] step(i) == Seq::<(int, int, Seq<u8>)>::empty() by {
            if let Some(a) = call_arguments(src, ns, kinds, callee, function, i) {
                match callee {
                    Callee::FunctionField => {
                        let f = field_child(ns, i, "function"@).unwrap();
                        lemma_text_is_occurs(src, ns[f], utf8(function));
                    },
                    Callee::BeforeArguments => {
                        let s = ns[i].start;
                        let e = ns[a].start;
                        let y = vstd::utf8::decode_utf8(src.subrange(s, e));
                        lemma_trim_end_prefix(y);
                        lemma_decoded_run_occurs(src, s, e, 0, function.len() as int);
                    },
                }
            }
        }
        lemma_gather_empty(ns.len() as int, step);
    }
}

/// The package renames among `cs` are empty when `from` does not occur.
proof fn lemma_package_edits_absent(src: Seq<u8>, ns: Seq<NodeView>, cs: Seq<int>, from: Seq<u8>, to: Seq<u8>)
    requires
        !contains_bytes(src, from),
    ensures
        go_packages::identifier_edits(src, ns, cs, from, to) == Seq::<(int, int, Seq<u8>)>::empty(),
    decreases cs.len(),
{
    if cs.len() > 0 {
        lemma_package_edits_absent(src, ns, cs.drop_last(), from, to);
        let k = cs.last();
        if 0 <= k < ns.len() && text_is(src, ns[k], from) {
            lemma_text_is_occurs(src, ns[k], from);
        }
    }
}

proof fn lemma_go_package_absent(from: Seq<char>, to: Seq<char>, source: Seq<char>)
    requires
        !contains_bytes(utf8(source), utf8(from)),
    ensures
        go_packages::rename_result(from, to, source) == source,
{
    lemma_no_edits(source);
    if let Some(ns) = parsed_syntax(Grammar::Go, source) {
        let src = utf8(source);
        let step = go_packages::package_step(src, ns, utf8(from), utf8(to));
        assert forall|i: int| 0 <= i < ns.len() implies #[trigger] step(i) == Seq::<(int, int, Seq<u8>)>::empty() by {
            lemma_package_edits_absent(src, ns, named_children(ns, i), utf8(from), utf8(to));
        }
        lemma_gather_empty(ns.len() as int, step);
    }
}

/// An include of `target` shows that `unquote(target)` occurs.
proof fn lemma_include_occurs(src: Seq<u8>, ns: Seq<NodeView>, target: Seq<char>, i: int)
    requires
        c_includes::matching_include(src, ns, target, i) is Some,
    ensures
        contains_bytes(src, utf8(c_includes::unquote(target))),
{
    let (p, t) = c_includes::include_path(src, ns, i).unwrap();
    let (s, e) = (ns[p].start, ns[p].end);
    if t.len() >= 2 && ((t[0] == '<' && t.last() == '>') || (t[0] == '"' && t.last() == '"')) {
        lemma_decoded_run_occurs(src, s, e, 1, t.len() - 1);
    } else {
        lemma_decoded_run_occurs(src, s, e, 0, t.len() as int);
        assert(t.subrange(0, t.len() as int) =~= t);
    }
}

proof fn lemma_include_rename_absent(grammar: Grammar, from: Seq<char>, to: Seq<char>, source: Seq<char>)
    requires
        !contains_bytes(utf8(source), utf8(c_includes::unquote(from))),
    ensures
        c_includes::rename_in(grammar, from, to, source) == source,
{
    lemma_no_edits(source);
    if let Some(ns) = parsed_syntax(grammar, source) {
        let src = utf8(source);
        let step = c_includes::rename_step(src, ns, from, to);
        assert forall|i: int| 0 <= i < ns.len() implies #[trigger] step(i) == Seq::<(int, int, Seq<u8>)>::empty() by {
            if c_includes::matching_include(src, ns, from, i) is Some {
                lemma_include_occurs(src, ns, from, i);
            }
        }
        lemma_gather_empty(ns.len() as int, step);
    }
}

proof fn lemma_include_delete_absent(grammar: Grammar, target: Seq<char>, source: Seq<char>)
    requires
        !contains_bytes(utf8(source), utf8(c_includes::unquote(target))),
    ensures
        c_includes::delete_in(grammar, target, source) == source,
{
    lemma_no_edits(source);
    if let Some(ns) = parsed_syntax(grammar, source) {
        let src = utf8(source);
        let step = c_includes::delete_step(src, ns, target);
        assert forall|i: int| 0 <= i < ns.len() implies #[trigger] step(i) == Seq::<(int, int, Seq<u8>)>::empty() by {
            if c_includes::matching_include(src, ns, target, i) is Some {
                lemma_include_occurs(src, ns, target, i);
            }
        }
        lemma_gather_empty(ns.len() as int, step);
    }
}

proof fn lemma_using_occurs(src: Seq<u8>, ns: Seq<NodeView>, target: Seq<u8>, i: int)
    requires
        csharp_usings::matching_name(src, ns, target, i) is Some,
    ensures
        contains_bytes(src, target),
{
    let k = csharp_usings::using_name(src, ns, i).unwrap();
    lemma_text_is_occurs(src, ns[k], target);
}

proof fn lemma_using_rename_absent(from: Seq<char>, to: Seq<char>, source: Seq<char>)
    requires
        !contains_bytes(utf8(source), utf8(from)),
    ensures
        csharp_usings::rename_result(from, to, source) == source,
{
    lemma_no_edits(source);
    if let Some(ns) = parsed_syntax(Grammar::CSharp, source) {
        let src = utf8(source);
        let step = csharp_usings::rename_step(src, ns, utf8(from), utf8(to));
        assert forall|i: int| 0 <= i < ns.len() implies #[trigger] step(i) == Seq::<(int, int, Seq<u8>)>::empty() by {
            if csharp_usings::matching_name(src, ns, utf8(from), i) is Some {
                lemma_using_occurs(src, ns, utf8(from), i);
            }
        }
        lemma_gather_empty(ns.len() as int, step);
    }
}

proof fn lemma_using_delete_absent(target: Seq<char>, source: Seq<char>)
    requires
        !contains_bytes(utf8(source), utf8(target)),
    ensures
        csharp_usings::delete_result(target, source) == source,
{
    lemma_no_edits(source);
    if let Some(ns) = parsed_syntax(Grammar::CSharp, source) {
        let src = utf8(source);
        let step = csharp_usings::delete_step(src, ns, utf8(target));
        assert forall|i: int| 0 <= i < ns.len() implies #[trigger] step(i) == Seq::<(int, int, Seq<u8>)>::empty() by {
            if csharp_usings::matching_name(src, ns, utf8(target), i) is Some {
                lemma_using_occurs(src, ns, utf8(target), i);
            }
        }
        lemma_gather_empty(ns.len() as int, step);
    }
}

/// The first fragment found among `cs` lies inside the source.
proof fn lemma_first_fragment_in_range(src: Seq<u8>, ns: Seq<NodeView>, cs: Seq<int>)
    ensures
        js_imports::first_fragment(src, ns, cs) matches Some(k) ==> 0 <= k < ns.len()
            && 0 <= ns[k].start <= ns[k].end <= src.len(),
    decreases cs.len(),
{
    if cs.len() > 0 {
        lemma_first_fragment_in_range(src, ns, cs.drop_first());
    }
}

proof fn lemma_specifier_occurs(src: Seq<u8>, ns: Seq<NodeView>, target: Seq<u8>, i: int)
    requires
        js_imports::matching_specifier(src, ns, target, i) is Some,
    ensures
        contains_bytes(src, target),
{
    let s = field_child(ns, i, "source"@).unwrap();
    lemma_first_fragment_in_range(src, ns, named_children(ns, s));
    let (lo, hi) = js_imports::string_inner(src, ns, s).unwrap();
    assert(occurs_at(src, target, lo));
}

proof fn lemma_specifier_rename_absent(from: Seq<char>, to: Seq<char>, source: Seq<char>)
    requires
        !contains_bytes(utf8(source), utf8(from)),
    ensures
        js_imports::rename_result(from, to, source) == source,
{
    lemma_no_edits(source);
    if let Some(ns) = parsed_syntax(Grammar::JavaScript, source) {
        let src = utf8(source);
        let step = js_imports::rename_step(src, ns, utf8(from), utf8(to));
        assert forall|i: int| 0 <= i < ns.len() implies #[trigger] step(i) == Seq::<(int, int, Seq<u8>)>::empty() by {
            if js_imports::matching_specifier(src, ns, utf8(from), i) is Some {
                lemma_specifier_occurs(src, ns, utf8(from), i);
            }
        }
        lemma_gather_empty(ns.len() as int, step);
    }
}

proof fn lemma_specifier_delete_absent(target: Seq<char>, source: Seq<char>)
    requires
        !contains_bytes(utf8(source), utf8(target)),
    ensures
        js_imports::delete_result(target, source) == source,
{
    lemma_no_edits(source);
    if let Some(ns) = parsed_syntax(Grammar::JavaScript, source) {
        let src = utf8(source);
        let step = js_imports::delete_step(src, ns, utf8(target));
        assert forall|i: int| 0 <= i < ns.len() implies #[trigger] step(i) == Seq::<(int, int, Seq<u8>)>::empty() by {
            if js_imports::matching_specifier(src, ns, utf8(target), i) is Some {
                lemma_specifier_occurs(src, ns, utf8(target), i);
            }
        }
        lemma_gather_empty(ns.len() as int, step);
    }
}

/// The literal a rule filters on is a necessary condition: a source in
/// which it does not occur is left unchanged. The walker relies on this
/// to skip the rule, parse included, on such a file.
pub proof fn law_absent_literal_is_a_no_op(r: Rule, source: Seq<char>)
    requires
        rule_prefilter(r) matches Some(lit) && !contains_bytes(utf8(source), utf8(lit)),
    ensures
        rule_apply(r, source) == source,
    decreases r,
{
    match r {
        Rule::Scoped(s) => law_absent_literal_is_a_no_op(*s.inner, source),
        Rule::GoPackageRename(op) => lemma_go_package_absent(op.from@, op.to@, source),
        Rule::JavaCallReplace(op) => lemma_calls_absent(Grammar::Java, crate::lang_java::calls::call_kinds(), Callee::BeforeArguments, op.function@, op.template@, source),
        Rule::CCallReplace(op) => lemma_calls_absent(Grammar::C, crate::lang_c::calls::call_kinds(), Callee::FunctionField, op.function@, op.template@, source),
        Rule::CppCallReplace(op) => lemma_calls_absent(Grammar::Cpp, crate::lang_cpp::calls::call_kinds(), Callee::FunctionField, op.function@, op.template@, source),
        Rule::CSharpCallReplace(op) => lemma_calls_absent(Grammar::CSharp, crate::lang_csharp::calls::call_kinds(), Callee::FunctionField, op.function@, op.template@, source),
        Rule::JsCallReplace(op) => lemma_calls_absent(Grammar::JavaScript, crate::lang_js::calls::call_kinds(), Callee::FunctionField, op.function@, op.template@, source),
        Rule::CIncludeRename(op) => lemma_include_rename_absent(Grammar::C, op.from@, op.to@, source),
        Rule::CIncludeDelete(op) => lemma_include_delete_absent(Grammar::C, op.target@, source),
        Rule::CppIncludeRename(op) => lemma_include_rename_absent(Grammar::Cpp, op.from@, op.to@, source),
        Rule::CppIncludeDelete(op) => lemma_include_delete_absent(Grammar::Cpp, op.target@, source),
        Rule::CSymbolRename(op) => lemma_kind_rename_absent(Grammar::C, crate::lang_c::symbols::rename_kinds(), op.from@, op.to@, source),
        Rule::CppSymbolRename(op) => lemma_kind_rename_absent(Grammar::Cpp, crate::lang_cpp::symbols::rename_kinds(), op.from@, op.to@, source),
        Rule::CSharpSymbolRename(op) => lemma_kind_rename_absent(Grammar::CSharp, crate::lang_csharp::symbols::rename_kinds(), op.from@, op.to@, source),
        Rule::CppNamespaceRename(op) => lemma_field_rename_absent(Grammar::Cpp, crate::lang_cpp::namespaces::declaration_kinds(), "name"@, op.from@, op.to@, source),
        Rule::CSharpNamespaceRename(op) => lemma_field_rename_absent(Grammar::CSharp, crate::lang_csharp::namespaces::declaration_kinds(), "name"@, op.from@, op.to@, source),
        Rule::CSharpUsingRename(op) => lemma_using_rename_absent(op.from@, op.to@, source),
        Rule::CSharpUsingDelete(op) => lemma_using_delete_absent(op.target@, source),
        Rule::JsSpecifierRename(op) => lemma_specifier_rename_absent(op.from@, op.to@, source),
        Rule::JsSpecifierDelete(op) => lemma_specifier_delete_absent(op.target@, source),
        _ => {},
    }
}

/// The text a match block targets.
pub open spec fn spec_target(spec: RuleSpec) -> Seq<char> {
    match spec {
        RuleSpec::Replace { target, .. } => target@,
        RuleSpec::Delete { target } => target@,
        RuleSpec::Ensure { target } => target@,
        RuleSpec::ReplaceCall { target, .. } => target@,
        RuleSpec::SetValue { target, .. } => target@,
        RuleSpec::Insert { target, .. } => target@,
    }
}

/// Running a rule again on its own output changes nothing when that
/// output no longer holds the rule's literal (a rename whose old name is
/// gone, a deleted import).
pub proof fn law_rerun_without_the_literal_is_a_no_op(r: Rule, source: Seq<char>)
    requires
        rule_prefilter(r) matches Some(lit) && !contains_bytes(utf8(rule_apply(r, source)), utf8(lit)),
    ensures
        rule_apply(r, rule_apply(r, source)) == rule_apply(r, source),
{
    law_absent_literal_is_a_no_op(r, rule_apply(r, source));
}

/// An `ensure` rule acts exactly where its target is absent, so no
/// backend gives it a literal to filter on.
pub proof fn law_ensure_rules_have_no_prefilter(b: Backend, module: Seq<char>, target: String)
    ensures
        b.rule_for(module, RuleSpec::Ensure { target }) matches Some(Ok(r)) ==> rule_prefilter(r) is None,
{
}

/// The literal a built rule filters on is its target, or the target
/// without its first and last character (an `#include` path written with
/// its delimiters); never text from elsewhere.
pub proof fn law_prefilter_comes_from_the_target(b: Backend, module: Seq<char>, spec: RuleSpec)
    ensures
        b.rule_for(module, spec) matches Some(Ok(r)) ==> (rule_prefilter(r) matches Some(lit) ==> {
            ||| lit == spec_target(spec)
            ||| (spec_target(spec).len() >= 2 && lit == spec_target(spec).subrange(1, spec_target(spec).len() - 1))
        }),
{
}

/// Every file extension some backend reads.
pub open spec fn source_extensions() -> Seq<Seq<char>> {
    seq!["go"@, "java"@, "json"@] + c_extensions() + cpp_extensions() + csharp_extensions() + js_extensions()
}

proof fn lemma_extension_in_append(path: Seq<char>, a: Seq<Seq<char>>, b: Seq<Seq<char>>)
    ensures
        extension_in(path, a) ==> extension_in(path, a + b),
        extension_in(path, b) ==> extension_in(path, a + b),
{
    if extension_in(path, a) {
        let k = choose|k: int| 0 <= k < a.len() && has_extension(path, #[trigger] a[k]);
        assert((a + b)[k] == a[k]);
    }
    if extension_in(path, b) {
        let k = choose|k: int| 0 <= k < b.len() && has_extension(path, #[trigger] b[k]);
        assert((a + b)[a.len() + k] == b[k]);
    }
}

proof fn lemma_language_paths(path: Seq<char>)
    ensures
        (is_go(path) || is_java(path) || is_json(path) || is_c(path) || is_cpp(path) || is_csharp(path) || is_js(path))
            ==> extension_in(path, source_extensions()),
{
    let gj: Seq<Seq<char>> = seq!["go"@, "java"@, "json"@];
    let s1 = gj + c_extensions();
    let s2 = s1 + cpp_extensions();
    let s3 = s2 + csharp_extensions();
    if is_go(path) {
        assert(has_extension(path, gj[0]));
    }
    if is_java(path) {
        assert(has_extension(path, gj[1]));
    }
    if is_json(path) {
        assert(has_extension(path, gj[2]));
    }
    lemma_extension_in_append(path, gj, c_extensions());
    lemma_extension_in_append(path, s1, cpp_extensions());
    lemma_extension_in_append(path, s2, csharp_extensions());
    lemma_extension_in_append(path, s3, js_extensions());
}

/// No rule wants a file that no backend can parse: a rule is relevant only
/// to paths with a source extension of some language.
pub proof fn law_rules_want_only_source_files(r: Rule, path: Seq<char>)
    ensures
        rule_relevant(r, path) ==> extension_in(path, source_extensions()),
    decreases r,
{
    lemma_language_paths(path);
    if let Rule::Scoped(s) = r {
        law_rules_want_only_source_files(*s.inner, path);
    }
}

/// Rules `i..` applied in order to `cur`, skipping those that do not
/// want the file at `path`.
pub open spec fn apply_relevant_from(rules: Seq<Rule>, path: Seq<char>, i: int, cur: Seq<char>) -> Seq<char>
    decreases rules.len() - i,
{
    if i < 0 || i >= rules.len() {
        cur
    } else if rule_relevant(rules[i], path) {
        apply_relevant_from(rules, path, i + 1, rule_apply(rules[i], cur))
    } else {
        apply_relevant_from(rules, path, i + 1, cur)
    }
}

/// Skipping a rule because its literal is absent never changes what a
/// script makes of a file: the result is that of applying every rule that
/// wants the file, in order.
pub proof fn law_prefilter_skips_preserve_the_result(rules: Seq<Rule>, path: Seq<char>, i: int, cur: Seq<char>)
    ensures
        run_from(rules, path, i, cur).0 == apply_relevant_from(rules, path, i, cur),
    decreases rules.len() - i,
{
    if 0 <= i < rules.len() {
        let r = rules[i];
        if rule_relevant(r, path) {
            if let Some(lit) = rule_prefilter(r) {
                if !contains_bytes(utf8(cur), utf8(lit)) {
                    law_absent_literal_is_a_no_op(r, cur);
                }
            }
            law_prefilter_skips_preserve_the_result(rules, path, i + 1, rule_apply(r, cur));
        }
        law_prefilter_skips_preserve_the_result(rules, path, i + 1, cur);
    }
}

/// The rules reported as fired are rules of the script that want the
/// file, each reported once, in the order they ran.
pub proof fn law_fired_rules_are_relevant_and_ordered(rules: Seq<Rule>, path: Seq<char>, i: int, cur: Seq<char>)
    requires
        0 <= i,
    ensures
        ({
            let fired = run_from(rules, path, i, cur).1;
            &&& forall|j: int| 0 <= j < fired.len() ==> i <= #[trigger] fired[j] < rules.len()
                && rule_relevant(rules[fired[j]], path)
            &&& forall|j: int, k: int| 0 <= j < k < fired.len() ==> fired[j] < fired[k]
        }),
    decreases rules.len() - i,
{
    if i < rules.len() {
        law_fired_rules_are_relevant_and_ordered(rules, path, i + 1, cur);
        law_fired_rules_are_relevant_and_ordered(rules, path, i + 1, rule_apply(rules[i], cur));
        let fired = run_from(rules, path, i, cur).1;
        if !skipped(rules[i], path, cur) && rule_apply(rules[i], cur) != cur {
            let rest = run_from(rules, path, i + 1, rule_apply(rules[i], cur)).1;
            assert(fired == seq![i] + rest);
            assert forall|j: int| 0 <= j < fired.len() implies i <= #[trigger] fired[j] < rules.len()
                && rule_relevant(rules[fired[j]], path) by {
                if j > 0 {
                    assert(fired[j] == rest[j - 1]);
                }
            }
            assert forall|j: int, k: int| 0 <= j < k < fired.len() implies fired[j] < fired[k] by {
                assert(fired[k] == rest[k - 1]);
                if j > 0 {
                    assert(fired[j] == rest[j - 1]);
                }
            }
        } else {
            assert(fired == run_from(rules, path, i + 1, cur).1);
        }
    }
}

/// A single rule applied on its own gives what a script of that one rule
/// gives, and reports itself as rule 0.
pub proof fn law_single_rule_is_a_one_rule_script(r: Rule, path: Seq<char>, source: Seq<char>)
    ensures
        ({
            let o = SingleRule { op: &r }.outcome_spec(path, source);
            run_from(seq![r], path, 0, source) == (o.output, o.rules_fired)
        }),
{
    let rules = seq![r];
    assert(run_from(rules, path, 1, source) == (source, Seq::<int>::empty()));
    assert(run_from(rules, path, 1, rule_apply(r, source)) == (rule_apply(r, source), Seq::<int>::empty()));
    assert(seq![0int] + Seq::<int>::empty() =~= seq![0int]);
}

/// Every detail level reads back from its own wire name.
pub proof fn law_detail_round_trips(d: Detail)
    ensures
        detail_from(detail_name(d)) == Some(d),
{
    reveal_strlit("summary");
    reveal_strlit("counts");
    reveal_strlit("diff");
    assert("summary"@.len() == 7);
    assert("counts"@.len() == 6);
    assert("diff"@.len() == 4);
}

proof fn lemma_render_plain_from(t: Seq<char>, i: int, func: Seq<char>, args: Seq<Seq<char>>)
    requires
        0 <= i <= t.len(),
        !t.contains('$'),
    ensures
        render_from(t, i, func, args) == t.subrange(i, t.len() as int),
    decreases t.len() - i,
{
    if i < t.len() {
        assert(t[i] != '$');
        lemma_render_plain_from(t, i + 1, func, args);
        assert(seq![t[i]] + t.subrange(i + 1, t.len() as int) =~= t.subrange(i, t.len() as int));
    } else {
        assert(t.subrange(i, t.len() as int) =~= Seq::<char>::empty());
    }
}

/// A call template without `$` renders to itself, whatever the call.
pub proof fn law_plain_template_renders_verbatim(t: Seq<char>, func: Seq<char>, args: Seq<Seq<char>>)
    requires
        !t.contains('$'),
    ensures
        render(t, func, args) == t,
{
    lemma_render_plain_from(t, 0, func, args);
    assert(t.subrange(0, t.len() as int) =~= t);
}

/// An `in "<glob>"` clause only narrows a rule: the scoped rule wants a
/// file only when the rule itself does and the glob matches its path, and
/// it rewrites and filters exactly as the rule does.
pub proof fn law_scope_only_narrows(inner: Rule, pattern: String, path: Seq<char>, source: Seq<char>)
    ensures
        ({
            let r = Rule::Scoped(ScopedOperation { inner: Box::new(inner), pattern });
            &&& rule_relevant(r, path) <==> (rule_relevant(inner, path) && scope_match(pattern@, path) == Some(true))
            &&& rule_apply(r, source) == rule_apply(inner, source)
            &&& rule_prefilter(r) == rule_prefilter(inner)
        }),
{
}

/// A fresh collector keeps no diff, and recording a file never takes
/// the kept diffs past the file cap: however many files a run changes,
/// the JSON document holds at most `max_files` diffs.
pub proof fn law_kept_diffs_stay_capped(o: ChangeCollector, n: ChangeCollector, change: FileChange)
    requires
        pushed(o, n, change),
        o.kept_diffs().len() <= o.opts().max_files,
    ensures
        n.kept_diffs().len() <= n.opts().max_files,
        n.opts() == o.opts(),
{
}

/// A backend answers a match block with a rule, or with a configuration
/// error about its arguments, exactly for the module/action pairs it
/// advertises; every other pair is an unsupported operation.
pub proof fn law_advertised_pairs_are_the_buildable_ones(b: Backend, module: Seq<char>, spec: RuleSpec)
    ensures
        b.rule_for(module, spec) is Some <==> advertises(b.offered(), module, action_word_spec(spec)),
{
    b.lemma_builds_what_it_offers(module, spec);
}

/// The paths of the changed files among `changes`, in order.
pub open spec fn changed_paths_of(changes: Seq<FileChange>) -> Seq<Seq<char>>
    decreases changes.len(),
{
    if changes.len() == 0 {
        Seq::empty()
    } else {
        let earlier = changed_paths_of(changes.drop_last());
        let c = changes.last();
        if c.before@ != c.after@ { earlier.push(c.path@) } else { earlier }
    }
}

/// Over a run, a collector that started empty lists exactly the paths
/// of the files that changed, in the order they were pushed, whatever
/// its options: the list is never capped.
pub proof fn law_changed_lists_changed_files_in_order(cs: Seq<ChangeCollector>, changes: Seq<FileChange>)
    requires
        cs.len() == changes.len() + 1,
        cs[0].changed_paths().len() == 0,
        forall|k: int| 0 <= k < changes.len() ==> #[trigger] pushed(cs[k], cs[k + 1], changes[k]),
    ensures
        cs.last().changed_paths() == changed_paths_of(changes),
    decreases changes.len(),
{
    if changes.len() == 0 {
        assert(cs.last().changed_paths() =~= Seq::<Seq<char>>::empty());
    } else {
        let n = changes.len() - 1;
        let cs0 = cs.drop_last();
        let ch0 = changes.drop_last();
        assert forall|k: int| 0 <= k < ch0.len() implies #[trigger] pushed(cs0[k], cs0[k + 1], ch0[k]) by {
            assert(pushed(cs[k], cs[k + 1], changes[k]));
        }
        law_changed_lists_changed_files_in_order(cs0, ch0);
        assert(pushed(cs[n], cs[n + 1], changes[n]));
    }
}

/// Edit distance is symmetric.
pub proof fn law_edit_distance_is_symmetric(a: Seq<char>, b: Seq<char>)
    ensures
        lev(a, b) == lev(b, a),
    decreases a.len() + b.len(),
{
    if a.len() > 0 && b.len() > 0 {
        law_edit_distance_is_symmetric(a.drop_last(), b.drop_last());
        law_edit_distance_is_symmetric(a.drop_last(), b);
        law_edit_distance_is_symmetric(a, b.drop_last());
    }
}

/// Two texts are at distance 0 exactly when they are equal.
pub proof fn law_edit_distance_zero_iff_equal(a: Seq<char>, b: Seq<char>)
    ensures
        lev(a, b) == 0 <==> a == b,
    decreases a.len() + b.len(),
{
    if a.len() > 0 && b.len() > 0 {
        law_edit_distance_zero_iff_equal(a.drop_last(), b.drop_last());
        if a == b {
            assert(a.drop_last() == b.drop_last());
        }
        if lev(a, b) == 0 {
            assert(a.drop_last() == b.drop_last());
            assert(a =~= a.drop_last().push(a.last()));
            assert(b =~= b.drop_last().push(b.last()));
        }
    } else if a.len() == 0 && b.len() != 0 {
        assert(a != b);
    } else if a.len() != 0 && b.len() == 0 {
        assert(a != b);
    } else {
        assert(a =~= b);
    }
}

/// The distance from the empty text is the other text's length.
pub proof fn law_edit_distance_from_empty(b: Seq<char>)
    ensures
        lev(Seq::empty(), b) == b.len(),
{
}

/// The run document's members: at `summary` detail the summary alone;
/// otherwise the changed paths, the per-rule counts and the summary, the
/// skipped files when there are any, and the kept diffs at `diff` detail.
pub proof fn law_json_document_members(c: ChangeCollector, r: RunReport)
    ensures
        c.opts().detail == Detail::Summary ==> c.members_spec(r) == seq![member("summary"@, summary_text(r))],
        c.opts().detail != Detail::Summary ==> {
            let ms = c.members_spec(r);
            &&& ms.contains(member("changed"@, json_array(c.changed_paths().map_values(|p: Seq<char>| json_quoted(p)))))
            &&& ms.contains(member("rules"@, rules_text(r)))
            &&& ms.contains(member("summary"@, summary_text(r)))
            &&& r.skipped@.len() > 0 ==> ms.contains(
                member("skipped"@, json_array(r.skipped@.map_values(|f: SkippedFile| skipped_text(f)))))
            &&& c.opts().detail == Detail::Diff ==> ms.contains(
                member("diffs"@, json_array(c.kept_diffs().map_values(|d: (Seq<char>, Seq<char>)| diff_text(d)))))
        },
{
    let ms = c.members_spec(r);
    if c.opts().detail != Detail::Summary {
        let changed_m = member("changed"@, json_array(c.changed_paths().map_values(|p: Seq<char>| json_quoted(p))));
        assert(ms[0] == changed_m);
        let d = if c.opts().detail == Detail::Diff { 1int } else { 0int };
        assert(ms[1 + d] == member("rules"@, rules_text(r)));
        let k = if r.skipped@.len() > 0 { 1int } else { 0int };
        assert(ms[2 + d + k] == member("summary"@, summary_text(r)));
        if r.skipped@.len() > 0 {
            assert(ms[2 + d] == member("skipped"@, json_array(r.skipped@.map_values(|f: SkippedFile| skipped_text(f)))));
        }
        if c.opts().detail == Detail::Diff {
            assert(ms[1] == member("diffs"@, json_array(c.kept_diffs().map_values(|d: (Seq<char>, Seq<char>)| diff_text(d)))));
        }
    }
}

} // verus!

//! Every rule a backend can build, as one closed type.
//!
//! A compiled script holds its rules as [`Rule`] values; each variant
//! wraps the operation of one language module and forwards to it, and
//! [`Rule::Scoped`] narrows another rule to the paths a glob matches.

use vstd::prelude::*;
use crate::text::{copy_str, push_str};
use crate::operation::Operation;
use crate::scoped::{scope_match, scope_matches, ScopedOperation};
use crate::lang_c;
use crate::lang_cpp;
use crate::lang_csharp;
use crate::lang_go;
use crate::lang_java;
use crate::lang_js;
use crate::lang_json;

verus! {

/// A ready-to-run rule.
#[derive(Debug)]
pub enum Rule {
    GoImportRename(lang_go::imports::ImportRename),
    GoImportDelete(lang_go::imports::ImportDelete),
    GoImportEnsure(lang_go::imports::ImportEnsure),
    GoSymbolRename(lang_go::symbols::SymbolRename),
    GoPackageRename(lang_go::packages::PackageRename),
    GoTagReplace(lang_go::struct_tags::TagReplace),
    GoCallReplace(lang_go::calls::CallReplace),
    JavaImportRename(lang_java::imports::ImportRename),
    JavaImportDelete(lang_java::imports::ImportDelete),
    JavaImportEnsure(lang_java::imports::ImportEnsure),
    JavaPackageRename(lang_java::packages::PackageRename),
    JavaSymbolRename(lang_java::symbols::SymbolRename),
    JavaCallReplace(lang_java::calls::CallReplace),
    CIncludeRename(lang_c::includes::IncludeRename),
    CIncludeDelete(lang_c::includes::IncludeDelete),
    CIncludeEnsure(lang_c::includes::IncludeEnsure),
    CSymbolRename(lang_c::symbols::SymbolRename),
    CCallReplace(lang_c::calls::CallReplace),
    CppIncludeRename(lang_cpp::includes::IncludeRename),
    CppIncludeDelete(lang_cpp::includes::IncludeDelete),
    CppIncludeEnsure(lang_cpp::includes::IncludeEnsure),
    CppNamespaceRename(lang_cpp::namespaces::NamespaceRename),
    CppSymbolRename(lang_cpp::symbols::SymbolRename),
    CppCallReplace(lang_cpp::calls::CallReplace),
    CSharpUsingRename(lang_csharp::usings::UsingRename),
    CSharpUsingDelete(lang_csharp::usings::UsingDelete),
    CSharpUsingEnsure(lang_csharp::usings::UsingEnsure),
    CSharpNamespaceRename(lang_csharp::namespaces::NamespaceRename),
    CSharpSymbolRename(lang_csharp::symbols::SymbolRename),
    CSharpCallReplace(lang_csharp::calls::CallReplace),
    JsSpecifierRename(lang_js::imports::SpecifierRename),
    JsSpecifierDelete(lang_js::imports::SpecifierDelete),
    JsSpecifierEnsure(lang_js::imports::SpecifierEnsure),
    JsSymbolRename(lang_js::symbols::SymbolRename),
    JsCallReplace(lang_js::calls::CallReplace),
    JsonKeyEdit(lang_json::key::MemberEdit),
    /// A rule applied only to the paths a glob matches (an
    /// `in "<glob>"` clause).
    Scoped(ScopedOperation),
}

/// Whether `r` wants to rewrite the file at `path`.
pub open spec fn rule_relevant(r: Rule, path: Seq<char>) -> bool
    decreases r,
{
    match r {
        Rule::Scoped(s) => rule_relevant(*s.inner, path) && scope_match(s.pattern@, path) == Some(true),
        Rule::GoImportRename(op) => op.relevant_spec(path),
        Rule::GoImportDelete(op) => op.relevant_spec(path),
        Rule::GoImportEnsure(op) => op.relevant_spec(path),
        Rule::GoSymbolRename(op) => op.relevant_spec(path),
        Rule::GoPackageRename(op) => op.relevant_spec(path),
        Rule::GoTagReplace(op) => op.relevant_spec(path),
        Rule::GoCallReplace(op) => op.relevant_spec(path),
        Rule::JavaImportRename(op) => op.relevant_spec(path),
        Rule::JavaImportDelete(op) => op.relevant_spec(path),
        Rule::JavaImportEnsure(op) => op.relevant_spec(path),
        Rule::JavaPackageRename(op) => op.relevant_spec(path),
        Rule::JavaSymbolRename(op) => op.relevant_spec(path),
        Rule::JavaCallReplace(op) => op.relevant_spec(path),
        Rule::CIncludeRename(op) => op.relevant_spec(path),
        Rule::CIncludeDelete(op) => op.relevant_spec(path),
        Rule::CIncludeEnsure(op) => op.relevant_spec(path),
        Rule::CSymbolRename(op) => op.relevant_spec(path),
        Rule::CCallReplace(op) => op.relevant_spec(path),
        Rule::CppIncludeRename(op) => op.relevant_spec(path),
        Rule::CppIncludeDelete(op) => op.relevant_spec(path),
        Rule::CppIncludeEnsure(op) => op.relevant_spec(path),
        Rule::CppNamespaceRename(op) => op.relevant_spec(path),
        Rule::CppSymbolRename(op) => op.relevant_spec(path),
        Rule::CppCallReplace(op) => op.relevant_spec(path),
        Rule::CSharpUsingRename(op) => op.relevant_spec(path),
        Rule::CSharpUsingDelete(op) => op.relevant_spec(path),
        Rule::CSharpUsingEnsure(op) => op.relevant_spec(path),
        Rule::CSharpNamespaceRename(op) => op.relevant_spec(path),
        Rule::CSharpSymbolRename(op) => op.relevant_spec(path),
        Rule::CSharpCallReplace(op) => op.relevant_spec(path),
        Rule::JsSpecifierRename(op) => op.relevant_spec(path),
        Rule::JsSpecifierDelete(op) => op.relevant_spec(path),
        Rule::JsSpecifierEnsure(op) => op.relevant_spec(path),
        Rule::JsSymbolRename(op) => op.relevant_spec(path),
        Rule::JsCallReplace(op) => op.relevant_spec(path),
        Rule::JsonKeyEdit(op) => op.relevant_spec(path),
    }
}

/// What `r` rewrites a source text to.
pub open spec fn rule_apply(r: Rule, source: Seq<char>) -> Seq<char>
    decreases r,
{
    match r {
        Rule::Scoped(s) => rule_apply(*s.inner, source),
        Rule::GoImportRename(op) => op.apply_spec(source),
        Rule::GoImportDelete(op) => op.apply_spec(source),
        Rule::GoImportEnsure(op) => op.apply_spec(source),
        Rule::GoSymbolRename(op) => op.apply_spec(source),
        Rule::GoPackageRename(op) => op.apply_spec(source),
        Rule::GoTagReplace(op) => op.apply_spec(source),
        Rule::GoCallReplace(op) => op.apply_spec(source),
        Rule::JavaImportRename(op) => op.apply_spec(source),
        Rule::JavaImportDelete(op) => op.apply_spec(source),
        Rule::JavaImportEnsure(op) => op.apply_spec(source),
        Rule::JavaPackageRename(op) => op.apply_spec(source),
        Rule::JavaSymbolRename(op) => op.apply_spec(source),
        Rule::JavaCallReplace(op) => op.apply_spec(source),
        Rule::CIncludeRename(op) => op.apply_spec(source),
        Rule::CIncludeDelete(op) => op.apply_spec(source),
        Rule::CIncludeEnsure(op) => op.apply_spec(source),
        Rule::CSymbolRename(op) => op.apply_spec(source),
        Rule::CCallReplace(op) => op.apply_spec(source),
        Rule::CppIncludeRename(op) => op.apply_spec(source),
        Rule::CppIncludeDelete(op) => op.apply_spec(source),
        Rule::CppIncludeEnsure(op) => op.apply_spec(source),
        Rule::CppNamespaceRename(op) => op.apply_spec(source),
        Rule::CppSymbolRename(op) => op.apply_spec(source),
        Rule::CppCallReplace(op) => op.apply_spec(source),
        Rule::CSharpUsingRename(op) => op.apply_spec(source),
        Rule::CSharpUsingDelete(op) => op.apply_spec(source),
        Rule::CSharpUsingEnsure(op) => op.apply_spec(source),
        Rule::CSharpNamespaceRename(op) => op.apply_spec(source),
        Rule::CSharpSymbolRename(op) => op.apply_spec(source),
        Rule::CSharpCallReplace(op) => op.apply_spec(source),
        Rule::JsSpecifierRename(op) => op.apply_spec(source),
        Rule::JsSpecifierDelete(op) => op.apply_spec(source),
        Rule::JsSpecifierEnsure(op) => op.apply_spec(source),
        Rule::JsSymbolRename(op) => op.apply_spec(source),
        Rule::JsCallReplace(op) => op.apply_spec(source),
        Rule::JsonKeyEdit(op) => op.apply_spec(source),
    }
}

/// The literal that must occur in any source `r` can change.
pub open spec fn rule_prefilter(r: Rule) -> Option<Seq<char>>
    decreases r,
{
    match r {
        Rule::Scoped(s) => rule_prefilter(*s.inner),
        Rule::GoImportRename(op) => op.prefilter_spec(),
        Rule::GoImportDelete(op) => op.prefilter_spec(),
        Rule::GoImportEnsure(op) => op.prefilter_spec(),
        Rule::GoSymbolRename(op) => op.prefilter_spec(),
        Rule::GoPackageRename(op) => op.prefilter_spec(),
        Rule::GoTagReplace(op) => op.prefilter_spec(),
        Rule::GoCallReplace(op) => op.prefilter_spec(),
        Rule::JavaImportRename(op) => op.prefilter_spec(),
        Rule::JavaImportDelete(op) => op.prefilter_spec(),
        Rule::JavaImportEnsure(op) => op.prefilter_spec(),
        Rule::JavaPackageRename(op) => op.prefilter_spec(),
        Rule::JavaSymbolRename(op) => op.prefilter_spec(),
        Rule::JavaCallReplace(op) => op.prefilter_spec(),
        Rule::CIncludeRename(op) => op.prefilter_spec(),
        Rule::CIncludeDelete(op) => op.prefilter_spec(),
        Rule::CIncludeEnsure(op) => op.prefilter_spec(),
        Rule::CSymbolRename(op) => op.prefilter_spec(),
        Rule::CCallReplace(op) => op.prefilter_spec(),
        Rule::CppIncludeRename(op) => op.prefilter_spec(),
        Rule::CppIncludeDelete(op) => op.prefilter_spec(),
        Rule::CppIncludeEnsure(op) => op.prefilter_spec(),
        Rule::CppNamespaceRename(op) => op.prefilter_spec(),
        Rule::CppSymbolRename(op) => op.prefilter_spec(),
        Rule::CppCallReplace(op) => op.prefilter_spec(),
        Rule::CSharpUsingRename(op) => op.prefilter_spec(),
        Rule::CSharpUsingDelete(op) => op.prefilter_spec(),
        Rule::CSharpUsingEnsure(op) => op.prefilter_spec(),
        Rule::CSharpNamespaceRename(op) => op.prefilter_spec(),
        Rule::CSharpSymbolRename(op) => op.prefilter_spec(),
        Rule::CSharpCallReplace(op) => op.prefilter_spec(),
        Rule::JsSpecifierRename(op) => op.prefilter_spec(),
        Rule::JsSpecifierDelete(op) => op.prefilter_spec(),
        Rule::JsSpecifierEnsure(op) => op.prefilter_spec(),
        Rule::JsSymbolRename(op) => op.prefilter_spec(),
        Rule::JsCallReplace(op) => op.prefilter_spec(),
        Rule::JsonKeyEdit(op) => op.prefilter_spec(),
    }
}

/// How `r` describes itself.
pub open spec fn rule_describe(r: Rule) -> Seq<char>
    decreases r,
{
    match r {
        Rule::Scoped(s) => rule_describe(*s.inner) + " in \""@ + s.pattern@ + "\""@,
        Rule::GoImportRename(op) => op.describe_spec(),
        Rule::GoImportDelete(op) => op.describe_spec(),
        Rule::GoImportEnsure(op) => op.describe_spec(),
        Rule::GoSymbolRename(op) => op.describe_spec(),
        Rule::GoPackageRename(op) => op.describe_spec(),
        Rule::GoTagReplace(op) => op.describe_spec(),
        Rule::GoCallReplace(op) => op.describe_spec(),
        Rule::JavaImportRename(op) => op.describe_spec(),
        Rule::JavaImportDelete(op) => op.describe_spec(),
        Rule::JavaImportEnsure(op) => op.describe_spec(),
        Rule::JavaPackageRename(op) => op.describe_spec(),
        Rule::JavaSymbolRename(op) => op.describe_spec(),
        Rule::JavaCallReplace(op) => op.describe_spec(),
        Rule::CIncludeRename(op) => op.describe_spec(),
        Rule::CIncludeDelete(op) => op.describe_spec(),
        Rule::CIncludeEnsure(op) => op.describe_spec(),
        Rule::CSymbolRename(op) => op.describe_spec(),
        Rule::CCallReplace(op) => op.describe_spec(),
        Rule::CppIncludeRename(op) => op.describe_spec(),
        Rule::CppIncludeDelete(op) => op.describe_spec(),
        Rule::CppIncludeEnsure(op) => op.describe_spec(),
        Rule::CppNamespaceRename(op) => op.describe_spec(),
        Rule::CppSymbolRename(op) => op.describe_spec(),
        Rule::CppCallReplace(op) => op.describe_spec(),
        Rule::CSharpUsingRename(op) => op.describe_spec(),
        Rule::CSharpUsingDelete(op) => op.describe_spec(),
        Rule::CSharpUsingEnsure(op) => op.describe_spec(),
        Rule::CSharpNamespaceRename(op) => op.describe_spec(),
        Rule::CSharpSymbolRename(op) => op.describe_spec(),
        Rule::CSharpCallReplace(op) => op.describe_spec(),
        Rule::JsSpecifierRename(op) => op.describe_spec(),
        Rule::JsSpecifierDelete(op) => op.describe_spec(),
        Rule::JsSpecifierEnsure(op) => op.describe_spec(),
        Rule::JsSymbolRename(op) => op.describe_spec(),
        Rule::JsCallReplace(op) => op.describe_spec(),
        Rule::JsonKeyEdit(op) => op.describe_spec(),
    }
}

fn rule_is_relevant(r: &Rule, path: &str) -> (b: bool)
    ensures
        b == rule_relevant(*r, path@),
    decreases r,
{
    match r {
        Rule::Scoped(s) => {
            rule_is_relevant(&s.inner, path) && scope_matches(s.pattern.as_str(), path) == Some(true)
        },
        Rule::GoImportRename(op) => op.is_file_relevant(path),
        Rule::GoImportDelete(op) => op.is_file_relevant(path),
        Rule::GoImportEnsure(op) => op.is_file_relevant(path),
        Rule::GoSymbolRename(op) => op.is_file_relevant(path),
        Rule::GoPackageRename(op) => op.is_file_relevant(path),
        Rule::GoTagReplace(op) => op.is_file_relevant(path),
        Rule::GoCallReplace(op) => op.is_file_relevant(path),
        Rule::JavaImportRename(op) => op.is_file_relevant(path),
        Rule::JavaImportDelete(op) => op.is_file_relevant(path),
        Rule::JavaImportEnsure(op) => op.is_file_relevant(path),
        Rule::JavaPackageRename(op) => op.is_file_relevant(path),
        Rule::JavaSymbolRename(op) => op.is_file_relevant(path),
        Rule::JavaCallReplace(op) => op.is_file_relevant(path),
        Rule::CIncludeRename(op) => op.is_file_relevant(path),
        Rule::CIncludeDelete(op) => op.is_file_relevant(path),
        Rule::CIncludeEnsure(op) => op.is_file_relevant(path),
        Rule::CSymbolRename(op) => op.is_file_relevant(path),
        Rule::CCallReplace(op) => op.is_file_relevant(path),
        Rule::CppIncludeRename(op) => op.is_file_relevant(path),
        Rule::CppIncludeDelete(op) => op.is_file_relevant(path),
        Rule::CppIncludeEnsure(op) => op.is_file_relevant(path),
        Rule::CppNamespaceRename(op) => op.is_file_relevant(path),
        Rule::CppSymbolRename(op) => op.is_file_relevant(path),
        Rule::CppCallReplace(op) => op.is_file_relevant(path),
        Rule::CSharpUsingRename(op) => op.is_file_relevant(path),
        Rule::CSharpUsingDelete(op) => op.is_file_relevant(path),
        Rule::CSharpUsingEnsure(op) => op.is_file_relevant(path),
        Rule::CSharpNamespaceRename(op) => op.is_file_relevant(path),
        Rule::CSharpSymbolRename(op) => op.is_file_relevant(path),
        Rule::CSharpCallReplace(op) => op.is_file_relevant(path),
        Rule::JsSpecifierRename(op) => op.is_file_relevant(path),
        Rule::JsSpecifierDelete(op) => op.is_file_relevant(path),
        Rule::JsSpecifierEnsure(op) => op.is_file_relevant(path),
        Rule::JsSymbolRename(op) => op.is_file_relevant(path),
        Rule::JsCallReplace(op) => op.is_file_relevant(path),
        Rule::JsonKeyEdit(op) => op.is_file_relevant(path),
    }
}

fn rule_apply_to(r: &Rule, source_code: &str) -> (out: String)
    ensures
        out@ == rule_apply(*r, source_code@),
    decreases r,
{
    match r {
        Rule::Scoped(s) => rule_apply_to(&s.inner, source_code),
        Rule::GoImportRename(op) => op.apply(source_code),
        Rule::GoImportDelete(op) => op.apply(source_code),
        Rule::GoImportEnsure(op) => op.apply(source_code),
        Rule::GoSymbolRename(op) => op.apply(source_code),
        Rule::GoPackageRename(op) => op.apply(source_code),
        Rule::GoTagReplace(op) => op.apply(source_code),
        Rule::GoCallReplace(op) => op.apply(source_code),
        Rule::JavaImportRename(op) => op.apply(source_code),
        Rule::JavaImportDelete(op) => op.apply(source_code),
        Rule::JavaImportEnsure(op) => op.apply(source_code),
        Rule::JavaPackageRename(op) => op.apply(source_code),
        Rule::JavaSymbolRename(op) => op.apply(source_code),
        Rule::JavaCallReplace(op) => op.apply(source_code),
        Rule::CIncludeRename(op) => op.apply(source_code),
        Rule::CIncludeDelete(op) => op.apply(source_code),
        Rule::CIncludeEnsure(op) => op.apply(source_code),
        Rule::CSymbolRename(op) => op.apply(source_code),
        Rule::CCallReplace(op) => op.apply(source_code),
        Rule::CppIncludeRename(op) => op.apply(source_code),
        Rule::CppIncludeDelete(op) => op.apply(source_code),
        Rule::CppIncludeEnsure(op) => op.apply(source_code),
        Rule::CppNamespaceRename(op) => op.apply(source_code),
        Rule::CppSymbolRename(op) => op.apply(source_code),
        Rule::CppCallReplace(op) => op.apply(source_code),
        Rule::CSharpUsingRename(op) => op.apply(source_code),
        Rule::CSharpUsingDelete(op) => op.apply(source_code),
        Rule::CSharpUsingEnsure(op) => op.apply(source_code),
        Rule::CSharpNamespaceRename(op) => op.apply(source_code),
        Rule::CSharpSymbolRename(op) => op.apply(source_code),
        Rule::CSharpCallReplace(op) => op.apply(source_code),
        Rule::JsSpecifierRename(op) => op.apply(source_code),
        Rule::JsSpecifierDelete(op) => op.apply(source_code),
        Rule::JsSpecifierEnsure(op) => op.apply(source_code),
        Rule::JsSymbolRename(op) => op.apply(source_code),
        Rule::JsCallReplace(op) => op.apply(source_code),
        Rule::JsonKeyEdit(op) => op.apply(source_code),
    }
}

fn rule_prefilter_of(r: &Rule) -> (p: Option<&str>)
    ensures
        match rule_prefilter(*r) {
            Some(q) => p matches Some(s) && s@ == q,
            None => p is None,
        },
    decreases r,
{
    match r {
        Rule::Scoped(s) => rule_prefilter_of(&s.inner),
        Rule::GoImportRename(op) => op.prefilter(),
        Rule::GoImportDelete(op) => op.prefilter(),
        Rule::GoImportEnsure(op) => op.prefilter(),
        Rule::GoSymbolRename(op) => op.prefilter(),
        Rule::GoPackageRename(op) => op.prefilter(),
        Rule::GoTagReplace(op) => op.prefilter(),
        Rule::GoCallReplace(op) => op.prefilter(),
        Rule::JavaImportRename(op) => op.prefilter(),
        Rule::JavaImportDelete(op) => op.prefilter(),
        Rule::JavaImportEnsure(op) => op.prefilter(),
        Rule::JavaPackageRename(op) => op.prefilter(),
        Rule::JavaSymbolRename(op) => op.prefilter(),
        Rule::JavaCallReplace(op) => op.prefilter(),
        Rule::CIncludeRename(op) => op.prefilter(),
        Rule::CIncludeDelete(op) => op.prefilter(),
        Rule::CIncludeEnsure(op) => op.prefilter(),
        Rule::CSymbolRename(op) => op.prefilter(),
        Rule::CCallReplace(op) => op.prefilter(),
        Rule::CppIncludeRename(op) => op.prefilter(),
        Rule::CppIncludeDelete(op) => op.prefilter(),
        Rule::CppIncludeEnsure(op) => op.prefilter(),
        Rule::CppNamespaceRename(op) => op.prefilter(),
        Rule::CppSymbolRename(op) => op.prefilter(),
        Rule::CppCallReplace(op) => op.prefilter(),
        Rule::CSharpUsingRename(op) => op.prefilter(),
        Rule::CSharpUsingDelete(op) => op.prefilter(),
        Rule::CSharpUsingEnsure(op) => op.prefilter(),
        Rule::CSharpNamespaceRename(op) => op.prefilter(),
        Rule::CSharpSymbolRename(op) => op.prefilter(),
        Rule::CSharpCallReplace(op) => op.prefilter(),
        Rule::JsSpecifierRename(op) => op.prefilter(),
        Rule::JsSpecifierDelete(op) => op.prefilter(),
        Rule::JsSpecifierEnsure(op) => op.prefilter(),
        Rule::JsSymbolRename(op) => op.prefilter(),
        Rule::JsCallReplace(op) => op.prefilter(),
        Rule::JsonKeyEdit(op) => op.prefilter(),
    }
}

fn rule_description(r: &Rule) -> (d: String)
    ensures
        d@ == rule_describe(*r),
    decreases r,
{
    match r {
        Rule::Scoped(scope) => {
            let mut s = rule_description(&scope.inner);
            push_str(&mut s, " in \"");
            push_str(&mut s, scope.pattern.as_str());
            push_str(&mut s, "\"");
            s
        },
        Rule::GoImportRename(op) => op.describe(),
        Rule::GoImportDelete(op) => op.describe(),
        Rule::GoImportEnsure(op) => op.describe(),
        Rule::GoSymbolRename(op) => op.describe(),
        Rule::GoPackageRename(op) => op.describe(),
        Rule::GoTagReplace(op) => op.describe(),
        Rule::GoCallReplace(op) => op.describe(),
        Rule::JavaImportRename(op) => op.describe(),
        Rule::JavaImportDelete(op) => op.describe(),
        Rule::JavaImportEnsure(op) => op.describe(),
        Rule::JavaPackageRename(op) => op.describe(),
        Rule::JavaSymbolRename(op) => op.describe(),
        Rule::JavaCallReplace(op) => op.describe(),
        Rule::CIncludeRename(op) => op.describe(),
        Rule::CIncludeDelete(op) => op.describe(),
        Rule::CIncludeEnsure(op) => op.describe(),
        Rule::CSymbolRename(op) => op.describe(),
        Rule::CCallReplace(op) => op.describe(),
        Rule::CppIncludeRename(op) => op.describe(),
        Rule::CppIncludeDelete(op) => op.describe(),
        Rule::CppIncludeEnsure(op) => op.describe(),
        Rule::CppNamespaceRename(op) => op.describe(),
        Rule::CppSymbolRename(op) => op.describe(),
        Rule::CppCallReplace(op) => op.describe(),
        Rule::CSharpUsingRename(op) => op.describe(),
        Rule::CSharpUsingDelete(op) => op.describe(),
        Rule::CSharpUsingEnsure(op) => op.describe(),
        Rule::CSharpNamespaceRename(op) => op.describe(),
        Rule::CSharpSymbolRename(op) => op.describe(),
        Rule::CSharpCallReplace(op) => op.describe(),
        Rule::JsSpecifierRename(op) => op.describe(),
        Rule::JsSpecifierDelete(op) => op.describe(),
        Rule::JsSpecifierEnsure(op) => op.describe(),
        Rule::JsSymbolRename(op) => op.describe(),
        Rule::JsCallReplace(op) => op.describe(),
        Rule::JsonKeyEdit(op) => op.describe(),
    }
}

impl Operation for Rule {
    open spec fn relevant_spec(&self, path: Seq<char>) -> bool {
        rule_relevant(*self, path)
    }

    open spec fn apply_spec(&self, source: Seq<char>) -> Seq<char> {
        rule_apply(*self, source)
    }

    open spec fn prefilter_spec(&self) -> Option<Seq<char>> {
        rule_prefilter(*self)
    }

    open spec fn describe_spec(&self) -> Seq<char> {
        rule_describe(*self)
    }

    fn is_file_relevant(&self, path: &str) -> (r: bool) {
        rule_is_relevant(self, path)
    }

    fn apply(&self, source_code: &str) -> (r: String) {
        rule_apply_to(self, source_code)
    }

    fn prefilter(&self) -> (r: Option<&str>) {
        rule_prefilter_of(self)
    }

    fn describe(&self) -> (r: String) {
        rule_description(self)
    }
}

} // verus!

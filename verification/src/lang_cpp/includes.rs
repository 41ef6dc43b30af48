//! `#include` directives in C++ sources, with the logic the C backend
//! uses: match strings are the bare path and rename keeps the delimiter
//! style.

use vstd::prelude::*;
use crate::text::{copy_str, push_str};
use crate::syntax::Grammar;
use crate::lang_c::includes::{
    rename_in, delete_in, ensure_in, rename_include, delete_include, ensure_include, unquote, unquote_str,
};
use crate::operation::Operation;
use crate::lang_cpp::{is_cpp, is_cpp_file};

verus! {

/// Point C++ includes of `from` at `to`.
#[derive(Debug)]
pub struct IncludeRename {
    pub from: String,
    pub to: String,
}

impl Operation for IncludeRename {
    open spec fn relevant_spec(&self, path: Seq<char>) -> bool {
        is_cpp(path)
    }

    open spec fn apply_spec(&self, source: Seq<char>) -> Seq<char> {
        rename_in(Grammar::Cpp, self.from@, self.to@, source)
    }

    open spec fn prefilter_spec(&self) -> Option<Seq<char>> {
        Some(unquote(self.from@))
    }

    open spec fn describe_spec(&self) -> Seq<char> {
        "cpp::include \""@ + self.from@ + "\" -> \""@ + self.to@ + "\""@
    }

    fn is_file_relevant(&self, path: &str) -> (r: bool) {
        is_cpp_file(path)
    }

    fn apply(&self, source_code: &str) -> (r: String) {
        rename_include(Grammar::Cpp, self.from.as_str(), self.to.as_str(), source_code)
    }

    fn prefilter(&self) -> (r: Option<&str>) {
        Some(unquote_str(self.from.as_str()))
    }

    fn describe(&self) -> (r: String) {
        let mut s = copy_str("cpp::include \"");
        push_str(&mut s, self.from.as_str());
        push_str(&mut s, "\" -> \"");
        push_str(&mut s, self.to.as_str());
        push_str(&mut s, "\"");
        s
    }
}

/// Remove the C++ includes of a path.
#[derive(Debug)]
pub struct IncludeDelete {
    pub target: String,
}

impl Operation for IncludeDelete {
    open spec fn relevant_spec(&self, path: Seq<char>) -> bool {
        is_cpp(path)
    }

    open spec fn apply_spec(&self, source: Seq<char>) -> Seq<char> {
        delete_in(Grammar::Cpp, self.target@, source)
    }

    open spec fn prefilter_spec(&self) -> Option<Seq<char>> {
        Some(unquote(self.target@))
    }

    open spec fn describe_spec(&self) -> Seq<char> {
        "cpp::include \""@ + self.target@ + "\" -> delete"@
    }

    fn is_file_relevant(&self, path: &str) -> (r: bool) {
        is_cpp_file(path)
    }

    fn apply(&self, source_code: &str) -> (r: String) {
        delete_include(Grammar::Cpp, self.target.as_str(), source_code)
    }

    fn prefilter(&self) -> (r: Option<&str>) {
        Some(unquote_str(self.target.as_str()))
    }

    fn describe(&self) -> (r: String) {
        let mut s = copy_str("cpp::include \"");
        push_str(&mut s, self.target.as_str());
        push_str(&mut s, "\" -> delete");
        s
    }
}

/// Idempotently add a C++ include if it is missing.
#[derive(Debug)]
pub struct IncludeEnsure {
    pub target: String,
}

impl Operation for IncludeEnsure {
    open spec fn relevant_spec(&self, path: Seq<char>) -> bool {
        is_cpp(path)
    }

    open spec fn apply_spec(&self, source: Seq<char>) -> Seq<char> {
        ensure_in(Grammar::Cpp, self.target@, source)
    }

    open spec fn prefilter_spec(&self) -> Option<Seq<char>> {
        None
    }

    open spec fn describe_spec(&self) -> Seq<char> {
        "cpp::include \""@ + self.target@ + "\" -> ensure"@
    }

    fn is_file_relevant(&self, path: &str) -> (r: bool) {
        is_cpp_file(path)
    }

    fn apply(&self, source_code: &str) -> (r: String) {
        ensure_include(Grammar::Cpp, self.target.as_str(), source_code)
    }

    fn prefilter(&self) -> (r: Option<&str>) {
        None
    }

    fn describe(&self) -> (r: String) {
        let mut s = copy_str("cpp::include \"");
        push_str(&mut s, self.target.as_str());
        push_str(&mut s, "\" -> ensure");
        s
    }
}

} // verus!

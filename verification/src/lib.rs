//! Colab: scripted, syntax-aware codemods, with the rewriting logic
//! verified in Verus.

pub mod text;
pub mod syntax;
pub mod edits;
pub mod error;
pub mod template;
pub mod suggest;
pub mod walker;
pub mod report;
pub mod render;
pub mod paths;
pub mod rewrite;
pub mod calls;
pub mod operation;
pub mod lang_c;
pub mod lang_cpp;
pub mod lang_csharp;
pub mod lang_go;
pub mod lang_java;
pub mod lang_js;
pub mod lang_json;
pub mod backend;
pub mod rules;
pub mod scoped;
pub mod transformer;
pub mod backends;
pub mod dsl;
pub mod format;
pub mod laws;
pub mod lsp;

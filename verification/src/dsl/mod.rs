//! The codemod script language: syntax, parsing and lowering into rules.

pub mod ast;
pub mod lexer;
pub mod parser;
pub mod model;
pub mod compiler;

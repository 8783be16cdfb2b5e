//! Front end of a compiler for a small subset of C.
//!
//! Source text is scanned into a sequence of tokens, each tagged with the
//! byte range it was read from, and top-level declarations are parsed into
//! syntax-tree nodes annotated with their resolved types.  Every function is
//! verified against a mathematical description of what it computes.

pub mod common;
pub mod error;
pub mod lexer;
pub mod parser;

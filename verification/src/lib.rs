//! Reader for a small Lisp-family language: it turns raw source text into a
//! span-annotated tree of symbolic expressions, collecting lexical and
//! grammatical faults instead of stopping at the first one.

pub mod bignum;
pub mod error;
pub mod intern;
pub mod laws;
pub mod lexer;
pub mod numerals;
pub mod reader;
pub mod render;
pub mod sexpr;
pub mod span;
pub mod token;

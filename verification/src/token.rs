//! Spanned tokens produced by the lexer.

use vstd::prelude::*;
use crate::span::Span;

verus! {

/// The lexical class of one token. `Error` marks an unscannable slice so the
/// whole input can still be tokenized in one pass; `Eof` is the sentinel the
/// token-stream adapter appends at the end of the input.
#[derive(Clone, Copy, Debug, PartialEq, Eq, Structural)]
pub enum TokenKind {
    LParen,
    RParen,
    LBrack,
    RBrack,
    HashLBrack,
    Quote,
    Backquote,
    Comma,
    CommaAt,
    Period,
    Ellipsis,
    Int,
    Real,
    Rational,
    Bool,
    Str,
    Ident,
    Error,
    Eof,
}

/// A `(kind, span)` pair covering one slice of the source.
#[derive(Clone, Copy, Debug, PartialEq, Eq, Structural)]
pub struct Token {
    pub kind: TokenKind,
    pub span: Span,
}

} // verus!

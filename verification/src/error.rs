//! The faults a read can report: lexical faults carrying only a span, and
//! grammar faults carrying a span, the expectation, and what was found.

use vstd::prelude::*;
use crate::span::Span;
use crate::token::TokenKind;

verus! {

/// What the grammar expected at the fault position.
#[derive(Clone, Copy, Debug, PartialEq, Eq, Structural)]
pub enum Expected {
    /// A form: any expression production could start here.
    Form,
    /// A lexically accepted literal whose text does not convert to a value.
    LiteralValue,
    /// A rational literal with a zero denominator.
    NonZeroDenominator,
}

#[derive(Clone, Copy, Debug, PartialEq, Eq, Structural)]
pub enum SyntaxError {
    /// An unscannable lexeme at the given byte range.
    LexError(Span),
    /// A grammar mismatch: what was expected and the kind that was found.
    ParseError { span: Span, expected: Expected, found: TokenKind },
}

/// A reader fault described by a message, kept for callers that only want
/// text.
#[derive(Clone, Debug, PartialEq, Eq)]
pub struct ReaderError(pub String);

impl ReaderError {
    pub fn new(msg: &str) -> (r: ReaderError)
        ensures
            r.0@ == msg@,
    {
        ReaderError(msg.to_owned())
    }
}

} // verus!

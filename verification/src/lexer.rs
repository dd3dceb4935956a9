//! The lexer: scans raw source bytes into a gap-free sequence of spanned
//! tokens. An unrecognized lexeme becomes one `Error` token instead of
//! stopping the scan. Whitespace and `;` line comments carry no token.

use vstd::prelude::*;
use crate::numerals::{is_digit, B9, B0, BPLUS, BMINUS};
use crate::span::Span;
use crate::token::{Token, TokenKind};

verus! {

pub const LPAREN: u8 = 40;

pub const RPAREN: u8 = 41;

pub const LBRACK: u8 = 91;

pub const RBRACK: u8 = 93;

pub const HASH: u8 = 35;

pub const QUOTE: u8 = 39;

pub const BACKQUOTE: u8 = 96;

pub const COMMA: u8 = 44;

pub const AT: u8 = 64;

pub const DOT: u8 = 46;

pub const SLASH: u8 = 47;

pub const DQUOTE: u8 = 34;

pub const SEMI: u8 = 59;

pub const NEWLINE: u8 = 10;

pub open spec fn is_ws(c: u8) -> bool {
    c == 32 || c == 9 || c == 13 || c == 10
}

pub open spec fn is_letter(c: u8) -> bool {
    (65 <= c <= 90) || (97 <= c <= 122)
}

/// Punctuation bytes that may appear in a symbol name:
/// `_ ! ? * + - / < > = & ^ % ~`
pub open spec fn is_sym_punct(c: u8) -> bool {
    c == 95 || c == 33 || c == 63 || c == 42 || c == BPLUS || c == BMINUS || c == SLASH || c == 60
        || c == 62 || c == 61 || c == 38 || c == 94 || c == 37 || c == 126
}

pub open spec fn is_ident_start(c: u8) -> bool {
    is_letter(c) || is_sym_punct(c)
}

pub open spec fn is_ident_char(c: u8) -> bool {
    is_ident_start(c) || is_digit(c)
}

/// First position at or after `i` that is not a decimal digit.
pub open spec fn digits_end(src: Seq<u8>, i: int) -> int
    decreases src.len() - i when 0 <= i <= src.len()
{
    if i < src.len() && is_digit(src[i]) {
        digits_end(src, i + 1)
    } else {
        i
    }
}

/// First position at or after `i` that is not an identifier byte.
pub open spec fn ident_end(src: Seq<u8>, i: int) -> int
    decreases src.len() - i when 0 <= i <= src.len()
{
    if i < src.len() && is_ident_char(src[i]) {
        ident_end(src, i + 1)
    } else {
        i
    }
}

/// First position at or after `i` holding a double quote, or the input length.
pub open spec fn str_body_end(src: Seq<u8>, i: int) -> int
    decreases src.len() - i when 0 <= i <= src.len()
{
    if i >= src.len() {
        src.len() as int
    } else if src[i] == DQUOTE {
        i
    } else {
        str_body_end(src, i + 1)
    }
}

/// Position just after the line comment starting at `i`: one past the next
/// newline, or the input length.
pub open spec fn line_end(src: Seq<u8>, i: int) -> int
    decreases src.len() - i when 0 <= i <= src.len()
{
    if i >= src.len() {
        src.len() as int
    } else if src[i] == NEWLINE {
        i + 1
    } else {
        line_end(src, i + 1)
    }
}

pub open spec fn is_true_lexeme(src: Seq<u8>, i: int, j: int) -> bool {
    j - i == 4 && src[i] == 116 && src[i + 1] == 114 && src[i + 2] == 117 && src[i + 3] == 101
}

pub open spec fn is_false_lexeme(src: Seq<u8>, i: int, j: int) -> bool {
    j - i == 5 && src[i] == 102 && src[i + 1] == 97 && src[i + 2] == 108 && src[i + 3] == 115
        && src[i + 4] == 101
}

/// The kind and end position of the token starting at `i`, which must not be
/// whitespace or a comment start. Maximal munch with numbers taking priority
/// over identifiers for a leading sign, and `true` / `false` classified as
/// boolean literals.
pub open spec fn tok_at(src: Seq<u8>, i: int) -> (TokenKind, int) {
    let c = src[i];
    let n = src.len() as int;
    if c == LPAREN {
        (TokenKind::LParen, i + 1)
    } else if c == RPAREN {
        (TokenKind::RParen, i + 1)
    } else if c == LBRACK {
        (TokenKind::LBrack, i + 1)
    } else if c == RBRACK {
        (TokenKind::RBrack, i + 1)
    } else if c == HASH {
        if i + 1 < n && src[i + 1] == LBRACK {
            (TokenKind::HashLBrack, i + 2)
        } else {
            (TokenKind::Error, i + 1)
        }
    } else if c == QUOTE {
        (TokenKind::Quote, i + 1)
    } else if c == BACKQUOTE {
        (TokenKind::Backquote, i + 1)
    } else if c == COMMA {
        if i + 1 < n && src[i + 1] == AT {
            (TokenKind::CommaAt, i + 2)
        } else {
            (TokenKind::Comma, i + 1)
        }
    } else if c == DOT {
        if i + 2 < n && src[i + 1] == DOT && src[i + 2] == DOT {
            (TokenKind::Ellipsis, i + 3)
        } else {
            (TokenKind::Period, i + 1)
        }
    } else if c == DQUOTE {
        let j = str_body_end(src, i + 1);
        if j < n {
            (TokenKind::Str, j + 1)
        } else {
            (TokenKind::Error, n)
        }
    } else if is_digit(c) || ((c == BPLUS || c == BMINUS) && i + 1 < n && is_digit(src[i + 1])) {
        let ds = if is_digit(c) {
            i
        } else {
            i + 1
        };
        let d1 = digits_end(src, ds);
        if d1 < n && src[d1] == DOT && d1 + 1 < n && is_digit(src[d1 + 1]) {
            (TokenKind::Real, digits_end(src, d1 + 1))
        } else if d1 < n && src[d1] == SLASH && d1 + 1 < n && is_digit(src[d1 + 1]) {
            (TokenKind::Rational, digits_end(src, d1 + 1))
        } else {
            (TokenKind::Int, d1)
        }
    } else if is_ident_start(c) {
        let j = ident_end(src, i);
        if is_true_lexeme(src, i, j) || is_false_lexeme(src, i, j) {
            (TokenKind::Bool, j)
        } else {
            (TokenKind::Ident, j)
        }
    } else {
        (TokenKind::Error, i + 1)
    }
}

/// The token sequence of the whole source from position `i` on.
pub open spec fn scan_spec(src: Seq<u8>, i: int) -> Seq<Token>
    decreases src.len() - i when 0 <= i
{
    if i >= src.len() {
        Seq::empty()
    } else if is_ws(src[i]) {
        scan_spec(src, i + 1)
    } else if src[i] == SEMI {
        let j = line_end(src, i);
        if i < j <= src.len() {
            scan_spec(src, j)
        } else {
            Seq::empty()
        }
    } else {
        let (k, j) = tok_at(src, i);
        if i < j <= src.len() {
            seq![Token { kind: k, span: Span { start: i as usize, end: j as usize } }] + scan_spec(
                src,
                j,
            )
        } else {
            Seq::empty()
        }
    }
}

fn digits_end_exec(src: &[u8], i: usize) -> (j: usize)
    requires
        i <= src@.len(),
    ensures
        j as int == digits_end(src@, i as int),
        i <= j <= src@.len(),
        j < src@.len() ==> !is_digit(src@[j as int]),
{
    let mut j: usize = i;
    while j < src.len() && is_digit_exec(src[j])
        invariant
            i <= j <= src@.len(),
            digits_end(src@, i as int) == digits_end(src@, j as int),
        decreases src@.len() - j,
    {
        j += 1;
    }
    j
}

fn ident_end_exec(src: &[u8], i: usize) -> (j: usize)
    requires
        i <= src@.len(),
    ensures
        j as int == ident_end(src@, i as int),
        i <= j <= src@.len(),
        j < src@.len() ==> !is_ident_char(src@[j as int]),
{
    let mut j: usize = i;
    while j < src.len() && is_ident_char_exec(src[j])
        invariant
            i <= j <= src@.len(),
            ident_end(src@, i as int) == ident_end(src@, j as int),
        decreases src@.len() - j,
    {
        j += 1;
    }
    j
}

fn str_body_end_exec(src: &[u8], i: usize) -> (j: usize)
    requires
        i <= src@.len(),
    ensures
        j as int == str_body_end(src@, i as int),
        i <= j <= src@.len(),
        j < src@.len() ==> src@[j as int] == DQUOTE,
{
    let mut j: usize = i;
    while j < src.len() && src[j] != DQUOTE
        invariant
            i <= j <= src@.len(),
            str_body_end(src@, i as int) == str_body_end(src@, j as int),
        decreases src@.len() - j,
    {
        j += 1;
    }
    j
}

fn line_end_exec(src: &[u8], i: usize) -> (j: usize)
    requires
        i < src@.len(),
    ensures
        j as int == line_end(src@, i as int),
        i < j <= src@.len(),
{
    let mut j: usize = i;
    while j < src.len() && src[j] != NEWLINE
        invariant
            i <= j <= src@.len(),
            line_end(src@, i as int) == line_end(src@, j as int),
        decreases src@.len() - j,
    {
        j += 1;
    }
    if j < src.len() {
        j + 1
    } else {
        j
    }
}

fn is_digit_exec(c: u8) -> (b: bool)
    ensures
        b == is_digit(c),
{
    B0 <= c && c <= B9
}

fn is_ident_start_exec(c: u8) -> (b: bool)
    ensures
        b == is_ident_start(c),
{
    (65 <= c && c <= 90) || (97 <= c && c <= 122) || c == 95 || c == 33 || c == 63 || c == 42
        || c == BPLUS || c == BMINUS || c == SLASH || c == 60 || c == 62 || c == 61 || c == 38
        || c == 94 || c == 37 || c == 126
}

fn is_ident_char_exec(c: u8) -> (b: bool)
    ensures
        b == is_ident_char(c),
{
    is_ident_start_exec(c) || (B0 <= c && c <= B9)
}

/// Kind and end of the token starting at `i`.
fn next_token(src: &[u8], i: usize) -> (r: (TokenKind, usize))
    requires
        i < src@.len(),
        !is_ws(src@[i as int]),
        src@[i as int] != SEMI,
    ensures
        (r.0, r.1 as int) == tok_at(src@, i as int),
        i < r.1 <= src@.len(),
        r.0 != TokenKind::Eof,
{
    let n = src.len();
    let c = src[i];
    if c == LPAREN {
        (TokenKind::LParen, i + 1)
    } else if c == RPAREN {
        (TokenKind::RParen, i + 1)
    } else if c == LBRACK {
        (TokenKind::LBrack, i + 1)
    } else if c == RBRACK {
        (TokenKind::RBrack, i + 1)
    } else if c == HASH {
        if i + 1 < n && src[i + 1] == LBRACK {
            (TokenKind::HashLBrack, i + 2)
        } else {
            (TokenKind::Error, i + 1)
        }
    } else if c == QUOTE {
        (TokenKind::Quote, i + 1)
    } else if c == BACKQUOTE {
        (TokenKind::Backquote, i + 1)
    } else if c == COMMA {
        if i + 1 < n && src[i + 1] == AT {
            (TokenKind::CommaAt, i + 2)
        } else {
            (TokenKind::Comma, i + 1)
        }
    } else if c == DOT {
        if i + 1 < n && src[i + 1] == DOT && i + 2 < n && src[i + 2] == DOT {
            (TokenKind::Ellipsis, i + 3)
        } else {
            (TokenKind::Period, i + 1)
        }
    } else if c == DQUOTE {
        let j = str_body_end_exec(src, i + 1);
        if j < n {
            (TokenKind::Str, j + 1)
        } else {
            (TokenKind::Error, n)
        }
    } else if is_digit_exec(c) || ((c == BPLUS || c == BMINUS) && i + 1 < n && is_digit_exec(
        src[i + 1],
    )) {
        let ds: usize = if B0 <= c && c <= B9 {
            i
        } else {
            i + 1
        };
        let d1 = digits_end_exec(src, ds);
        assert(d1 > ds || !is_digit(src@[ds as int]));
        if d1 < n && src[d1] == DOT && d1 + 1 < n && is_digit_exec(src[d1 + 1]) {
            let e = digits_end_exec(src, d1 + 1);
            (TokenKind::Real, e)
        } else if d1 < n && src[d1] == SLASH && d1 + 1 < n && is_digit_exec(src[d1 + 1]) {
            let e = digits_end_exec(src, d1 + 1);
            (TokenKind::Rational, e)
        } else {
            (TokenKind::Int, d1)
        }
    } else if is_ident_start_exec(c) {
        let j = ident_end_exec(src, i);
        assert(j > i || !is_ident_char(src@[i as int]));
        let is_true = j - i == 4 && src[i] == 116 && src[i + 1] == 114 && src[i + 2] == 117
            && src[i + 3] == 101;
        let is_false = j - i == 5 && src[i] == 102 && src[i + 1] == 97 && src[i + 2] == 108
            && src[i + 3] == 115 && src[i + 4] == 101;
        if is_true || is_false {
            (TokenKind::Bool, j)
        } else {
            (TokenKind::Ident, j)
        }
    } else {
        (TokenKind::Error, i + 1)
    }
}

/// Scan the whole source into tokens: the spanned-token sequence of
/// `scan_spec`, every span ordered and in bounds, and no sentinel kinds.
pub fn scan(src: &[u8]) -> (toks: Vec<Token>)
    ensures
        toks@ == scan_spec(src@, 0),
        toks@.len() <= src@.len(),
        forall|k: int|
            0 <= k < toks@.len() ==> (#[trigger] toks@[k]).kind != TokenKind::Eof
                && toks@[k].span.start < toks@[k].span.end <= src@.len(),
{
    let mut toks: Vec<Token> = Vec::new();
    let mut i: usize = 0;
    while i < src.len()
        invariant
            i <= src@.len(),
            toks@.len() <= i,
            scan_spec(src@, 0) == toks@ + scan_spec(src@, i as int),
            forall|k: int|
                0 <= k < toks@.len() ==> (#[trigger] toks@[k]).kind != TokenKind::Eof
                    && toks@[k].span.start < toks@[k].span.end <= src@.len(),
        decreases src@.len() - i,
    {
        let c = src[i];
        if c == 32 || c == 9 || c == 13 || c == 10 {
            assert(scan_spec(src@, i as int) == scan_spec(src@, i + 1));
            i += 1;
        } else if c == SEMI {
            let j = line_end_exec(src, i);
            assert(scan_spec(src@, i as int) == scan_spec(src@, j as int));
            i = j;
        } else {
            let (k, j) = next_token(src, i);
            let t = Token { kind: k, span: Span { start: i, end: j } };
            assert(scan_spec(src@, i as int) =~= seq![t] + scan_spec(src@, j as int));
            let ghost old_toks = toks@;
            toks.push(t);
            assert(toks@ =~= old_toks + seq![t]);
            assert(old_toks + (seq![t] + scan_spec(src@, j as int)) =~= toks@ + scan_spec(
                src@,
                j as int,
            ));
            i = j;
        }
    }
    assert(scan_spec(src@, i as int) =~= Seq::empty());
    assert(toks@ =~= toks@ + Seq::<Token>::empty());
    toks
}

} // verus!

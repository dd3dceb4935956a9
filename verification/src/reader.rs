//! The grammar: a recursive set of productions over the token stream, tried
//! in a fixed priority order, building one spanned tree node per form. The
//! whole grammar is stated as a specification-level function of the token
//! sequence; the executable reader is proved to return exactly its result.

use vstd::prelude::*;
use num_bigint::BigInt;
use crate::bignum::{big_int_from_decimal, big_rational_new, gcd, int_abs, int_of};
use crate::error::{Expected, SyntaxError};
use crate::lexer::{scan, scan_spec, is_true_lexeme, is_false_lexeme, DOT, DQUOTE, SLASH};
use crate::numerals::{all_digits, all_digits_exec, all_zero_digits_exec, digits_value,
    int_numeral_value, is_int_numeral, lemma_digits_value_bounds,
    lemma_int_numeral_append_digits, BPLUS, BMINUS};
use crate::sexpr::{Atom, AtomKind, AtomKindV, AtomV, DataList, DataListV, List, Lit, LitV, Root,
    RootV, Sexpr, SexprKind, SexprKindV, SexprV, SynList, SynListV, view_lit, view_list,
    view_root, view_sexpr};
use crate::span::Span;
use crate::token::{Token, TokenKind};
use vstd::slice::{slice_subrange, slice_to_vec};

verus! {

/// Result of one expression production: the parsed tree and the next token
/// position, or the fault position and what was expected there.
pub ghost enum PRes {
    Done { sx: SexprV, next: int },
    Fail { at: int, exp: Expected },
}

/// Result of a delimited children sequence.
pub ghost enum IRes {
    Done { items: Seq<SexprV>, next: int },
    Fail { at: int, exp: Expected },
}

/// Result of a literal conversion.
pub ghost enum LRes {
    Val(LitV),
    Fail(Expected),
}

/// A grammar fault at a token index.
pub ghost struct PFault {
    pub at: int,
    pub exp: Expected,
}

/// A well-formed token stream: non-empty, spans ordered and in bounds, and
/// the end-of-input sentinel exactly at the last position.
pub open spec fn toks_wf(toks: Seq<Token>, n: int) -> bool {
    &&& toks.len() >= 1
    &&& forall|i: int|
        0 <= i < toks.len() ==> (#[trigger] toks[i]).span.start <= toks[i].span.end <= n
    &&& forall|i: int|
        0 <= i < toks.len() ==> (((#[trigger] toks[i]).kind == TokenKind::Eof) <==> i == toks.len()
            - 1)
}

/// The source slice a token covers.
pub open spec fn text_of(src: Seq<u8>, t: Token) -> Seq<u8> {
    src.subrange(t.span.start as int, t.span.end as int)
}

/// First position at or after `i` holding byte `c`, or the length.
pub open spec fn first_index_of(s: Seq<u8>, c: u8, i: int) -> int
    decreases s.len() - i when 0 <= i <= s.len()
{
    if i >= s.len() {
        s.len() as int
    } else if s[i] == c {
        i
    } else {
        first_index_of(s, c, i + 1)
    }
}

pub open spec fn quote_name() -> Seq<u8> {
    seq![113u8, 117u8, 111u8, 116u8, 101u8]
}

pub open spec fn quasiquote_name() -> Seq<u8> {
    seq![113u8, 117u8, 97u8, 115u8, 105u8, 113u8, 117u8, 111u8, 116u8, 101u8]
}

pub open spec fn unquote_name() -> Seq<u8> {
    seq![117u8, 110u8, 113u8, 117u8, 111u8, 116u8, 101u8]
}

pub open spec fn unquote_splicing_name() -> Seq<u8> {
    seq![
        117u8,
        110u8,
        113u8,
        117u8,
        111u8,
        116u8,
        101u8,
        45u8,
        115u8,
        112u8,
        108u8,
        105u8,
        99u8,
        105u8,
        110u8,
        103u8,
    ]
}

pub open spec fn varg_name() -> Seq<u8> {
    seq![118u8, 97u8, 114u8, 103u8]
}

pub open spec fn atom_sexpr(k: AtomKindV, span: Span) -> SexprV {
    SexprV { kind: SexprKindV::Atom(AtomV { kind: k, span }), span }
}

/// A quote-family node: a two-element code list whose synthesized head symbol
/// carries a zero-width span at the marker, the node spanning from the marker
/// to the end of the wrapped form.
pub open spec fn quote_wrap(name: Seq<u8>, marker: Token, inner: SexprV) -> SexprV {
    let zero = Span { start: marker.span.start, end: marker.span.start };
    let whole = Span { start: marker.span.start, end: inner.span.end };
    SexprV {
        kind: SexprKindV::SynList(
            SynListV { head: seq![atom_sexpr(AtomKindV::Sym(name), zero), inner], span: whole },
        ),
        span: whole,
    }
}

/// The value of a literal token, or the conversion fault. The lexer only
/// bounds the shape; the exact shape and the value are decided here, so a
/// lexically accepted literal whose text does not convert is a grammar fault.
pub open spec fn lit_of_token(src: Seq<u8>, t: Token) -> LRes {
    let s = text_of(src, t);
    match t.kind {
        TokenKind::Int => if is_int_numeral(s) {
            LRes::Val(LitV::Int(int_numeral_value(s)))
        } else {
            LRes::Fail(Expected::LiteralValue)
        },
        TokenKind::Real => {
            let d = first_index_of(s, DOT, 0);
            if d < s.len() && is_int_numeral(s.subrange(0, d)) && d + 1 < s.len() && all_digits(
                s.skip(d + 1),
            ) {
                LRes::Val(
                    LitV::Real {
                        mantissa: int_numeral_value(s.subrange(0, d) + s.skip(d + 1)),
                        scale: (s.len() - d - 1) as usize,
                    },
                )
            } else {
                LRes::Fail(Expected::LiteralValue)
            }
        },
        TokenKind::Rational => {
            let k = first_index_of(s, SLASH, 0);
            if k < s.len() && is_int_numeral(s.subrange(0, k)) && k + 1 < s.len() && all_digits(
                s.skip(k + 1),
            ) {
                let n0 = int_numeral_value(s.subrange(0, k));
                let d0 = digits_value(s.skip(k + 1));
                if d0 == 0 {
                    LRes::Fail(Expected::NonZeroDenominator)
                } else {
                    let g = gcd(int_abs(n0), d0);
                    LRes::Val(LitV::Rational { numer: n0 / g, denom: d0 / g })
                }
            } else {
                LRes::Fail(Expected::LiteralValue)
            }
        },
        TokenKind::Bool => if is_true_lexeme(s, 0, s.len() as int) {
            LRes::Val(LitV::Bool(true))
        } else if is_false_lexeme(s, 0, s.len() as int) {
            LRes::Val(LitV::Bool(false))
        } else {
            LRes::Fail(Expected::LiteralValue)
        },
        TokenKind::Str => if s.len() >= 2 && s[0] == DQUOTE && s[s.len() - 1] == DQUOTE {
            LRes::Val(LitV::Str(s.subrange(1, s.len() - 1)))
        } else {
            LRes::Fail(Expected::LiteralValue)
        },
        _ => LRes::Fail(Expected::LiteralValue),
    }
}

/// The names after the leading identifier of a dotted path: the longest run
/// of `.` `identifier` pairs starting at `pos`, and the position after it.
pub open spec fn p_path_rest(src: Seq<u8>, toks: Seq<Token>, pos: int) -> (Seq<Seq<u8>>, int)
    decreases toks.len() - pos, 0int when 0 <= pos <= toks.len()
{
    if pos + 1 < toks.len() && toks[pos].kind == TokenKind::Period && toks[pos + 1].kind
        == TokenKind::Ident {
        let (rest, nx) = p_path_rest(src, toks, pos + 2);
        (seq![text_of(src, toks[pos + 1])] + rest, nx)
    } else {
        (Seq::empty(), pos)
    }
}

/// One expression at `pos`, by the fixed production priority: variadic sugar,
/// the delimited lists, the quote family, then atoms (path before symbol
/// before literal).
pub open spec fn p_sexpr(src: Seq<u8>, toks: Seq<Token>, pos: int) -> PRes
    decreases toks.len() - pos, 2int when 0 <= pos < toks.len()
{
    let t = toks[pos];
    let n = toks.len() as int;
    match t.kind {
        TokenKind::Ident => {
            if pos + 1 < n && toks[pos + 1].kind == TokenKind::Ellipsis {
                let whole = Span { start: t.span.start, end: toks[pos + 1].span.end };
                let zero = Span { start: t.span.start, end: t.span.start };
                let head = atom_sexpr(AtomKindV::Sym(varg_name()), zero);
                let arg = atom_sexpr(AtomKindV::Sym(text_of(src, t)), t.span);
                PRes::Done {
                    sx: SexprV {
                        kind: SexprKindV::SynList(SynListV { head: seq![head, arg], span: whole }),
                        span: whole,
                    },
                    next: pos + 2,
                }
            } else if pos + 2 < n && toks[pos + 1].kind == TokenKind::Period && toks[pos + 2].kind
                == TokenKind::Ident {
                let (names, nx) = p_path_rest(src, toks, pos + 1);
                let whole = Span { start: t.span.start, end: toks[nx - 1].span.end };
                PRes::Done {
                    sx: atom_sexpr(AtomKindV::Path(seq![text_of(src, t)] + names), whole),
                    next: nx,
                }
            } else {
                PRes::Done { sx: atom_sexpr(AtomKindV::Sym(text_of(src, t)), t.span), next: pos + 1 }
            }
        },
        TokenKind::Int | TokenKind::Real | TokenKind::Rational | TokenKind::Bool
            | TokenKind::Str => match lit_of_token(src, t) {
            LRes::Val(lv) => PRes::Done {
                sx: atom_sexpr(AtomKindV::Lit(lv), t.span),
                next: pos + 1,
            },
            LRes::Fail(e) => PRes::Fail { at: pos, exp: e },
        },
        TokenKind::LParen => if pos + 1 < n {
            match p_sexpr(src, toks, pos + 1) {
                PRes::Fail { at, exp } => PRes::Fail { at, exp },
                PRes::Done { sx, next } => if pos + 1 < next < n {
                    match p_items(src, toks, next, TokenKind::RParen) {
                        IRes::Fail { at, exp } => PRes::Fail { at, exp },
                        IRes::Done { items, next: nx2 } => {
                            let whole = Span { start: t.span.start, end: toks[nx2 - 1].span.end };
                            PRes::Done {
                                sx: SexprV {
                                    kind: SexprKindV::SynList(
                                        SynListV { head: seq![sx] + items, span: whole },
                                    ),
                                    span: whole,
                                },
                                next: nx2,
                            }
                        },
                    }
                } else {
                    PRes::Fail { at: pos, exp: Expected::Form }
                },
            }
        } else {
            PRes::Fail { at: pos, exp: Expected::Form }
        },
        TokenKind::LBrack => if pos + 1 < n {
            match p_sexpr(src, toks, pos + 1) {
                PRes::Fail { at, exp } => PRes::Fail { at, exp },
                PRes::Done { sx, next } => if pos + 1 < next < n {
                    match p_items(src, toks, next, TokenKind::RBrack) {
                        IRes::Fail { at, exp } => PRes::Fail { at, exp },
                        IRes::Done { items, next: nx2 } => {
                            let whole = Span { start: t.span.start, end: toks[nx2 - 1].span.end };
                            PRes::Done {
                                sx: SexprV {
                                    kind: SexprKindV::DataList(
                                        DataListV { head: seq![sx] + items, span: whole },
                                    ),
                                    span: whole,
                                },
                                next: nx2,
                            }
                        },
                    }
                } else {
                    PRes::Fail { at: pos, exp: Expected::Form }
                },
            }
        } else {
            PRes::Fail { at: pos, exp: Expected::Form }
        },
        TokenKind::HashLBrack => if pos + 1 < n {
            match p_items(src, toks, pos + 1, TokenKind::RBrack) {
                IRes::Fail { at, exp } => PRes::Fail { at, exp },
                IRes::Done { items, next: nx2 } => {
                    let whole = Span { start: t.span.start, end: toks[nx2 - 1].span.end };
                    PRes::Done {
                        sx: SexprV { kind: SexprKindV::Vector(items), span: whole },
                        next: nx2,
                    }
                },
            }
        } else {
            PRes::Fail { at: pos, exp: Expected::Form }
        },
        TokenKind::Quote => if pos + 1 < n {
            match p_sexpr(src, toks, pos + 1) {
                PRes::Fail { at, exp } => PRes::Fail { at, exp },
                PRes::Done { sx, next } => PRes::Done { sx: quote_wrap(quote_name(), t, sx), next },
            }
        } else {
            PRes::Fail { at: pos, exp: Expected::Form }
        },
        TokenKind::Backquote => if pos + 1 < n {
            match p_sexpr(src, toks, pos + 1) {
                PRes::Fail { at, exp } => PRes::Fail { at, exp },
                PRes::Done { sx, next } => PRes::Done {
                    sx: quote_wrap(quasiquote_name(), t, sx),
                    next,
                },
            }
        } else {
            PRes::Fail { at: pos, exp: Expected::Form }
        },
        TokenKind::Comma => if pos + 1 < n {
            match p_sexpr(src, toks, pos + 1) {
                PRes::Fail { at, exp } => PRes::Fail { at, exp },
                PRes::Done { sx, next } => PRes::Done { sx: quote_wrap(unquote_name(), t, sx), next },
            }
        } else {
            PRes::Fail { at: pos, exp: Expected::Form }
        },
        TokenKind::CommaAt => if pos + 1 < n {
            match p_sexpr(src, toks, pos + 1) {
                PRes::Fail { at, exp } => PRes::Fail { at, exp },
                PRes::Done { sx, next } => PRes::Done {
                    sx: quote_wrap(unquote_splicing_name(), t, sx),
                    next,
                },
            }
        } else {
            PRes::Fail { at: pos, exp: Expected::Form }
        },
        _ => PRes::Fail { at: pos, exp: Expected::Form },
    }
}

/// The children of a delimited sequence up to and including the closing
/// token.
pub open spec fn p_items(src: Seq<u8>, toks: Seq<Token>, pos: int, close: TokenKind) -> IRes
    decreases toks.len() - pos, 3int when 0 <= pos < toks.len()
{
    if toks[pos].kind == close {
        IRes::Done { items: Seq::empty(), next: pos + 1 }
    } else {
        match p_sexpr(src, toks, pos) {
            PRes::Fail { at, exp } => IRes::Fail { at, exp },
            PRes::Done { sx, next } => if pos < next < toks.len() {
                match p_items(src, toks, next, close) {
                    IRes::Fail { at, exp } => IRes::Fail { at, exp },
                    IRes::Done { items, next: nx2 } => IRes::Done {
                        items: seq![sx] + items,
                        next: nx2,
                    },
                }
            } else {
                IRes::Fail { at: pos, exp: Expected::Form }
            },
        }
    }
}

/// The top production with recovery: each top-level form in sequence; after a
/// fault, parsing resumes just past the fault position, so later sibling
/// forms are still read.
pub open spec fn p_root(src: Seq<u8>, toks: Seq<Token>, pos: int) -> (Seq<SexprV>, Seq<PFault>)
    decreases toks.len() - pos when 0 <= pos
{
    if pos >= toks.len() || toks[pos].kind == TokenKind::Eof {
        (Seq::empty(), Seq::empty())
    } else {
        match p_sexpr(src, toks, pos) {
            PRes::Done { sx, next } => if pos < next <= toks.len() {
                let r = p_root(src, toks, next);
                (seq![sx] + r.0, r.1)
            } else {
                (Seq::empty(), Seq::empty())
            },
            PRes::Fail { at, exp } => {
                let want = if at + 1 > pos + 1 {
                    at + 1
                } else {
                    pos + 1
                };
                let resume = if want <= toks.len() {
                    want
                } else {
                    toks.len() as int
                };
                let r = p_root(src, toks, resume);
                (r.0, seq![PFault { at, exp }] + r.1)
            },
        }
    }
}

pub open spec fn has_lex_fault(toks: Seq<Token>) -> bool {
    exists|i: int| 0 <= i < toks.len() && toks[i].kind == TokenKind::Error
}

/// The lexical faults of a token sequence, one per error token, in order.
pub open spec fn lex_faults(toks: Seq<Token>) -> Seq<SyntaxError>
    decreases toks.len(),
{
    if toks.len() == 0 {
        Seq::empty()
    } else if toks[0].kind == TokenKind::Error {
        seq![SyntaxError::LexError(toks[0].span)] + lex_faults(toks.drop_first())
    } else {
        lex_faults(toks.drop_first())
    }
}

pub open spec fn eof_token(n: usize) -> Token {
    Token { kind: TokenKind::Eof, span: Span { start: n, end: n } }
}

pub open spec fn fault_to_error(toks: Seq<Token>, f: PFault) -> SyntaxError {
    SyntaxError::ParseError { span: toks[f.at].span, expected: f.exp, found: toks[f.at].kind }
}

proof fn lemma_lex_faults_nonempty(toks: Seq<Token>)
    ensures
        (lex_faults(toks).len() > 0) <==> has_lex_fault(toks),
    decreases toks.len(),
{
    if toks.len() == 0 {
    } else {
        lemma_lex_faults_nonempty(toks.drop_first());
        if toks[0].kind == TokenKind::Error {
        } else {
            if has_lex_fault(toks.drop_first()) {
                let i = choose|i: int|
                    0 <= i < toks.drop_first().len() && toks.drop_first()[i].kind
                        == TokenKind::Error;
                assert(toks[i + 1].kind == TokenKind::Error);
            }
            if has_lex_fault(toks) {
                let i = choose|i: int| 0 <= i < toks.len() && toks[i].kind == TokenKind::Error;
                assert(i != 0);
                assert(toks.drop_first()[i - 1].kind == TokenKind::Error);
            }
        }
    }
}

fn find_byte(s: &[u8], c: u8) -> (j: usize)
    ensures
        j as int == first_index_of(s@, c, 0),
        j <= s@.len(),
        j < s@.len() ==> s@[j as int] == c,
{
    let mut j: usize = 0;
    while j < s.len() && s[j] != c
        invariant
            j <= s@.len(),
            first_index_of(s@, c, 0) == first_index_of(s@, c, j as int),
        decreases s@.len() - j,
    {
        j += 1;
    }
    j
}

fn token_text(src: &[u8], t: Token) -> (v: Vec<u8>)
    requires
        t.span.start <= t.span.end <= src@.len(),
    ensures
        v@ == text_of(src@, t),
{
    slice_to_vec(slice_subrange(src, t.span.start, t.span.end))
}

/// Convert integer-numeral text to a big integer, stripping the `+` sign the
/// numeric library does not take.
fn parse_int_text(s: &[u8]) -> (b: BigInt)
    requires
        is_int_numeral(s@),
    ensures
        int_of(b) == int_numeral_value(s@),
{
    if s[0] == BPLUS {
        let s2 = slice_subrange(s, 1, s.len());
        assert(s2@ =~= s@.skip(1));
        big_int_from_decimal(s2)
    } else {
        big_int_from_decimal(s)
    }
}

/// Convert one literal token's text to its value, or report the conversion
/// fault.
fn parse_lit(src: &[u8], t: Token) -> (r: Result<Lit, Expected>)
    requires
        t.span.start <= t.span.end <= src@.len(),
    ensures
        match lit_of_token(src@, t) {
            LRes::Val(lv) => r is Ok && view_lit(r->Ok_0) == lv,
            LRes::Fail(e) => r is Err && r->Err_0 == e,
        },
{
    let s = slice_subrange(src, t.span.start, t.span.end);
    assert(s@ == text_of(src@, t));
    match t.kind {
        TokenKind::Int => {
            if s.len() == 0 {
                Err(Expected::LiteralValue)
            } else if (s[0] == BPLUS || s[0] == BMINUS) {
                let s2 = slice_subrange(s, 1, s.len());
                assert(s2@ =~= s@.skip(1));
                if s.len() > 1 && all_digits_exec(s2) {
                    Ok(Lit::Int(parse_int_text(s)))
                } else {
                    Err(Expected::LiteralValue)
                }
            } else if all_digits_exec(s) {
                Ok(Lit::Int(parse_int_text(s)))
            } else {
                Err(Expected::LiteralValue)
            }
        },
        TokenKind::Real => {
            let d = find_byte(s, DOT);
            if d < s.len() && d + 1 < s.len() {
                let ip = slice_subrange(s, 0, d);
                let fp = slice_subrange(s, d + 1, s.len());
                assert(ip@ =~= s@.subrange(0, d as int));
                assert(fp@ =~= s@.skip(d + 1));
                if is_int_numeral_exec(ip) && all_digits_exec(fp) {
                    let mut m = slice_to_vec(ip);
                    m.extend_from_slice(fp);
                    assert(m@ =~= s@.subrange(0, d as int) + s@.skip(d + 1));
                    proof {
                        lemma_int_numeral_append_digits(s@.subrange(0, d as int), s@.skip(d + 1));
                    }
                    let b = parse_int_text(m.as_slice());
                    Ok(Lit::Real { mantissa: b, scale: s.len() - d - 1 })
                } else {
                    Err(Expected::LiteralValue)
                }
            } else {
                Err(Expected::LiteralValue)
            }
        },
        TokenKind::Rational => {
            let k = find_byte(s, SLASH);
            if k < s.len() && k + 1 < s.len() {
                let np = slice_subrange(s, 0, k);
                let dp = slice_subrange(s, k + 1, s.len());
                assert(np@ =~= s@.subrange(0, k as int));
                assert(dp@ =~= s@.skip(k + 1));
                if is_int_numeral_exec(np) && all_digits_exec(dp) {
                    proof {
                        lemma_digits_value_bounds(dp@);
                    }
                    if all_zero_digits_exec(dp) {
                        Err(Expected::NonZeroDenominator)
                    } else {
                        let n = parse_int_text(np);
                        let d = parse_int_text(dp);
                        let r = big_rational_new(n, d);
                        Ok(Lit::Rational(r))
                    }
                } else {
                    Err(Expected::LiteralValue)
                }
            } else {
                Err(Expected::LiteralValue)
            }
        },
        TokenKind::Bool => {
            let is_true = s.len() == 4 && s[0] == 116 && s[1] == 114 && s[2] == 117 && s[3]
                == 101;
            if is_true {
                Ok(Lit::Bool(true))
            } else {
                let is_false = s.len() == 5 && s[0] == 102 && s[1] == 97 && s[2] == 108 && s[3]
                    == 115 && s[4] == 101;
                if is_false {
                    Ok(Lit::Bool(false))
                } else {
                    Err(Expected::LiteralValue)
                }
            }
        },
        TokenKind::Str => {
            if s.len() >= 2 && s[0] == DQUOTE && s[s.len() - 1] == DQUOTE {
                let body = slice_subrange(s, 1, s.len() - 1);
                assert(body@ =~= s@.subrange(1, s@.len() - 1));
                Ok(Lit::Str(slice_to_vec(body)))
            } else {
                Err(Expected::LiteralValue)
            }
        },
        _ => Err(Expected::LiteralValue),
    }
}

fn is_int_numeral_exec(s: &[u8]) -> (b: bool)
    ensures
        b == is_int_numeral(s@),
{
    if s.len() == 0 {
        false
    } else if s[0] == BPLUS || s[0] == BMINUS {
        if s.len() > 1 {
            let s2 = slice_subrange(s, 1, s.len());
            assert(s2@ =~= s@.skip(1));
            all_digits_exec(s2)
        } else {
            false
        }
    } else {
        all_digits_exec(s)
    }
}

/// A grammar fault: the token index where it was noticed and what was
/// expected there.
pub struct Fault {
    pub at: usize,
    pub exp: Expected,
}

fn sym_quote() -> (v: Vec<u8>)
    ensures
        v@ == quote_name(),
{
    let mut v: Vec<u8> = Vec::new();
    v.push(113);
    v.push(117);
    v.push(111);
    v.push(116);
    v.push(101);
    assert(v@ =~= quote_name());
    v
}

fn sym_quasiquote() -> (v: Vec<u8>)
    ensures
        v@ == quasiquote_name(),
{
    let mut v: Vec<u8> = Vec::new();
    v.push(113);
    v.push(117);
    v.push(97);
    v.push(115);
    v.push(105);
    v.push(113);
    v.push(117);
    v.push(111);
    v.push(116);
    v.push(101);
    assert(v@ =~= quasiquote_name());
    v
}

fn sym_unquote() -> (v: Vec<u8>)
    ensures
        v@ == unquote_name(),
{
    let mut v: Vec<u8> = Vec::new();
    v.push(117);
    v.push(110);
    v.push(113);
    v.push(117);
    v.push(111);
    v.push(116);
    v.push(101);
    assert(v@ =~= unquote_name());
    v
}

fn sym_unquote_splicing() -> (v: Vec<u8>)
    ensures
        v@ == unquote_splicing_name(),
{
    let mut v: Vec<u8> = Vec::new();
    v.push(117);
    v.push(110);
    v.push(113);
    v.push(117);
    v.push(111);
    v.push(116);
    v.push(101);
    v.push(45);
    v.push(115);
    v.push(112);
    v.push(108);
    v.push(105);
    v.push(99);
    v.push(105);
    v.push(110);
    v.push(103);
    assert(v@ =~= unquote_splicing_name());
    v
}

fn sym_varg() -> (v: Vec<u8>)
    ensures
        v@ == varg_name(),
{
    let mut v: Vec<u8> = Vec::new();
    v.push(118);
    v.push(97);
    v.push(114);
    v.push(103);
    assert(v@ =~= varg_name());
    v
}

fn make_sym(src: &[u8], t: Token) -> (s: Sexpr)
    requires
        t.span.start <= t.span.end <= src@.len(),
    ensures
        view_sexpr(s) == atom_sexpr(AtomKindV::Sym(text_of(src@, t)), t.span),
{
    let name = token_text(src, t);
    Sexpr::new(SexprKind::Atom(Atom::new(AtomKind::Sym(name), t.span)), t.span)
}

/// One expression production at `pos`: returns exactly what the grammar
/// specification `p_sexpr` derives there, consuming at least one token, or
/// its fault.
pub fn parse_sexpr(src: &[u8], toks: &Vec<Token>, pos: usize) -> (r: Result<(Sexpr, usize), Fault>)
    requires
        toks_wf(toks@, src@.len() as int),
        toks@.len() < usize::MAX,
        pos < toks@.len(),
    ensures
        r is Ok ==> p_sexpr(src@, toks@, pos as int) == (PRes::Done {
            sx: view_sexpr(r->Ok_0.0),
            next: r->Ok_0.1 as int,
        }) && pos < r->Ok_0.1 < toks@.len(),
        r is Err ==> p_sexpr(src@, toks@, pos as int) == (PRes::Fail {
            at: r->Err_0.at as int,
            exp: r->Err_0.exp,
        }) && pos <= r->Err_0.at < toks@.len(),
    decreases toks@.len() - pos, 2int,
{
    let t = toks[pos];
    match t.kind {
        TokenKind::Ident => {
            proof {
                assert(toks@[pos as int].kind != TokenKind::Eof);
                assert(pos as int != toks@.len() - 1);
            }
            let t1 = toks[pos + 1];
            if t1.kind == TokenKind::Ellipsis {
                let whole = Span { start: t.span.start, end: t1.span.end };
                let zero = Span { start: t.span.start, end: t.span.start };
                let head = Sexpr::new(
                    SexprKind::Atom(Atom::new(AtomKind::Sym(sym_varg()), zero)),
                    zero,
                );
                let arg = make_sym(src, t);
                let ghost hv = view_sexpr(head);
                let ghost av = view_sexpr(arg);
                let l = List::new().push_front(arg).push_front(head);
                proof {
                    assert(view_list(l) =~= seq![hv, av]);
                    assert(toks@[pos + 1].kind != TokenKind::Eof);
                    assert(pos + 1 != toks@.len() - 1);
                }
                let s = Sexpr::new(SexprKind::SynList(SynList::new(l, whole)), whole);
                Ok((s, pos + 2))
            } else if t1.kind == TokenKind::Period {
                proof {
                    assert(toks@[pos + 1].kind != TokenKind::Eof);
                    assert(pos + 1 != toks@.len() - 1);
                }
                let t2 = toks[pos + 2];
                if t2.kind == TokenKind::Ident {
                    let first = token_text(src, t);
                    let mut names: Vec<Vec<u8>> = Vec::new();
                    names.push(first);
                    let mut cur: usize = pos + 1;
                    let ghost target = p_path_rest(src@, toks@, pos + 1);
                    while cur + 1 < toks.len() && toks[cur].kind == TokenKind::Period && toks[cur
                        + 1].kind == TokenKind::Ident
                        invariant
                            toks_wf(toks@, src@.len() as int),
                            toks@.len() < usize::MAX,
                            pos + 1 <= cur <= toks@.len(),
                            names@.len() >= 1,
                            names@[0]@ == text_of(src@, toks@[pos as int]),
                            cur > pos + 1 ==> toks@[cur - 1].kind == TokenKind::Ident,
                            target == p_path_rest(src@, toks@, pos + 1),
                            target.0 == names@.skip(1).map_values(|x: Vec<u8>| x@) + p_path_rest(
                                src@,
                                toks@,
                                cur as int,
                            ).0,
                            target.1 == p_path_rest(src@, toks@, cur as int).1,
                        decreases toks@.len() - cur,
                    {
                        let tn = toks[cur + 1];
                        let ghost names0 = names@;
                        let ghost cur0 = cur as int;
                        let nm = token_text(src, tn);
                        names.push(nm);
                        cur = cur + 2;
                        proof {
                            assert(p_path_rest(src@, toks@, cur0) == (
                                seq![text_of(src@, toks@[cur0 + 1])] + p_path_rest(
                                    src@,
                                    toks@,
                                    cur0 + 2,
                                ).0,
                                p_path_rest(src@, toks@, cur0 + 2).1,
                            ));
                            assert(names@ =~= names0.push(nm));
                            assert(names@.skip(1) =~= names0.skip(1).push(nm));
                            assert(names@.skip(1).map_values(|x: Vec<u8>| x@) =~= names0.skip(
                                1,
                            ).map_values(|x: Vec<u8>| x@).push(nm@));
                            assert(target.0 =~= names@.skip(1).map_values(|x: Vec<u8>| x@)
                                + p_path_rest(src@, toks@, cur as int).0);
                        }
                    }
                    proof {
                        assert(p_path_rest(src@, toks@, cur as int).0 =~= Seq::<Seq<u8>>::empty());
                        assert(p_path_rest(src@, toks@, cur as int).1 == cur as int);
                        assert(target.0 =~= names@.skip(1).map_values(|x: Vec<u8>| x@));
                        assert(cur > pos + 1);
                        assert(toks@[cur - 1].kind != TokenKind::Eof);
                        assert(cur - 1 != toks@.len() - 1);
                        assert(seq![text_of(src@, toks@[pos as int])] + target.0 =~= names@
                            .map_values(|x: Vec<u8>| x@));
                    }
                    let whole = Span { start: t.span.start, end: toks[cur - 1].span.end };
                    let a = Sexpr::new(
                        SexprKind::Atom(Atom::new(AtomKind::Path(names), whole)),
                        whole,
                    );
                    Ok((a, cur))
                } else {
                    let s = make_sym(src, t);
                    Ok((s, pos + 1))
                }
            } else {
                let s = make_sym(src, t);
                Ok((s, pos + 1))
            }
        },
        TokenKind::Int | TokenKind::Real | TokenKind::Rational | TokenKind::Bool
            | TokenKind::Str => {
            proof {
                assert(toks@[pos as int].kind != TokenKind::Eof);
                assert(pos as int != toks@.len() - 1);
            }
            match parse_lit(src, t) {
                Ok(l) => {
                    let a = Sexpr::new(
                        SexprKind::Atom(Atom::new(AtomKind::Lit(l), t.span)),
                        t.span,
                    );
                    Ok((a, pos + 1))
                },
                Err(e) => Err(Fault { at: pos, exp: e }),
            }
        },
        TokenKind::LParen => {
            proof {
                assert(toks@[pos as int].kind != TokenKind::Eof);
                assert(pos as int != toks@.len() - 1);
            }
            match parse_sexpr(src, toks, pos + 1) {
                Err(f) => Err(f),
                Ok((sx, next)) => match parse_items(src, toks, next, TokenKind::RParen) {
                    Err(f) => Err(f),
                    Ok((items, nx2)) => {
                        let ghost sxv = view_sexpr(sx);
                        let ghost itemsv = items@.map_values(|s: Sexpr| view_sexpr(s));
                        let whole = Span { start: t.span.start, end: toks[nx2 - 1].span.end };
                        let l = List::from_vec(items).push_front(sx);
                        proof {
                            assert(view_list(l) =~= seq![sxv] + itemsv);
                        }
                        let s = Sexpr::new(SexprKind::SynList(SynList::new(l, whole)), whole);
                        Ok((s, nx2))
                    },
                },
            }
        },
        TokenKind::LBrack => {
            proof {
                assert(toks@[pos as int].kind != TokenKind::Eof);
                assert(pos as int != toks@.len() - 1);
            }
            match parse_sexpr(src, toks, pos + 1) {
                Err(f) => Err(f),
                Ok((sx, next)) => match parse_items(src, toks, next, TokenKind::RBrack) {
                    Err(f) => Err(f),
                    Ok((items, nx2)) => {
                        let ghost sxv = view_sexpr(sx);
                        let ghost itemsv = items@.map_values(|s: Sexpr| view_sexpr(s));
                        let whole = Span { start: t.span.start, end: toks[nx2 - 1].span.end };
                        let l = List::from_vec(items).push_front(sx);
                        proof {
                            assert(view_list(l) =~= seq![sxv] + itemsv);
                        }
                        let s = Sexpr::new(SexprKind::DataList(DataList::new(l, whole)), whole);
                        Ok((s, nx2))
                    },
                },
            }
        },
        TokenKind::HashLBrack => {
            proof {
                assert(toks@[pos as int].kind != TokenKind::Eof);
                assert(pos as int != toks@.len() - 1);
            }
            match parse_items(src, toks, pos + 1, TokenKind::RBrack) {
                Err(f) => Err(f),
                Ok((items, nx2)) => {
                    let ghost itemsv = items@.map_values(|s: Sexpr| view_sexpr(s));
                    let whole = Span { start: t.span.start, end: toks[nx2 - 1].span.end };
                    let l = List::from_vec(items);
                    let s = Sexpr::new(SexprKind::Vector(l), whole);
                    Ok((s, nx2))
                },
            }
        },
        TokenKind::Quote | TokenKind::Backquote | TokenKind::Comma | TokenKind::CommaAt => {
            proof {
                assert(toks@[pos as int].kind != TokenKind::Eof);
                assert(pos as int != toks@.len() - 1);
            }
            match parse_sexpr(src, toks, pos + 1) {
                Err(f) => Err(f),
                Ok((inner, next)) => {
                    let name: Vec<u8> = if t.kind == TokenKind::Quote {
                        sym_quote()
                    } else if t.kind == TokenKind::Backquote {
                        sym_quasiquote()
                    } else if t.kind == TokenKind::Comma {
                        sym_unquote()
                    } else {
                        sym_unquote_splicing()
                    };
                    let zero = Span { start: t.span.start, end: t.span.start };
                    let whole = Span { start: t.span.start, end: inner.span.end };
                    let head = Sexpr::new(
                        SexprKind::Atom(Atom::new(AtomKind::Sym(name), zero)),
                        zero,
                    );
                    let ghost hv = view_sexpr(head);
                    let ghost iv = view_sexpr(inner);
                    let l = List::new().push_front(inner).push_front(head);
                    proof {
                        assert(view_list(l) =~= seq![hv, iv]);
                    }
                    let s = Sexpr::new(SexprKind::SynList(SynList::new(l, whole)), whole);
                    Ok((s, next))
                },
            }
        },
        _ => Err(Fault { at: pos, exp: Expected::Form }),
    }
}

/// The children of a delimited sequence, up to and including the closing
/// token: exactly what `p_items` derives.
pub fn parse_items(src: &[u8], toks: &Vec<Token>, pos: usize, close: TokenKind) -> (r: Result<
    (Vec<Sexpr>, usize),
    Fault,
>)
    requires
        toks_wf(toks@, src@.len() as int),
        toks@.len() < usize::MAX,
        pos < toks@.len(),
        close == TokenKind::RParen || close == TokenKind::RBrack,
    ensures
        r is Ok ==> p_items(src@, toks@, pos as int, close) == (IRes::Done {
            items: r->Ok_0.0@.map_values(|s: Sexpr| view_sexpr(s)),
            next: r->Ok_0.1 as int,
        }) && pos < r->Ok_0.1 < toks@.len(),
        r is Err ==> p_items(src@, toks@, pos as int, close) == (IRes::Fail {
            at: r->Err_0.at as int,
            exp: r->Err_0.exp,
        }) && pos <= r->Err_0.at < toks@.len(),
    decreases toks@.len() - pos, 3int,
{
    let t = toks[pos];
    if t.kind == close {
        proof {
            assert(toks@[pos as int].kind != TokenKind::Eof);
            assert(pos as int != toks@.len() - 1);
        }
        let items: Vec<Sexpr> = Vec::new();
        proof {
            assert(items@.map_values(|s: Sexpr| view_sexpr(s)) =~= Seq::<SexprV>::empty());
        }
        Ok((items, pos + 1))
    } else {
        match parse_sexpr(src, toks, pos) {
            Err(f) => Err(f),
            Ok((sx, next)) => match parse_items(src, toks, next, close) {
                Err(f) => Err(f),
                Ok((items, nx2)) => {
                    let ghost items0 = items@;
                    let ghost sxv = view_sexpr(sx);
                    let mut items = items;
                    items.insert(0, sx);
                    proof {
                        assert(items@ =~= seq![sx].add(items0));
                        assert(items@.map_values(|s: Sexpr| view_sexpr(s)) =~= seq![sxv]
                            + items0.map_values(|s: Sexpr| view_sexpr(s)));
                    }
                    Ok((items, nx2))
                },
            },
        }
    }
}

/// Read one source: tokenize it wholly; on any lexical fault return no tree
/// and exactly the lexical faults, in order; otherwise parse every top-level
/// form with recovery, returning the tree of the forms that parsed and the
/// grammar faults that were found.
pub fn read(src: &[u8]) -> (r: (Option<Root>, Vec<SyntaxError>))
    requires
        src@.len() + 1 < usize::MAX,
    ensures
        ({
            let toks0 = scan_spec(src@, 0);
            if has_lex_fault(toks0) {
                r.0 is None && r.1@ == lex_faults(toks0)
            } else {
                let toks = toks0.push(eof_token(src@.len() as usize));
                let pr = p_root(src@, toks, 0);
                &&& r.0 is Some
                &&& view_root(r.0->0) == (RootV {
                    sexprs: pr.0,
                    span: Span { start: 0, end: src@.len() as usize },
                })
                &&& r.1@ == pr.1.map_values(|f: PFault| fault_to_error(toks, f))
            }
        }),
{
    let toks = scan(src);
    let mut errs: Vec<SyntaxError> = Vec::new();
    proof {
        assert(toks@.skip(0) =~= toks@);
        assert(lex_faults(toks@) =~= Seq::<SyntaxError>::empty() + lex_faults(toks@.skip(0)));
    }
    let mut i: usize = 0;
    while i < toks.len()
        invariant
            i <= toks@.len(),
            toks@ == scan_spec(src@, 0),
            lex_faults(toks@) =~= errs@ + lex_faults(toks@.skip(i as int)),
        decreases toks@.len() - i,
    {
        let ghost pre = toks@.skip(i as int);
        let t = toks[i];
        proof {
            assert(pre[0] == toks@[i as int]);
            assert(pre.drop_first() =~= toks@.skip(i + 1));
        }
        if t.kind == TokenKind::Error {
            let ghost errs0 = errs@;
            errs.push(SyntaxError::LexError(t.span));
            proof {
                assert(lex_faults(pre) =~= seq![SyntaxError::LexError(t.span)] + lex_faults(
                    toks@.skip(i + 1),
                ));
                assert(errs0 + lex_faults(pre) =~= errs@ + lex_faults(toks@.skip(i + 1)));
            }
        } else {
            proof {
                assert(lex_faults(pre) =~= lex_faults(toks@.skip(i + 1)));
            }
        }
        i += 1;
    }
    proof {
        assert(toks@.skip(toks@.len() as int) =~= Seq::<Token>::empty());
        assert(lex_faults(toks@) =~= errs@);
        lemma_lex_faults_nonempty(toks@);
    }
    if errs.len() > 0 {
        return (None, errs);
    }
    let mut toks = toks;
    let n = src.len();
    toks.push(Token { kind: TokenKind::Eof, span: Span { start: n, end: n } });
    proof {
        assert(toks@ == scan_spec(src@, 0).push(eof_token(src@.len() as usize)));
        assert forall|k: int|
            0 <= k < toks@.len() implies (#[trigger] toks@[k]).span.start <= toks@[k].span.end
            <= src@.len() by {
            if k < toks@.len() - 1 {
                assert(toks@[k] == scan_spec(src@, 0)[k]);
            }
        }
        assert forall|k: int|
            0 <= k < toks@.len() implies ((#[trigger] toks@[k]).kind == TokenKind::Eof) <==> k
            == toks@.len() - 1 by {
            if k < toks@.len() - 1 {
                assert(toks@[k] == scan_spec(src@, 0)[k]);
            }
        }
        assert(toks_wf(toks@, src@.len() as int));
    }
    proof {
        assert(toks@.len() < usize::MAX);
        assert(p_root(src@, toks@, 0).0 =~= Seq::<Sexpr>::empty().map_values(
            |s: Sexpr| view_sexpr(s),
        ) + p_root(src@, toks@, 0).0);
        assert(p_root(src@, toks@, 0).1.map_values(|f: PFault| fault_to_error(toks@, f)) =~= errs@
            + p_root(src@, toks@, 0).1.map_values(|f: PFault| fault_to_error(toks@, f)));
    }
    let mut sexprs: Vec<Sexpr> = Vec::new();
    let mut pos: usize = 0;
    while pos < toks.len() && toks[pos].kind != TokenKind::Eof
        invariant
            toks_wf(toks@, src@.len() as int),
            toks@.len() < usize::MAX,
            pos <= toks@.len(),
            p_root(src@, toks@, 0).0 =~= sexprs@.map_values(|s: Sexpr| view_sexpr(s)) + p_root(
                src@,
                toks@,
                pos as int,
            ).0,
            p_root(src@, toks@, 0).1.map_values(|f: PFault| fault_to_error(toks@, f)) =~= errs@
                + p_root(src@, toks@, pos as int).1.map_values(
                |f: PFault| fault_to_error(toks@, f),
            ),
        decreases toks@.len() - pos,
    {
        let ghost pos0 = pos as int;
        let ghost ss0 = sexprs@;
        let ghost errs0 = errs@;
        match parse_sexpr(src, &toks, pos) {
            Ok((sx, next)) => {
                let ghost sxv = view_sexpr(sx);
                sexprs.push(sx);
                pos = next;
                proof {
                    assert(p_root(src@, toks@, pos0) == (
                        seq![sxv] + p_root(src@, toks@, pos as int).0,
                        p_root(src@, toks@, pos as int).1,
                    ));
                    assert(sexprs@ =~= ss0.push(sx));
                    assert(sexprs@.map_values(|s: Sexpr| view_sexpr(s)) =~= ss0.map_values(
                        |s: Sexpr| view_sexpr(s),
                    ).push(sxv));
                    assert(p_root(src@, toks@, 0).0 =~= sexprs@.map_values(
                        |s: Sexpr| view_sexpr(s),
                    ) + p_root(src@, toks@, pos as int).0);
                }
            },
            Err(f) => {
                let ghost fv = PFault { at: f.at as int, exp: f.exp };
                errs.push(
                    SyntaxError::ParseError {
                        span: toks[f.at].span,
                        expected: f.exp,
                        found: toks[f.at].kind,
                    },
                );
                let want: usize = if f.at + 1 > pos + 1 {
                    f.at + 1
                } else {
                    pos + 1
                };
                pos = if want <= toks.len() {
                    want
                } else {
                    toks.len()
                };
                proof {
                    assert(p_root(src@, toks@, pos0) == (
                        p_root(src@, toks@, pos as int).0,
                        seq![fv] + p_root(src@, toks@, pos as int).1,
                    ));
                    assert(errs@ =~= errs0.push(fault_to_error(toks@, fv)));
                    assert((seq![fv] + p_root(src@, toks@, pos as int).1).map_values(
                        |f: PFault| fault_to_error(toks@, f),
                    ) =~= seq![fault_to_error(toks@, fv)] + p_root(src@, toks@, pos as int)
                        .1.map_values(|f: PFault| fault_to_error(toks@, f)));
                    assert(p_root(src@, toks@, 0).1.map_values(
                        |f: PFault| fault_to_error(toks@, f),
                    ) =~= errs@ + p_root(src@, toks@, pos as int).1.map_values(
                        |f: PFault| fault_to_error(toks@, f),
                    ));
                }
            },
        }
    }
    proof {
        assert(p_root(src@, toks@, pos as int) == (Seq::<SexprV>::empty(), Seq::<PFault>::empty()));
        assert(p_root(src@, toks@, 0).0 =~= sexprs@.map_values(|s: Sexpr| view_sexpr(s)));
        assert(p_root(src@, toks@, 0).1.map_values(|f: PFault| fault_to_error(toks@, f)) =~= errs@);
    }
    let root = Root::new(sexprs, Span { start: 0, end: n });
    (Some(root), errs)
}


} // verus!

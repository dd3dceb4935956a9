//! Laws of the reader, proved against the grammar specification that
//! `read`'s contract is stated over.

use vstd::prelude::*;
use crate::lexer::{digits_end, scan_spec, tok_at, is_ws, SEMI};
use crate::numerals::{canonical_decimal, int_numeral_value, is_digit, is_int_numeral,
    lemma_canonical_decimal, BPLUS, BMINUS};
use crate::reader::{atom_sexpr, eof_token, has_lex_fault, lit_of_token, p_root, p_sexpr, text_of,
    varg_name, LRes, PRes};
use crate::sexpr::{AtomKindV, LitV, SexprKindV, SexprV, SynListV};
use crate::span::Span;
use crate::token::{Token, TokenKind};

verus! {

proof fn lemma_digits_end_all(src: Seq<u8>, i: int)
    requires
        0 <= i <= src.len(),
        forall|k: int| i <= k < src.len() ==> is_digit(#[trigger] src[k]),
    ensures
        digits_end(src, i) == src.len(),
    decreases src.len() - i,
{
    if i < src.len() {
        lemma_digits_end_all(src, i + 1);
    }
}

/// Law: any input that consists of a single optionally signed decimal
/// integer numeral, of any magnitude, lexes without fault and reads as
/// exactly one integer-literal atom whose value is the numeral's
/// mathematical value.
pub proof fn lemma_read_int_numeral(src: Seq<u8>)
    requires
        is_int_numeral(src),
        src.len() <= usize::MAX,
    ensures
        !has_lex_fault(scan_spec(src, 0)),
        ({
            let toks = scan_spec(src, 0).push(eof_token(src.len() as usize));
            let pr = p_root(src, toks, 0);
            &&& pr.1 =~= Seq::empty()
            &&& pr.0 =~= seq![
                atom_sexpr(
                    AtomKindV::Lit(LitV::Int(int_numeral_value(src))),
                    Span { start: 0, end: src.len() as usize },
                ),
            ]
        }),
{
    let n = src.len() as int;
    let c = src[0];
    assert(is_digit(c) || c == BPLUS || c == BMINUS);
    assert(!is_ws(c) && c != SEMI);
    if is_digit(c) {
        lemma_digits_end_all(src, 0);
    } else {
        assert(src.len() > 1 && is_digit(src.skip(1)[0]));
        assert forall|k: int| 1 <= k < n implies is_digit(#[trigger] src[k]) by {
            assert(src.skip(1)[k - 1] == src[k]);
            assert(is_digit(src.skip(1)[k - 1]));
        }
        lemma_digits_end_all(src, 1);
    }
    assert(tok_at(src, 0) == (TokenKind::Int, n));
    let t = Token { kind: TokenKind::Int, span: Span { start: 0, end: src.len() as usize } };
    assert(scan_spec(src, n) =~= Seq::empty());
    assert(scan_spec(src, 0) =~= seq![t]);
    assert(!has_lex_fault(scan_spec(src, 0)));
    let toks = scan_spec(src, 0).push(eof_token(src.len() as usize));
    assert(toks =~= seq![t, eof_token(src.len() as usize)]);
    assert(text_of(src, t) =~= src);
    assert(lit_of_token(src, t) == LRes::Val(LitV::Int(int_numeral_value(src))));
    let sx = atom_sexpr(
        AtomKindV::Lit(LitV::Int(int_numeral_value(src))),
        Span { start: 0, end: src.len() as usize },
    );
    assert(p_sexpr(src, toks, 0) == PRes::Done { sx, next: 1int });
    assert(toks[1].kind == TokenKind::Eof);
    assert(p_root(src, toks, 1) == (Seq::<SexprV>::empty(), Seq::<crate::reader::PFault>::empty()));
    assert(p_root(src, toks, 0).0 =~= seq![sx]);
    assert(p_root(src, toks, 0).1 =~= Seq::<crate::reader::PFault>::empty());
}

/// Law: at an identifier token the reader takes the variadic desugaring
/// exactly when the very next token is the ellipsis, and a plain symbol atom
/// when the identifier stands alone; the two forms are never confused.
pub proof fn lemma_variadic_vs_symbol(src: Seq<u8>, toks: Seq<Token>, pos: int)
    requires
        0 <= pos,
        pos + 1 < toks.len(),
        toks[pos].kind == TokenKind::Ident,
    ensures
        toks[pos + 1].kind == TokenKind::Ellipsis ==> p_sexpr(src, toks, pos) == (PRes::Done {
            sx: SexprV {
                kind: SexprKindV::SynList(
                    SynListV {
                        head: seq![
                            atom_sexpr(
                                AtomKindV::Sym(varg_name()),
                                Span {
                                    start: toks[pos].span.start,
                                    end: toks[pos].span.start,
                                },
                            ),
                            atom_sexpr(AtomKindV::Sym(text_of(src, toks[pos])), toks[pos].span),
                        ],
                        span: Span {
                            start: toks[pos].span.start,
                            end: toks[pos + 1].span.end,
                        },
                    },
                ),
                span: Span { start: toks[pos].span.start, end: toks[pos + 1].span.end },
            },
            next: pos + 2,
        }),
        (toks[pos + 1].kind != TokenKind::Ellipsis && toks[pos + 1].kind != TokenKind::Period)
            ==> p_sexpr(src, toks, pos) == (PRes::Done {
            sx: atom_sexpr(AtomKindV::Sym(text_of(src, toks[pos])), toks[pos].span),
            next: pos + 1,
        }),
{
}

/// Law (round trip, integer literals): rendering any integer value to its
/// canonical decimal text and reading that text back yields exactly one
/// integer-literal atom holding the same value.
pub proof fn lemma_int_literal_round_trip(v: int)
    requires
        canonical_decimal(v).len() <= usize::MAX,
    ensures
        ({
            let txt = canonical_decimal(v);
            let toks = scan_spec(txt, 0).push(eof_token(txt.len() as usize));
            let pr = p_root(txt, toks, 0);
            &&& !has_lex_fault(scan_spec(txt, 0))
            &&& pr.1 =~= Seq::empty()
            &&& pr.0.len() == 1
            &&& pr.0[0] == atom_sexpr(
                AtomKindV::Lit(LitV::Int(v)),
                Span { start: 0, end: txt.len() as usize },
            )
        }),
{
    lemma_canonical_decimal(v);
    lemma_read_int_numeral(canonical_decimal(v));
}

} // verus!

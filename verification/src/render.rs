//! Rendering a tree back to source-like text, for diagnostics and
//! round-tripping: re-reading the rendered text gives a tree equal to the
//! original modulo spans.

use vstd::prelude::*;
use crate::bignum::int_of;
use crate::lexer::{BACKQUOTE, DOT, DQUOTE, HASH, LBRACK, LPAREN, NEWLINE, RBRACK, RPAREN, SLASH};
use crate::numerals::{canon_digits, canonical_decimal, lemma_canonical_decimal, B0, BMINUS};
use crate::bignum::{big_int_to_decimal, big_rational_denom, big_rational_numer, int_abs};
use crate::sexpr::{AtomKind, Lit, LitV, List, Root, Sexpr, SexprKind, view_lit};
use vstd::slice::slice_subrange;

verus! {

pub open spec fn zeros(n: int) -> Seq<u8>
    decreases n,
{
    if n <= 0 {
        Seq::empty()
    } else {
        seq![B0] + zeros(n - 1)
    }
}

proof fn lemma_zeros(n: int)
    requires
        n >= 0,
    ensures
        zeros(n).len() == n,
        forall|i: int| 0 <= i < n ==> zeros(n)[i] == B0,
    decreases n,
{
    if n > 0 {
        lemma_zeros(n - 1);
    }
}

pub open spec fn true_text() -> Seq<u8> {
    seq![116u8, 114u8, 117u8, 101u8]
}

pub open spec fn false_text() -> Seq<u8> {
    seq![102u8, 97u8, 108u8, 115u8, 101u8]
}

/// The textual form of an exact decimal real `m / 10^scale`: the digits of
/// `m` padded so a digit stands on each side of the point.
pub open spec fn render_real(m: int, scale: int) -> Seq<u8> {
    let raw = canon_digits(int_abs(m));
    let digs = if raw.len() >= scale + 1 {
        raw
    } else {
        zeros(scale + 1 - raw.len()) + raw
    };
    let cut = digs.len() - scale;
    (if m < 0 {
        seq![BMINUS]
    } else {
        Seq::empty()
    }) + digs.take(cut) + seq![DOT] + digs.skip(cut)
}

/// The textual form of a literal. A character literal has no surface syntax
/// in this reader, so it renders as a placeholder byte.
pub open spec fn render_lit(l: LitV) -> Seq<u8> {
    match l {
        LitV::Int(v) => canonical_decimal(v),
        LitV::Real { mantissa, scale } => render_real(mantissa, scale as int),
        LitV::Rational { numer, denom } => canonical_decimal(numer) + seq![SLASH]
            + canonical_decimal(denom),
        LitV::Bool(b) => if b {
            true_text()
        } else {
            false_text()
        },
        LitV::Str(s) => seq![DQUOTE] + s + seq![DQUOTE],
        LitV::Char(c) => seq![63u8],
    }
}

pub open spec fn render_path_rest(names: Seq<Seq<u8>>, i: int) -> Seq<u8>
    decreases names.len() - i when 0 <= i
{
    if i >= names.len() {
        Seq::empty()
    } else {
        seq![DOT] + names[i] + render_path_rest(names, i + 1)
    }
}

pub open spec fn render_atom_kind(k: AtomKind) -> Seq<u8> {
    match k {
        AtomKind::Sym(v) => v@,
        AtomKind::Path(p) => if p@.len() == 0 {
            Seq::empty()
        } else {
            p@[0]@ + render_path_rest(p@.map_values(|x: Vec<u8>| x@), 1)
        },
        AtomKind::Lit(l) => render_lit(view_lit(l)),
    }
}

pub open spec fn render_sexpr(s: Sexpr) -> Seq<u8>
    decreases s,
{
    render_kind(*s.kind)
}

pub open spec fn render_kind(k: SexprKind) -> Seq<u8>
    decreases k,
{
    match k {
        SexprKind::Atom(a) => render_atom_kind(*a.kind),
        SexprKind::SynList(sl) => seq![LPAREN] + render_items(sl.head) + seq![RPAREN],
        SexprKind::DataList(dl) => seq![LBRACK] + render_items(dl.head) + seq![RBRACK],
        SexprKind::Vector(l) => seq![HASH, LBRACK] + render_items(l) + seq![RBRACK],
    }
}

/// Children separated by single spaces.
pub open spec fn render_items(l: List) -> Seq<u8>
    decreases l,
{
    match l {
        List::Nil => Seq::empty(),
        List::Cons(s, rest) => match *rest {
            List::Nil => render_sexpr(*s),
            _ => render_sexpr(*s) + seq![32u8] + render_items(*rest),
        },
    }
}

pub open spec fn render_forms(v: Seq<Sexpr>, i: int) -> Seq<u8>
    decreases v.len() - i when 0 <= i
{
    if i >= v.len() {
        Seq::empty()
    } else {
        render_sexpr(v[i]) + seq![NEWLINE] + render_forms(v, i + 1)
    }
}

/// The textual form of a whole read: each top-level form on its own line.
pub open spec fn render_root(r: Root) -> Seq<u8> {
    render_forms(r.sexprs@, 0)
}

#[verifier::rlimit(60)]
fn render_lit_into(l: &Lit, out: &mut Vec<u8>)
    ensures
        final(out)@ == old(out)@ + render_lit(view_lit(*l)),
{
    match l {
        Lit::Int(b) => {
            let mut d = big_int_to_decimal(b);
            out.append(&mut d);
        },
        Lit::Real { mantissa, scale } => {
            let scale = *scale;
            let d = big_int_to_decimal(mantissa);
            proof {
                lemma_canonical_decimal(int_of(*mantissa));
            }
            let digits: &[u8] = if d[0] == BMINUS {
                out.push(BMINUS);
                slice_subrange(d.as_slice(), 1, d.len())
            } else {
                slice_subrange(d.as_slice(), 0, d.len())
            };
            proof {
                assert(digits@ =~= canon_digits(int_abs(int_of(*mantissa))));
            }
            let ghost m = int_of(*mantissa);
            let ghost raw = canon_digits(int_abs(m));
            let dl = digits.len();
            if dl > scale {
                let cut = dl - scale;
                let ip = slice_subrange(digits, 0, cut);
                let fp = slice_subrange(digits, cut, dl);
                out.extend_from_slice(ip);
                out.push(DOT);
                out.extend_from_slice(fp);
                proof {
                    assert(ip@ =~= raw.take(cut as int));
                    assert(fp@ =~= raw.skip(cut as int));
                    assert(final(out)@ =~= old(out)@ + render_real(m, scale as int));
                }
            } else {
                out.push(B0);
                out.push(DOT);
                push_zeros(out, scale - dl);
                out.extend_from_slice(digits);
                proof {
                    lemma_zeros(scale - dl);
                    lemma_zeros(scale + 1 - dl);
                    let digs = zeros(scale + 1 - raw.len()) + raw;
                    assert(digs.len() == scale + 1);
                    assert(digs.take(1) =~= seq![B0]);
                    assert(digs.skip(1) =~= zeros(scale - dl) + raw);
                    assert(final(out)@ =~= old(out)@ + render_real(m, scale as int));
                }
            }
        },
        Lit::Rational(r) => {
            let n = big_rational_numer(r);
            let d = big_rational_denom(r);
            let mut nd = big_int_to_decimal(&n);
            out.append(&mut nd);
            out.push(SLASH);
            let mut dd = big_int_to_decimal(&d);
            out.append(&mut dd);
        },
        Lit::Bool(b) => {
            if *b {
                out.push(116);
                out.push(114);
                out.push(117);
                out.push(101);
                proof {
                    assert(final(out)@ =~= old(out)@ + true_text());
                }
            } else {
                out.push(102);
                out.push(97);
                out.push(108);
                out.push(115);
                out.push(101);
                proof {
                    assert(final(out)@ =~= old(out)@ + false_text());
                }
            }
        },
        Lit::Str(s) => {
            out.push(DQUOTE);
            out.extend_from_slice(s.as_slice());
            out.push(DQUOTE);
            proof {
                assert(final(out)@ =~= old(out)@ + (seq![DQUOTE] + s@ + seq![DQUOTE]));
            }
        },
        Lit::Char(_) => {
            out.push(63);
        },
    }
}

fn push_zeros(out: &mut Vec<u8>, n: usize)
    ensures
        final(out)@ == old(out)@ + zeros(n as int),
{
    proof {
        lemma_zeros(n as int);
    }
    let mut k: usize = 0;
    while k < n
        invariant
            k <= n,
            zeros(n as int).len() == n,
            forall|i: int| 0 <= i < n ==> zeros(n as int)[i] == B0,
            out@.len() == old(out)@.len() + k,
            out@ =~= old(out)@ + zeros(n as int).take(k as int),
        decreases n - k,
    {
        out.push(B0);
        k += 1;
        proof {
            assert(zeros(n as int).take(k as int) =~= zeros(n as int).take(k - 1).push(B0));
            assert(out@ =~= old(out)@ + zeros(n as int).take(k as int));
        }
    }
    proof {
        assert(zeros(n as int).take(n as int) =~= zeros(n as int));
    }
}

fn render_atom_kind_into(k: &AtomKind, out: &mut Vec<u8>)
    ensures
        final(out)@ == old(out)@ + render_atom_kind(*k),
{
    match k {
        AtomKind::Sym(v) => {
            out.extend_from_slice(v.as_slice());
        },
        AtomKind::Path(p) => {
            if p.len() == 0 {
            } else {
                out.extend_from_slice(p[0].as_slice());
                let ghost names = p@.map_values(|x: Vec<u8>| x@);
                let mut j: usize = 1;
                while j < p.len()
                    invariant
                        1 <= j <= p@.len(),
                        names == p@.map_values(|x: Vec<u8>| x@),
                        out@ + render_path_rest(names, j as int) == old(out)@ + render_atom_kind(
                            *k,
                        ),
                    decreases p@.len() - j,
                {
                    out.push(DOT);
                    out.extend_from_slice(p[j].as_slice());
                    proof {
                        assert(render_path_rest(names, j as int) =~= seq![DOT] + names[j as int]
                            + render_path_rest(names, j + 1));
                        assert(names[j as int] == p@[j as int]@);
                    }
                    j += 1;
                }
                proof {
                    assert(render_path_rest(names, j as int) =~= Seq::<u8>::empty());
                    assert(out@ =~= out@ + Seq::<u8>::empty());
                }
            }
        },
        AtomKind::Lit(l) => {
            render_lit_into(l, out);
        },
    }
}

fn render_sexpr_into(s: &Sexpr, out: &mut Vec<u8>)
    ensures
        final(out)@ == old(out)@ + render_sexpr(*s),
    decreases *s,
{
    match &*s.kind {
        SexprKind::Atom(a) => {
            render_atom_kind_into(&a.kind, out);
        },
        SexprKind::SynList(sl) => {
            out.push(LPAREN);
            render_items_into(&sl.head, out);
            out.push(RPAREN);
        },
        SexprKind::DataList(dl) => {
            out.push(LBRACK);
            render_items_into(&dl.head, out);
            out.push(RBRACK);
        },
        SexprKind::Vector(l) => {
            out.push(HASH);
            out.push(LBRACK);
            render_items_into(l, out);
            out.push(RBRACK);
        },
    }
}

fn render_items_into(l: &List, out: &mut Vec<u8>)
    ensures
        final(out)@ == old(out)@ + render_items(*l),
    decreases *l,
{
    match l {
        List::Nil => {},
        List::Cons(s, rest) => {
            render_sexpr_into(s, out);
            match &**rest {
                List::Nil => {},
                _ => {
                    out.push(32);
                    render_items_into(rest, out);
                },
            }
        },
    }
}

/// Render a whole read back to text, one top-level form per line.
pub fn render(r: &Root) -> (out: Vec<u8>)
    ensures
        out@ == render_root(*r),
{
    let mut out: Vec<u8> = Vec::new();
    let mut j: usize = 0;
    while j < r.sexprs.len()
        invariant
            j <= r.sexprs@.len(),
            out@ + render_forms(r.sexprs@, j as int) == render_forms(r.sexprs@, 0),
        decreases r.sexprs@.len() - j,
    {
        render_sexpr_into(&r.sexprs[j], &mut out);
        out.push(NEWLINE);
        j += 1;
    }
    proof {
        assert(render_forms(r.sexprs@, j as int) =~= Seq::<u8>::empty());
        assert(out@ =~= out@ + Seq::<u8>::empty());
    }
    out
}

} // verus!

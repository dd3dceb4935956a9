//! The syntax tree: spanned symbolic expressions built by the reader, and
//! structural equality that ignores span values.

use vstd::prelude::*;
use num_bigint::BigInt;
use num_rational::BigRational;
use crate::bignum::{int_of, rat_denom, rat_numer, big_int_eq, big_rational_numer,
    big_rational_denom};
use crate::span::Span;

verus! {

/// A literal value: arbitrary-precision integer, exact decimal real
/// (`mantissa / 10^scale`), arbitrary-precision rational, boolean, string,
/// or character.
pub enum Lit {
    Int(BigInt),
    Real { mantissa: BigInt, scale: usize },
    Rational(BigRational),
    Bool(bool),
    Str(Vec<u8>),
    Char(char),
}

/// A leaf: a bare symbol, a dotted path of two or more names, or a literal.
pub enum AtomKind {
    Sym(Vec<u8>),
    Path(Vec<Vec<u8>>),
    Lit(Lit),
}

pub struct Atom {
    pub kind: Box<AtomKind>,
    pub span: Span,
}

/// Ordered sequence of child expressions with O(1) prepend, used to splice a
/// synthesized head symbol in front of already-parsed children.
pub enum List {
    Nil,
    Cons(Box<Sexpr>, Box<List>),
}

/// A parenthesized sequence: code (application or special form).
pub struct SynList {
    pub head: List,
    pub span: Span,
}

/// A bracketed sequence: a literal list value, distinct from code.
pub struct DataList {
    pub head: List,
    pub span: Span,
}

pub enum SexprKind {
    Atom(Atom),
    SynList(SynList),
    DataList(DataList),
    Vector(List),
}

pub struct Sexpr {
    pub kind: Box<SexprKind>,
    pub span: Span,
}

/// The ordered top-level forms of one source, with a span covering the whole
/// input.
pub struct Root {
    pub sexprs: Vec<Sexpr>,
    pub span: Span,
}

pub ghost enum LitV {
    Int(int),
    Real { mantissa: int, scale: usize },
    Rational { numer: int, denom: int },
    Bool(bool),
    Str(Seq<u8>),
    Char(char),
}

pub ghost enum AtomKindV {
    Sym(Seq<u8>),
    Path(Seq<Seq<u8>>),
    Lit(LitV),
}

pub ghost struct AtomV {
    pub kind: AtomKindV,
    pub span: Span,
}

pub ghost struct SynListV {
    pub head: Seq<SexprV>,
    pub span: Span,
}

pub ghost struct DataListV {
    pub head: Seq<SexprV>,
    pub span: Span,
}

pub ghost enum SexprKindV {
    Atom(AtomV),
    SynList(SynListV),
    DataList(DataListV),
    Vector(Seq<SexprV>),
}

pub ghost struct SexprV {
    pub kind: SexprKindV,
    pub span: Span,
}

pub ghost struct RootV {
    pub sexprs: Seq<SexprV>,
    pub span: Span,
}

pub open spec fn view_lit(l: Lit) -> LitV {
    match l {
        Lit::Int(b) => LitV::Int(int_of(b)),
        Lit::Real { mantissa, scale } => LitV::Real { mantissa: int_of(mantissa), scale },
        Lit::Rational(r) => LitV::Rational { numer: rat_numer(r), denom: rat_denom(r) },
        Lit::Bool(b) => LitV::Bool(b),
        Lit::Str(v) => LitV::Str(v@),
        Lit::Char(c) => LitV::Char(c),
    }
}

pub open spec fn view_atom_kind(k: AtomKind) -> AtomKindV {
    match k {
        AtomKind::Sym(v) => AtomKindV::Sym(v@),
        AtomKind::Path(p) => AtomKindV::Path(p@.map_values(|x: Vec<u8>| x@)),
        AtomKind::Lit(l) => AtomKindV::Lit(view_lit(l)),
    }
}

pub open spec fn view_atom(a: Atom) -> AtomV {
    AtomV { kind: view_atom_kind(*a.kind), span: a.span }
}

pub open spec fn view_list(l: List) -> Seq<SexprV>
    decreases l,
{
    match l {
        List::Nil => Seq::empty(),
        List::Cons(s, rest) => seq![view_sexpr(*s)] + view_list(*rest),
    }
}

pub open spec fn view_kind(k: SexprKind) -> SexprKindV
    decreases k,
{
    match k {
        SexprKind::Atom(a) => SexprKindV::Atom(view_atom(a)),
        SexprKind::SynList(sl) => SexprKindV::SynList(
            SynListV { head: view_list(sl.head), span: sl.span },
        ),
        SexprKind::DataList(dl) => SexprKindV::DataList(
            DataListV { head: view_list(dl.head), span: dl.span },
        ),
        SexprKind::Vector(l) => SexprKindV::Vector(view_list(l)),
    }
}

pub open spec fn view_sexpr(s: Sexpr) -> SexprV
    decreases s,
{
    SexprV { kind: view_kind(*s.kind), span: s.span }
}

pub open spec fn view_root(r: Root) -> RootV {
    RootV { sexprs: r.sexprs@.map_values(|s: Sexpr| view_sexpr(s)), span: r.span }
}

impl Atom {
    pub fn new(kind: AtomKind, span: Span) -> (a: Atom)
        ensures
            view_atom(a) == (AtomV { kind: view_atom_kind(kind), span }),
    {
        Atom { kind: Box::new(kind), span }
    }

    pub fn kind(&self) -> (k: &AtomKind)
        ensures
            view_atom_kind(*k) == view_atom(*self).kind,
    {
        &self.kind
    }

    pub fn span(&self) -> (s: &Span)
        ensures
            *s == self.span,
    {
        &self.span
    }
}

impl Sexpr {
    pub fn new(kind: SexprKind, span: Span) -> (s: Sexpr)
        ensures
            view_sexpr(s) == (SexprV { kind: view_kind(kind), span }),
    {
        Sexpr { kind: Box::new(kind), span }
    }

    pub fn kind(&self) -> (k: &SexprKind)
        ensures
            view_kind(*k) == view_sexpr(*self).kind,
    {
        &self.kind
    }

    pub fn span(&self) -> (s: &Span)
        ensures
            *s == self.span,
    {
        &self.span
    }
}

impl List {
    pub fn new() -> (l: List)
        ensures
            view_list(l) == Seq::<SexprV>::empty(),
    {
        List::Nil
    }

    /// O(1) prepend.
    pub fn push_front(self, s: Sexpr) -> (l: List)
        ensures
            view_list(l) == seq![view_sexpr(s)] + view_list(self),
    {
        List::Cons(Box::new(s), Box::new(self))
    }

    /// Moves the elements of a vector into a list, keeping their order.
    pub fn from_vec(v: Vec<Sexpr>) -> (l: List)
        ensures
            view_list(l) == v@.map_values(|s: Sexpr| view_sexpr(s)),
    {
        let ghost v0 = v@;
        let mut v = v;
        let mut l = List::Nil;
        while v.len() > 0
            invariant
                v@.map_values(|s: Sexpr| view_sexpr(s)) + view_list(l) == v0.map_values(
                    |s: Sexpr| view_sexpr(s),
                ),
            decreases v@.len(),
        {
            let ghost prev = v@;
            let ghost prev_l = view_list(l);
            let s = v.pop().unwrap();
            assert(prev.drop_last() =~= v@);
            l = List::Cons(Box::new(s), Box::new(l));
            assert(view_list(l) =~= seq![view_sexpr(s)] + prev_l);
            assert(prev.map_values(|s: Sexpr| view_sexpr(s)) =~= v@.map_values(
                |s: Sexpr| view_sexpr(s),
            ).push(view_sexpr(s)));
            assert(v@.map_values(|s: Sexpr| view_sexpr(s)) + view_list(l) =~= prev.map_values(
                |s: Sexpr| view_sexpr(s),
            ) + prev_l);
        }
        assert(v@.map_values(|s: Sexpr| view_sexpr(s)) =~= Seq::<SexprV>::empty());
        assert(view_list(l) =~= Seq::<SexprV>::empty() + view_list(l));
        l
    }

    pub fn len(&self) -> (n: usize)
        ensures
            n == view_list(*self).len() || view_list(*self).len() > usize::MAX,
    {
        let mut cur: &List = self;
        let mut n: usize = 0;
        loop
            invariant
                n + view_list(*cur).len() == view_list(*self).len() || view_list(
                    *self,
                ).len() > usize::MAX,
            decreases *cur,
        {
            match cur {
                List::Nil => {
                    return n;
                },
                List::Cons(_, rest) => {
                    if n == usize::MAX {
                        return n;
                    }
                    n += 1;
                    cur = rest;
                },
            }
        }
    }
}

impl Root {
    pub fn new(sexprs: Vec<Sexpr>, span: Span) -> (r: Root)
        ensures
            view_root(r) == (RootV {
                sexprs: sexprs@.map_values(|s: Sexpr| view_sexpr(s)),
                span,
            }),
    {
        Root { sexprs, span }
    }

    pub fn sexprs(&self) -> (v: &Vec<Sexpr>)
        ensures
            v@.map_values(|s: Sexpr| view_sexpr(s)) == view_root(*self).sexprs,
    {
        &self.sexprs
    }

    pub fn span(&self) -> (s: &Span)
        ensures
            *s == view_root(*self).span,
    {
        &self.span
    }
}

impl SynList {
    pub fn new(head: List, span: Span) -> (l: SynList)
        ensures
            view_kind(SexprKind::SynList(l)) == SexprKindV::SynList(
                SynListV { head: view_list(head), span },
            ),
    {
        SynList { head, span }
    }

    pub fn head(&self) -> (h: &List)
        ensures
            view_list(*h) == view_list(self.head),
    {
        &self.head
    }

    pub fn span(&self) -> (s: &Span)
        ensures
            *s == self.span,
    {
        &self.span
    }
}

impl DataList {
    pub fn new(head: List, span: Span) -> (l: DataList)
        ensures
            view_kind(SexprKind::DataList(l)) == SexprKindV::DataList(
                DataListV { head: view_list(head), span },
            ),
    {
        DataList { head, span }
    }

    pub fn head(&self) -> (h: &List)
        ensures
            view_list(*h) == view_list(self.head),
    {
        &self.head
    }

    pub fn span(&self) -> (s: &Span)
        ensures
            *s == self.span,
    {
        &self.span
    }
}

/// Structural equality of two trees ignoring every span value: same shapes,
/// same symbol and path names, same literal values.
pub open spec fn sexpr_eq_mod_span(a: Sexpr, b: Sexpr) -> bool
    decreases a,
{
    kind_eq_mod_span(*a.kind, *b.kind)
}

pub open spec fn kind_eq_mod_span(a: SexprKind, b: SexprKind) -> bool
    decreases a,
{
    match (a, b) {
        (SexprKind::Atom(x), SexprKind::Atom(y)) => view_atom_kind(*x.kind) == view_atom_kind(
            *y.kind,
        ),
        (SexprKind::SynList(x), SexprKind::SynList(y)) => list_eq_mod_span(x.head, y.head),
        (SexprKind::DataList(x), SexprKind::DataList(y)) => list_eq_mod_span(x.head, y.head),
        (SexprKind::Vector(x), SexprKind::Vector(y)) => list_eq_mod_span(x, y),
        _ => false,
    }
}

pub open spec fn list_eq_mod_span(a: List, b: List) -> bool
    decreases a,
{
    match (a, b) {
        (List::Nil, List::Nil) => true,
        (List::Cons(x, xs), List::Cons(y, ys)) => sexpr_eq_mod_span(*x, *y) && list_eq_mod_span(
            *xs,
            *ys,
        ),
        _ => false,
    }
}

pub open spec fn root_eq_mod_span(a: Root, b: Root) -> bool {
    &&& a.sexprs@.len() == b.sexprs@.len()
    &&& forall|i: int|
        0 <= i < a.sexprs@.len() ==> sexpr_eq_mod_span(#[trigger] a.sexprs@[i], b.sexprs@[i])
}

pub fn bytes_eq(a: &[u8], b: &[u8]) -> (r: bool)
    ensures
        r == (a@ == b@),
{
    if a.len() != b.len() {
        return false;
    }
    let mut k: usize = 0;
    while k < a.len()
        invariant
            a@.len() == b@.len(),
            k <= a@.len(),
            forall|i: int| 0 <= i < k ==> a@[i] == b@[i],
        decreases a@.len() - k,
    {
        if a[k] != b[k] {
            return false;
        }
        k += 1;
    }
    proof {
        assert(a@ =~= b@);
    }
    true
}

fn path_eq(a: &Vec<Vec<u8>>, b: &Vec<Vec<u8>>) -> (r: bool)
    ensures
        r == (a@.map_values(|x: Vec<u8>| x@) == b@.map_values(|x: Vec<u8>| x@)),
{
    if a.len() != b.len() {
        assert(a@.map_values(|x: Vec<u8>| x@).len() != b@.map_values(|x: Vec<u8>| x@).len());
        return false;
    }
    let mut k: usize = 0;
    while k < a.len()
        invariant
            a@.len() == b@.len(),
            k <= a@.len(),
            forall|i: int| 0 <= i < k ==> a@[i]@ == b@[i]@,
        decreases a@.len() - k,
    {
        if !bytes_eq(a[k].as_slice(), b[k].as_slice()) {
            assert(a@.map_values(|x: Vec<u8>| x@)[k as int] != b@.map_values(|x: Vec<u8>| x@)[k as int]);
            return false;
        }
        k += 1;
    }
    proof {
        assert(a@.map_values(|x: Vec<u8>| x@) =~= b@.map_values(|x: Vec<u8>| x@));
    }
    true
}

fn lit_eq(a: &Lit, b: &Lit) -> (r: bool)
    ensures
        r == (view_lit(*a) == view_lit(*b)),
{
    match (a, b) {
        (Lit::Int(x), Lit::Int(y)) => big_int_eq(x, y),
        (Lit::Real { mantissa: mx, scale: sx }, Lit::Real { mantissa: my, scale: sy }) => {
            let meq = big_int_eq(mx, my);
            meq && sx == sy
        },
        (Lit::Rational(x), Lit::Rational(y)) => {
            let nx = big_rational_numer(x);
            let ny = big_rational_numer(y);
            let dx = big_rational_denom(x);
            let dy = big_rational_denom(y);
            let neq = big_int_eq(&nx, &ny);
            let deq = big_int_eq(&dx, &dy);
            neq && deq
        },
        (Lit::Bool(x), Lit::Bool(y)) => x == y,
        (Lit::Str(x), Lit::Str(y)) => bytes_eq(x.as_slice(), y.as_slice()),
        (Lit::Char(x), Lit::Char(y)) => x == y,
        _ => false,
    }
}

fn atom_kind_eq(a: &AtomKind, b: &AtomKind) -> (r: bool)
    ensures
        r == (view_atom_kind(*a) == view_atom_kind(*b)),
{
    match (a, b) {
        (AtomKind::Sym(x), AtomKind::Sym(y)) => bytes_eq(x.as_slice(), y.as_slice()),
        (AtomKind::Path(x), AtomKind::Path(y)) => path_eq(x, y),
        (AtomKind::Lit(x), AtomKind::Lit(y)) => lit_eq(x, y),
        _ => false,
    }
}

/// Decides structural equality of two expressions ignoring spans.
pub fn sexpr_eq_modulo_span(a: &Sexpr, b: &Sexpr) -> (r: bool)
    ensures
        r == sexpr_eq_mod_span(*a, *b),
    decreases *a,
{
    match (&*a.kind, &*b.kind) {
        (SexprKind::Atom(x), SexprKind::Atom(y)) => atom_kind_eq(&x.kind, &y.kind),
        (SexprKind::SynList(x), SexprKind::SynList(y)) => list_eq_modulo_span(&x.head, &y.head),
        (SexprKind::DataList(x), SexprKind::DataList(y)) => list_eq_modulo_span(&x.head, &y.head),
        (SexprKind::Vector(x), SexprKind::Vector(y)) => list_eq_modulo_span(x, y),
        _ => false,
    }
}

pub fn list_eq_modulo_span(a: &List, b: &List) -> (r: bool)
    ensures
        r == list_eq_mod_span(*a, *b),
    decreases *a,
{
    match (a, b) {
        (List::Nil, List::Nil) => true,
        (List::Cons(x, xs), List::Cons(y, ys)) => {
            let first = sexpr_eq_modulo_span(x, y);
            first && list_eq_modulo_span(xs, ys)
        },
        _ => false,
    }
}

/// Decides structural equality of two whole reads ignoring spans.
pub fn root_eq_modulo_span(a: &Root, b: &Root) -> (r: bool)
    ensures
        r == root_eq_mod_span(*a, *b),
{
    if a.sexprs.len() != b.sexprs.len() {
        return false;
    }
    let mut k: usize = 0;
    while k < a.sexprs.len()
        invariant
            a.sexprs@.len() == b.sexprs@.len(),
            k <= a.sexprs@.len(),
            forall|i: int| 0 <= i < k ==> sexpr_eq_mod_span(#[trigger] a.sexprs@[i], b.sexprs@[i]),
        decreases a.sexprs@.len() - k,
    {
        if !sexpr_eq_modulo_span(&a.sexprs[k], &b.sexprs[k]) {
            return false;
        }
        k += 1;
    }
    true
}

} // verus!

use lust_syntax::error::{Expected, SyntaxError};
use lust_syntax::reader::read;
use lust_syntax::render::render;
use lust_syntax::sexpr::{root_eq_modulo_span, AtomKind, Lit, List, Root, Sexpr, SexprKind};
use lust_syntax::span::Span;
use lust_syntax::token::TokenKind;
use num_bigint::BigInt;

fn read_ok(src: &str) -> Root {
    let (root, errs) = read(src.as_bytes());
    assert!(errs.is_empty(), "unexpected errors for {:?}: {:?}", src, errs);
    root.expect("no tree")
}

fn children(s: &Sexpr) -> Vec<&Sexpr> {
    let mut out = Vec::new();
    let mut cur: &List = match &*s.kind {
        SexprKind::SynList(l) => &l.head,
        SexprKind::DataList(l) => &l.head,
        SexprKind::Vector(l) => l,
        _ => panic!("not a sequence form"),
    };
    loop {
        match cur {
            List::Nil => return out,
            List::Cons(x, rest) => {
                out.push(&**x);
                cur = rest;
            }
        }
    }
}

fn sym_name(s: &Sexpr) -> Vec<u8> {
    match &*s.kind {
        SexprKind::Atom(a) => match &*a.kind {
            AtomKind::Sym(v) => v.clone(),
            _ => panic!("not a symbol"),
        },
        _ => panic!("not an atom"),
    }
}

fn int_value(s: &Sexpr) -> BigInt {
    match &*s.kind {
        SexprKind::Atom(a) => match &*a.kind {
            AtomKind::Lit(Lit::Int(b)) => b.clone(),
            _ => panic!("not an integer literal"),
        },
        _ => panic!("not an atom"),
    }
}

fn round_trips(src: &str) {
    let first = read_ok(src);
    let text = render(&first);
    let again = read_ok(std::str::from_utf8(&text).unwrap());
    assert!(
        root_eq_modulo_span(&first, &again),
        "round trip changed the tree for {:?} (rendered {:?})",
        src,
        String::from_utf8_lossy(&text)
    );
}

#[test]
fn read_int() {
    let src = "42";
    let (root, errs) = read(src.as_bytes());
    if !errs.is_empty() {
        panic!("{:?}", errs);
    }
    let root = root.unwrap();
    assert_eq!(root.sexprs().len(), 1);
    assert_eq!(int_value(&root.sexprs()[0]), BigInt::from(42));
    assert_eq!(render(&root), b"42\n".to_vec());
}

#[test]
fn read_list() {
    let src = "(1 2 3)";
    let (root, errs) = read(src.as_bytes());
    if !errs.is_empty() {
        panic!("{:?}", errs);
    }
    let root = root.unwrap();
    assert_eq!(root.sexprs().len(), 1);
    let kids = children(&root.sexprs()[0]);
    assert_eq!(kids.len(), 3);
    for (i, k) in kids.iter().enumerate() {
        assert_eq!(int_value(k), BigInt::from(i as i64 + 1));
    }
    match &*root.sexprs()[0].kind {
        SexprKind::SynList(l) => assert_eq!(l.head().len(), 3),
        _ => panic!("not a code list"),
    }
    assert_eq!(render(&root), b"(1 2 3)\n".to_vec());
}

#[test]
fn huge_integer_exact_value() {
    let src = "123456789012345678901234567890123456789012345";
    let root = read_ok(src);
    let expected = BigInt::parse_bytes(src.as_bytes(), 10).unwrap();
    assert_eq!(int_value(&root.sexprs()[0]), expected);
    assert_eq!(render(&root), format!("{}\n", src).into_bytes());
}

#[test]
fn signed_integers_read_by_value() {
    let neg = read_ok("-12345678901234567890");
    assert_eq!(
        int_value(&neg.sexprs()[0]),
        BigInt::parse_bytes(b"-12345678901234567890", 10).unwrap()
    );
    let plus = read_ok("+17");
    let plain = read_ok("17");
    assert!(root_eq_modulo_span(&plus, &plain));
    let other = read_ok("18");
    assert!(!root_eq_modulo_span(&plus, &other));
    assert_eq!(render(&plus), b"17\n".to_vec());
}

#[test]
fn quote_matches_spelled_out_form() {
    let sugar = read_ok("'x");
    let plain = read_ok("(quote x)");
    assert!(root_eq_modulo_span(&sugar, &plain));
}

#[test]
fn quote_spans_are_synthesized() {
    let root = read_ok("'x");
    let form = &root.sexprs()[0];
    assert_eq!(form.span, Span { start: 0, end: 2 });
    let kids = children(form);
    assert_eq!(kids.len(), 2);
    assert_eq!(kids[0].span, Span { start: 0, end: 0 });
    assert_eq!(sym_name(kids[0]), b"quote".to_vec());
    assert_eq!(kids[1].span, Span { start: 1, end: 2 });
    assert_eq!(sym_name(kids[1]), b"x".to_vec());
}

#[test]
fn quasiquote_family_structure() {
    let root = read_ok("`(a ,b ,@c)");
    assert_eq!(root.sexprs().len(), 1);
    let outer = children(&root.sexprs()[0]);
    assert_eq!(outer.len(), 2);
    assert_eq!(sym_name(outer[0]), b"quasiquote".to_vec());
    let inner = children(outer[1]);
    assert_eq!(inner.len(), 3);
    assert_eq!(sym_name(inner[0]), b"a".to_vec());
    let uq = children(inner[1]);
    assert_eq!(sym_name(uq[0]), b"unquote".to_vec());
    assert_eq!(sym_name(uq[1]), b"b".to_vec());
    let uqs = children(inner[2]);
    assert_eq!(sym_name(uqs[0]), b"unquote-splicing".to_vec());
    assert_eq!(sym_name(uqs[1]), b"c".to_vec());
}

#[test]
fn variadic_and_symbol_never_confused() {
    let varg = read_ok("foo...");
    let kids = children(&varg.sexprs()[0]);
    assert_eq!(kids.len(), 2);
    assert_eq!(sym_name(kids[0]), b"varg".to_vec());
    assert_eq!(sym_name(kids[1]), b"foo".to_vec());
    let plain = read_ok("foo");
    assert_eq!(sym_name(&plain.sexprs()[0]), b"foo".to_vec());
    assert!(!root_eq_modulo_span(&varg, &plain));
}

#[test]
fn data_list_and_vector_are_distinct() {
    let dl = read_ok("[1 2 3]");
    assert!(matches!(&*dl.sexprs()[0].kind, SexprKind::DataList(_)));
    let dk = children(&dl.sexprs()[0]);
    assert_eq!(dk.len(), 3);
    for (i, k) in dk.iter().enumerate() {
        assert_eq!(int_value(k), BigInt::from(i as i64 + 1));
    }
    let v = read_ok("#[1 2 3]");
    assert!(matches!(&*v.sexprs()[0].kind, SexprKind::Vector(_)));
    assert_eq!(children(&v.sexprs()[0]).len(), 3);
    assert!(!root_eq_modulo_span(&dl, &v));
}

#[test]
fn empty_vector_is_legal_empty_list_is_not() {
    let v = read_ok("#[]");
    assert!(matches!(&*v.sexprs()[0].kind, SexprKind::Vector(_)));
    assert_eq!(children(&v.sexprs()[0]).len(), 0);

    let (root, errs) = read(b"()");
    let root = root.expect("tree is still produced");
    assert_eq!(root.sexprs().len(), 0);
    assert_eq!(errs.len(), 1);
    match &errs[0] {
        SyntaxError::ParseError { expected, found, .. } => {
            assert_eq!(*expected, Expected::Form);
            assert_eq!(*found, TokenKind::RParen);
        }
        e => panic!("wrong error: {:?}", e),
    }
}

#[test]
fn paths_keep_their_names_in_order() {
    let root = read_ok("a.b.c");
    assert_eq!(root.sexprs().len(), 1);
    match &*root.sexprs()[0].kind {
        SexprKind::Atom(a) => match &*a.kind {
            AtomKind::Path(names) => {
                let names: Vec<&[u8]> = names.iter().map(|n| n.as_slice()).collect();
                assert_eq!(names, vec![b"a".as_slice(), b"b".as_slice(), b"c".as_slice()]);
            }
            k => panic!("not a path: {:?}", std::mem::discriminant(k)),
        },
        _ => panic!("not an atom"),
    }
    let root4 = read_ok("a.b.c.d");
    match &*root4.sexprs()[0].kind {
        SexprKind::Atom(a) => match &*a.kind {
            AtomKind::Path(names) => assert_eq!(names.len(), 4),
            _ => panic!("not a path"),
        },
        _ => panic!("not an atom"),
    }
}

#[test]
fn one_unscannable_character_aborts_with_one_fault() {
    let (root, errs) = read(b"ab @ cd");
    assert!(root.is_none());
    assert_eq!(errs.len(), 1);
    assert_eq!(errs[0], SyntaxError::LexError(Span { start: 3, end: 4 }));
}

#[test]
fn two_unscannable_ranges_give_two_faults() {
    let (root, errs) = read(b"@ x @");
    assert!(root.is_none());
    assert_eq!(
        errs,
        vec![
            SyntaxError::LexError(Span { start: 0, end: 1 }),
            SyntaxError::LexError(Span { start: 4, end: 5 }),
        ]
    );
}

#[test]
fn unterminated_string_is_a_lex_fault() {
    let (root, errs) = read(b"\"abc");
    assert!(root.is_none());
    assert_eq!(errs, vec![SyntaxError::LexError(Span { start: 0, end: 4 })]);
}

#[test]
fn recovery_keeps_later_forms() {
    let (root, errs) = read(b"(1 2] 3");
    assert!(!errs.is_empty());
    let root = root.expect("tree is still produced");
    assert_eq!(root.sexprs().len(), 1);
    assert_eq!(int_value(&root.sexprs()[0]), BigInt::from(3));
}

#[test]
fn zero_denominator_is_a_conversion_fault() {
    let (root, errs) = read(b"1/0");
    assert!(root.is_some());
    assert_eq!(errs.len(), 1);
    match &errs[0] {
        SyntaxError::ParseError { span, expected, found } => {
            assert_eq!(*span, Span { start: 0, end: 3 });
            assert_eq!(*expected, Expected::NonZeroDenominator);
            assert_eq!(*found, TokenKind::Rational);
        }
        e => panic!("wrong error: {:?}", e),
    }
}

#[test]
fn rationals_are_reduced() {
    let a = read_ok("2/4");
    let b = read_ok("1/2");
    assert!(root_eq_modulo_span(&a, &b));
    assert_eq!(render(&a), b"1/2\n".to_vec());
    let c = read_ok("-10/4");
    assert_eq!(render(&c), b"-5/2\n".to_vec());
}

#[test]
fn reals_keep_mantissa_and_scale() {
    let root = read_ok("3.14");
    match &*root.sexprs()[0].kind {
        SexprKind::Atom(a) => match &*a.kind {
            AtomKind::Lit(Lit::Real { mantissa, scale }) => {
                assert_eq!(*mantissa, BigInt::from(314));
                assert_eq!(*scale, 2);
            }
            _ => panic!("not a real literal"),
        },
        _ => panic!("not an atom"),
    }
    assert_eq!(render(&root), b"3.14\n".to_vec());
    let small = read_ok("-0.005");
    assert_eq!(render(&small), b"-0.005\n".to_vec());
}

#[test]
fn booleans_and_strings_read_by_value() {
    let root = read_ok("true false \"hi there\"");
    let forms = root.sexprs();
    assert_eq!(forms.len(), 3);
    assert!(matches!(
        &*forms[0].kind,
        SexprKind::Atom(a) if matches!(&*a.kind, AtomKind::Lit(Lit::Bool(true)))
    ));
    assert!(matches!(
        &*forms[1].kind,
        SexprKind::Atom(a) if matches!(&*a.kind, AtomKind::Lit(Lit::Bool(false)))
    ));
    match &*forms[2].kind {
        SexprKind::Atom(a) => match &*a.kind {
            AtomKind::Lit(Lit::Str(s)) => assert_eq!(s, &b"hi there".to_vec()),
            _ => panic!("not a string"),
        },
        _ => panic!("not an atom"),
    }
}

#[test]
fn comments_and_whitespace_carry_no_token() {
    let root = read_ok("; a comment\n  42 ; trailing\n");
    assert_eq!(root.sexprs().len(), 1);
    assert_eq!(int_value(&root.sexprs()[0]), BigInt::from(42));
}

#[test]
fn empty_input_reads_to_empty_root() {
    let (root, errs) = read(b"");
    assert!(errs.is_empty());
    let root = root.unwrap();
    assert_eq!(root.sexprs().len(), 0);
    assert_eq!(root.span, Span { start: 0, end: 0 });
}

#[test]
fn round_trip_all_forms() {
    for src in [
        "'x",
        "`(a ,b ,@c)",
        "(quote x)",
        "[1 2 3]",
        "#[]",
        "#[1 [2 3] x.y]",
        "\"hi there\"",
        "12.50",
        "-0.005",
        "2/4",
        "-10/4",
        "true",
        "false",
        "foo...",
        "a.b.c.d",
        "123456789012345678901234567890",
        "(f (g [x y.z] #[\"s\" 1/3]) 'k)",
    ] {
        round_trips(src);
    }
}

#[test]
fn reader_error_keeps_its_message() {
    let e = lust_syntax::error::ReaderError::new("unexpected end of input");
    assert_eq!(e.0, "unexpected end of input".to_string());
    assert_eq!(e, lust_syntax::error::ReaderError::new("unexpected end of input"));
}

#[test]
fn interner_deduplicates_text() {
    let mut it = lust_syntax::intern::Interner::new();
    let a = it.intern(b"foo");
    let b = it.intern(b"bar");
    let c = it.intern(b"foo");
    assert_eq!(a, c);
    assert_ne!(a, b);
    assert_eq!(it.resolve(a), &b"foo".to_vec());
    assert_eq!(it.resolve(b), &b"bar".to_vec());
}

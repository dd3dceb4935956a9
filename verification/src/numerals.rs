//! Decimal numeral text: which byte sequences are numerals, what integer they
//! denote, and the canonical decimal rendering of an integer.

use vstd::prelude::*;

verus! {

/// Byte values of the characters the numeral rules read.
pub const B0: u8 = 48;

pub const B9: u8 = 57;

pub const BPLUS: u8 = 43;

pub const BMINUS: u8 = 45;

pub open spec fn is_digit(c: u8) -> bool {
    B0 <= c <= B9
}

pub open spec fn all_digits(s: Seq<u8>) -> bool {
    forall|i: int| 0 <= i < s.len() ==> is_digit(#[trigger] s[i])
}

/// The integer denoted by a string of decimal digit bytes.
pub open spec fn digits_value(s: Seq<u8>) -> int
    decreases s.len(),
{
    if s.len() == 0 {
        0
    } else {
        digits_value(s.drop_last()) * 10 + (s.last() - B0)
    }
}

/// An integer numeral: an optional sign byte followed by at least one digit.
pub open spec fn is_int_numeral(s: Seq<u8>) -> bool {
    if s.len() == 0 {
        false
    } else if s[0] == BPLUS || s[0] == BMINUS {
        s.len() > 1 && all_digits(s.skip(1))
    } else {
        all_digits(s)
    }
}

/// An integer numeral without a `+` sign, as the external numeric library
/// accepts it.
pub open spec fn is_plain_numeral(s: Seq<u8>) -> bool {
    is_int_numeral(s) && s[0] != BPLUS
}

/// The mathematical value of an integer numeral.
pub open spec fn int_numeral_value(s: Seq<u8>) -> int {
    if s.len() == 0 {
        0
    } else if s[0] == BMINUS {
        -digits_value(s.skip(1))
    } else if s[0] == BPLUS {
        digits_value(s.skip(1))
    } else {
        digits_value(s)
    }
}

/// The canonical digit string of a non-negative integer: no leading zeros,
/// a single `0` for zero.
pub open spec fn canon_digits(n: int) -> Seq<u8>
    decreases n,
{
    if n < 0 {
        Seq::empty()
    } else if n < 10 {
        seq![(n + B0) as u8]
    } else {
        canon_digits(n / 10).push((n % 10 + B0) as u8)
    }
}

/// The canonical decimal rendering of an integer: a `-` sign when negative,
/// then the canonical digit string of its magnitude.
pub open spec fn canonical_decimal(v: int) -> Seq<u8> {
    if v < 0 {
        seq![BMINUS] + canon_digits(-v)
    } else {
        canon_digits(v)
    }
}

pub proof fn lemma_digits_value_bounds(s: Seq<u8>)
    requires
        all_digits(s),
    ensures
        digits_value(s) >= 0,
        digits_value(s) == 0 <==> (forall|i: int| 0 <= i < s.len() ==> s[i] == B0),
    decreases s.len(),
{
    if s.len() == 0 {
    } else {
        assert(is_digit(s[s.len() - 1]));
        lemma_digits_value_bounds(s.drop_last());
        if digits_value(s) == 0 {
            assert(forall|i: int| 0 <= i < s.len() - 1 ==> #[trigger] s.drop_last()[i] == B0);
            assert forall|i: int| 0 <= i < s.len() implies s[i] == B0 by {
                if i < s.len() - 1 {
                    assert(s.drop_last()[i] == B0);
                }
            }
        }
        if forall|i: int| 0 <= i < s.len() ==> s[i] == B0 {
            assert(forall|i: int|
                0 <= i < s.len() - 1 ==> #[trigger] s.drop_last()[i] == s[i] && s[i] == B0);
            assert(s.last() == B0);
        }
    }
}

pub proof fn lemma_canon_digits(n: int)
    requires
        n >= 0,
    ensures
        canon_digits(n).len() >= 1,
        all_digits(canon_digits(n)),
        digits_value(canon_digits(n)) == n,
        is_digit(canon_digits(n)[0]),
    decreases n,
{
    if n < 10 {
        let s = canon_digits(n);
        assert(s.len() == 1);
        assert(s.drop_last() =~= Seq::<u8>::empty());
        assert(s.last() == (n + B0) as u8);
        assert((n + B0) as u8 == n + 48);
        assert(digits_value(s) == digits_value(s.drop_last()) * 10 + (s.last() - B0));
        assert(digits_value(s) == n);
    } else {
        lemma_canon_digits(n / 10);
        let p = canon_digits(n / 10);
        let d = (n % 10 + B0) as u8;
        let s = canon_digits(n);
        assert(s =~= p.push(d));
        assert(s.drop_last() =~= p);
        assert(s.last() == d);
        assert(digits_value(s) == digits_value(p) * 10 + (d - B0));
        assert(digits_value(s) == (n / 10) * 10 + n % 10);
        assert forall|i: int| 0 <= i < s.len() implies is_digit(#[trigger] s[i]) by {
            if i < p.len() {
                assert(s[i] == p[i]);
            }
        }
        assert(s[0] == p[0]);
    }
}

/// The canonical decimal of any integer is itself an integer numeral that
/// denotes that integer.
pub proof fn lemma_canonical_decimal(v: int)
    ensures
        is_plain_numeral(canonical_decimal(v)),
        int_numeral_value(canonical_decimal(v)) == v,
        canonical_decimal(v).len() >= 1,
        v >= 0 ==> is_digit(canonical_decimal(v)[0]),
        v < 0 ==> canonical_decimal(v)[0] == BMINUS,
{
    if v < 0 {
        lemma_canon_digits(-v);
        let s = canonical_decimal(v);
        assert(s[0] == BMINUS);
        assert(s.skip(1) =~= canon_digits(-v));
        assert(digits_value(s.skip(1)) == -v);
    } else {
        lemma_canon_digits(v);
        let s = canonical_decimal(v);
        assert(is_digit(s[0]));
        assert(s[0] != BPLUS && s[0] != BMINUS);
    }
}

/// Appending digits to an integer numeral keeps it an integer numeral.
pub proof fn lemma_int_numeral_append_digits(a: Seq<u8>, b: Seq<u8>)
    requires
        is_int_numeral(a),
        all_digits(b),
    ensures
        is_int_numeral(a + b),
{
    let c = a + b;
    assert(c[0] == a[0]);
    if a[0] == BPLUS || a[0] == BMINUS {
        assert forall|i: int| 0 <= i < c.skip(1).len() implies is_digit(#[trigger] c.skip(1)[i]) by {
            assert(c.skip(1)[i] == c[i + 1]);
            if i + 1 < a.len() {
                assert(c[i + 1] == a.skip(1)[i]);
            } else {
                assert(c[i + 1] == b[i + 1 - a.len()]);
            }
        }
    } else {
        assert forall|i: int| 0 <= i < c.len() implies is_digit(#[trigger] c[i]) by {
            if i < a.len() {
                assert(c[i] == a[i]);
            } else {
                assert(c[i] == b[i - a.len()]);
            }
        }
    }
}

pub fn all_digits_exec(s: &[u8]) -> (b: bool)
    ensures
        b == all_digits(s@),
{
    let mut k: usize = 0;
    while k < s.len()
        invariant
            k <= s@.len(),
            forall|i: int| 0 <= i < k ==> is_digit(#[trigger] s@[i]),
        decreases s@.len() - k,
    {
        let c = s[k];
        if !(B0 <= c && c <= B9) {
            assert(!is_digit(s@[k as int]));
            return false;
        }
        k += 1;
    }
    true
}

pub fn all_zero_digits_exec(s: &[u8]) -> (b: bool)
    ensures
        b == (forall|i: int| 0 <= i < s@.len() ==> s@[i] == B0),
{
    let mut k: usize = 0;
    while k < s.len()
        invariant
            k <= s@.len(),
            forall|i: int| 0 <= i < k ==> s@[i] == B0,
        decreases s@.len() - k,
    {
        if s[k] != B0 {
            return false;
        }
        k += 1;
    }
    true
}

} // verus!

//! The exact arbitrary-precision rational number type.
//!
//! The arithmetic itself is an external primitive (`num_rational::Ratio` over
//! `num_bigint::BigInt`); this module states what each operation returns in
//! terms of the pair model of `crate::rat` and builds the verified helpers
//! (order tests, sign tests, minimum, maximum, decimal strings) on top of it.

use vstd::prelude::*;

use crate::Error;
use crate::rat::{
    Rat, rat_inv, rat_eq, rat_le, rat_lt, rat_pos, rat_neg_val, rat_zero, rat_of_int, rat_add,
    rat_sub, rat_neg, rat_mul, rat_recip, rat_min, rat_max, lemma_rat_eq_trans, lemma_rat_le_congr,
    lemma_rat_sign_congr, lemma_rat_sign_order, lemma_rat_ops_inv, lemma_rat_mul_congr,
    lemma_rat_recip_basic,
};

verus! {

#[verifier::external_type_specification]
#[verifier::external_body]
pub struct ExBigInt(num_bigint::BigInt);

#[verifier::external_type_specification]
#[verifier::external_body]
#[verifier::reject_recursive_types(T)]
pub struct ExRatio<T>(num_rational::Ratio<T>);

/// The numerator/denominator pair of the canonical form of a ratio value
/// (`num_rational` keeps every value it constructs reduced, with a positive
/// denominator).
///
/// The wrappers below equate the *stored* pair with this canonical one (the
/// string contracts read the stored numerator and denominator). That is
/// sound because `Rational.inner` is private and every construction path —
/// `Ratio::new`, `from_integer`, the arithmetic operators, `recip`, `clone`
/// — returns a value in canonical form.
pub uninterp spec fn ratio_model(r: num_rational::Ratio<num_bigint::BigInt>) -> Rat;

/// An exact arbitrary-precision rational number.
#[derive(Debug, PartialEq)]
pub struct Rational {
    inner: num_rational::Ratio<num_bigint::BigInt>,
}

impl View for Rational {
    type V = Rat;

    closed spec fn view(&self) -> Rat {
        ratio_model(self.inner)
    }
}

// ---------------------------------------------------------------------------
// Decimal integer strings.
// ---------------------------------------------------------------------------

pub open spec fn is_dec_digit(c: char) -> bool {
    '0' as int <= c as int <= '9' as int
}

pub open spec fn is_dec_digits(s: Seq<char>) -> bool {
    s.len() > 0 && forall|i: int| 0 <= i < s.len() ==> is_dec_digit(#[trigger] s[i])
}

/// The unsigned value of a digit string.
pub open spec fn dec_digits_value(s: Seq<char>) -> int
    decreases s.len(),
{
    if s.len() == 0 {
        0
    } else {
        dec_digits_value(s.drop_last()) * 10 + (s.last() as int - '0' as int)
    }
}

/// A decimal integer: an optional sign followed by one or more digits.
pub open spec fn is_dec_int(s: Seq<char>) -> bool {
    if s.len() > 0 && (s[0] == '-' || s[0] == '+') {
        is_dec_digits(s.subrange(1, s.len() as int))
    } else {
        is_dec_digits(s)
    }
}

/// The signed value of a decimal integer string.
pub open spec fn dec_value(s: Seq<char>) -> int {
    if s.len() > 0 && s[0] == '-' {
        -dec_digits_value(s.subrange(1, s.len() as int))
    } else if s.len() > 0 && s[0] == '+' {
        dec_digits_value(s.subrange(1, s.len() as int))
    } else {
        dec_digits_value(s)
    }
}

/// Decides whether a string is a decimal integer.
pub fn check_dec_int(s: &str) -> (r: bool)
    ensures
        r == is_dec_int(s@),
{
    let n = s.unicode_len();
    if n == 0 {
        return false;
    }
    let c0 = s.get_char(0);
    let start: usize = if c0 == '-' || c0 == '+' {
        1
    } else {
        0
    };
    if n == start {
        proof {
            if start == 1 {
                assert(s@.subrange(1, s@.len() as int).len() == 0);
            }
        }
        return false;
    }
    let mut i: usize = start;
    while i < n
        invariant
            start == 0 || start == 1,
            start <= i <= n,
            n == s@.len(),
            start == 1 ==> s@[0] == '-' || s@[0] == '+',
            start == 0 && n > 0 ==> !(s@[0] == '-' || s@[0] == '+'),
            forall|k: int| start <= k < i ==> is_dec_digit(#[trigger] s@[k]),
        decreases n - i,
    {
        let c = s.get_char(i);
        let v = c as u32;
        if v < '0' as u32 || v > '9' as u32 {
            assert(!is_dec_digit(s@[i as int]));
            proof {
                if start == 1 {
                    let t = s@.subrange(1, s@.len() as int);
                    assert(t[i - 1] == s@[i as int]);
                }
            }
            return false;
        }
        assert(is_dec_digit(s@[i as int]));
        i += 1;
    }
    proof {
        if start == 1 {
            let t = s@.subrange(1, s@.len() as int);
            assert(forall|k: int| 0 <= k < t.len() ==> is_dec_digit(#[trigger] t[k]));
        }
    }
    true
}

// ---------------------------------------------------------------------------
// Trusted wrappers around the external rational arithmetic.
// ---------------------------------------------------------------------------

/// Relies on `num_rational::Ratio::new` (and `BigInt::from`): builds the
/// canonical form of `n / d`; panics only when `d` is zero.
#[verifier::external_body]
fn ratio_from_frac(n: i64, d: i64) -> (r: Rational)
    requires
        d != 0,
    ensures
        rat_inv(r@),
        rat_eq(r@, Rat { n: n as int, d: d as int }),
{
    Rational {
        inner: num_rational::Ratio::new(num_bigint::BigInt::from(n), num_bigint::BigInt::from(d)),
    }
}

/// Relies on `BigInt`'s `FromStr` (radix 10: optional sign, then digits) and
/// `Ratio::from_integer`, whose result is the canonical pair `value / 1`.
#[verifier::external_body]
fn ratio_from_decimal(s: &str) -> (r: Rational)
    requires
        is_dec_int(s@),
    ensures
        r@ == (Rat { n: dec_value(s@), d: 1 }),
{
    let i: num_bigint::BigInt = s.parse().unwrap();
    Rational { inner: num_rational::Ratio::from_integer(i) }
}

/// Relies on `BigInt`'s decimal `Display` through `to_string`: digits with a
/// leading `-` exactly for negative values.
#[verifier::external_body]
fn ratio_numer_string(a: &Rational) -> (s: String)
    requires
        rat_inv(a@),
    ensures
        is_dec_int(s@),
        dec_value(s@) == a@.n,
{
    a.inner.numer().to_string()
}

/// Relies on `BigInt`'s decimal `Display` through `to_string`: digits with a
/// leading `-` exactly for negative values.
#[verifier::external_body]
fn ratio_denom_string(a: &Rational) -> (s: String)
    requires
        rat_inv(a@),
    ensures
        is_dec_int(s@),
        dec_value(s@) == a@.d,
{
    a.inner.denom().to_string()
}

/// Relies on `Add` for `&Ratio`: exact rational addition, canonical result.
#[verifier::external_body]
fn ratio_add(a: &Rational, b: &Rational) -> (r: Rational)
    requires
        rat_inv(a@),
        rat_inv(b@),
    ensures
        rat_inv(r@),
        rat_eq(r@, rat_add(a@, b@)),
{
    Rational { inner: &a.inner + &b.inner }
}

/// Relies on `Sub` for `&Ratio`: exact rational subtraction, canonical result.
#[verifier::external_body]
fn ratio_sub(a: &Rational, b: &Rational) -> (r: Rational)
    requires
        rat_inv(a@),
        rat_inv(b@),
    ensures
        rat_inv(r@),
        rat_eq(r@, rat_sub(a@, b@)),
{
    Rational { inner: &a.inner - &b.inner }
}

/// Relies on `Mul` for `&Ratio`: exact rational multiplication, canonical
/// result.
#[verifier::external_body]
fn ratio_mul(a: &Rational, b: &Rational) -> (r: Rational)
    requires
        rat_inv(a@),
        rat_inv(b@),
    ensures
        rat_inv(r@),
        rat_eq(r@, rat_mul(a@, b@)),
{
    Rational { inner: &a.inner * &b.inner }
}

/// Relies on `Neg` for `&Ratio`: negates the value, canonical result.
#[verifier::external_body]
fn ratio_neg(a: &Rational) -> (r: Rational)
    requires
        rat_inv(a@),
    ensures
        rat_inv(r@),
        rat_eq(r@, rat_neg(a@)),
{
    Rational { inner: -&a.inner }
}

/// Relies on `Ratio::recip`: swaps numerator and denominator, keeping the
/// denominator positive; panics only on zero.
#[verifier::external_body]
fn ratio_recip(a: &Rational) -> (r: Rational)
    requires
        rat_inv(a@),
        a@.n != 0,
    ensures
        rat_inv(r@),
        rat_eq(r@, rat_recip(a@)),
{
    Rational { inner: a.inner.recip() }
}

/// Relies on `Ord` for `Ratio`, which compares the denoted values.
#[verifier::external_body]
fn ratio_le(a: &Rational, b: &Rational) -> (r: bool)
    requires
        rat_inv(a@),
        rat_inv(b@),
    ensures
        r == rat_le(a@, b@),
{
    a.inner <= b.inner
}

/// Relies on `Clone` for `Ratio`: the copy holds the very same pair.
#[verifier::external_body]
fn ratio_clone(a: &Rational) -> (r: Rational)
    ensures
        ratio_model(r.inner) == ratio_model(a.inner),
{
    Rational { inner: a.inner.clone() }
}

// ---------------------------------------------------------------------------
// The verified public interface.
// ---------------------------------------------------------------------------

impl Rational {
    /// The fraction `n / d`. The caller must keep `d` nonzero.
    pub fn from_frac(n: i64, d: i64) -> (r: Rational)
        requires
            d != 0,
        ensures
            rat_inv(r@),
            rat_eq(r@, Rat { n: n as int, d: d as int }),
    {
        ratio_from_frac(n, d)
    }

    /// The whole number `n`.
    pub fn from_int(n: i64) -> (r: Rational)
        ensures
            rat_inv(r@),
            rat_eq(r@, rat_of_int(n as int)),
    {
        ratio_from_frac(n, 1)
    }

    /// An identical copy.
    pub fn dup(&self) -> (r: Rational)
        ensures
            r@ == self@,
    {
        ratio_clone(self)
    }

    pub fn add(&self, other: &Rational) -> (r: Rational)
        requires
            rat_inv(self@),
            rat_inv(other@),
        ensures
            rat_inv(r@),
            rat_eq(r@, rat_add(self@, other@)),
    {
        ratio_add(self, other)
    }

    pub fn sub(&self, other: &Rational) -> (r: Rational)
        requires
            rat_inv(self@),
            rat_inv(other@),
        ensures
            rat_inv(r@),
            rat_eq(r@, rat_sub(self@, other@)),
    {
        ratio_sub(self, other)
    }

    pub fn mul(&self, other: &Rational) -> (r: Rational)
        requires
            rat_inv(self@),
            rat_inv(other@),
        ensures
            rat_inv(r@),
            rat_eq(r@, rat_mul(self@, other@)),
    {
        ratio_mul(self, other)
    }

    pub fn neg(&self) -> (r: Rational)
        requires
            rat_inv(self@),
        ensures
            rat_inv(r@),
            rat_eq(r@, rat_neg(self@)),
    {
        ratio_neg(self)
    }

    /// The reciprocal of a nonzero rational.
    pub fn recip(&self) -> (r: Rational)
        requires
            rat_inv(self@),
            self@.n != 0,
        ensures
            rat_inv(r@),
            rat_eq(r@, rat_recip(self@)),
    {
        ratio_recip(self)
    }

    pub fn le(&self, other: &Rational) -> (r: bool)
        requires
            rat_inv(self@),
            rat_inv(other@),
        ensures
            r == rat_le(self@, other@),
    {
        ratio_le(self, other)
    }

    pub fn lt(&self, other: &Rational) -> (r: bool)
        requires
            rat_inv(self@),
            rat_inv(other@),
        ensures
            r == rat_lt(self@, other@),
    {
        !ratio_le(other, self)
    }

    /// Denotes the same rational as `other`.
    pub fn eq_val(&self, other: &Rational) -> (r: bool)
        requires
            rat_inv(self@),
            rat_inv(other@),
        ensures
            r == rat_eq(self@, other@),
    {
        ratio_le(self, other) && ratio_le(other, self)
    }

    /// The value is strictly positive.
    pub fn is_pos(&self) -> (r: bool)
        requires
            rat_inv(self@),
        ensures
            r == rat_pos(self@),
    {
        let zero = Rational::from_int(0);
        let r = zero.lt(self);
        proof {
            lemma_rat_sign_order(self@);
            lemma_rat_le_congr(zero@, self@, rat_zero(), self@);
        }
        r
    }

    /// The value is strictly negative.
    pub fn is_neg(&self) -> (r: bool)
        requires
            rat_inv(self@),
        ensures
            r == rat_neg_val(self@),
    {
        let zero = Rational::from_int(0);
        let r = self.lt(&zero);
        proof {
            lemma_rat_sign_order(self@);
            lemma_rat_le_congr(self@, zero@, self@, rat_zero());
        }
        r
    }

    /// The value is zero.
    pub fn is_zero(&self) -> (r: bool)
        requires
            rat_inv(self@),
        ensures
            r == (self@.n == 0),
    {
        let zero = Rational::from_int(0);
        let r = self.eq_val(&zero);
        proof {
            if self@.n == 0 {
                assert(rat_eq(self@, rat_zero()));
                lemma_rat_eq_trans(self@, rat_zero(), zero@);
            }
            if rat_eq(self@, zero@) {
                lemma_rat_eq_trans(self@, zero@, rat_zero());
                lemma_rat_sign_congr(self@, rat_zero());
            }
        }
        r
    }

    /// The smaller of two rationals.
    pub fn min_of(a: Rational, b: Rational) -> (r: Rational)
        requires
            rat_inv(a@),
            rat_inv(b@),
        ensures
            rat_inv(r@),
            r@ == rat_min(a@, b@),
    {
        if a.le(&b) {
            a
        } else {
            b
        }
    }

    /// The larger of two rationals.
    pub fn max_of(a: Rational, b: Rational) -> (r: Rational)
        requires
            rat_inv(a@),
            rat_inv(b@),
        ensures
            rat_inv(r@),
            r@ == rat_max(a@, b@),
    {
        if a.le(&b) {
            b
        } else {
            a
        }
    }

    /// The canonical numerator, as a decimal string.
    pub fn numer_string(&self) -> (s: String)
        requires
            rat_inv(self@),
        ensures
            is_dec_int(s@),
            dec_value(s@) == self@.n,
    {
        ratio_numer_string(self)
    }

    /// The canonical denominator, as a decimal string.
    pub fn denom_string(&self) -> (s: String)
        requires
            rat_inv(self@),
        ensures
            is_dec_int(s@),
            dec_value(s@) == self@.d,
    {
        ratio_denom_string(self)
    }

    /// Reads an exact rational from a pair of signed decimal strings.
    ///
    /// Fails with `MalformedPolyhedron` when either string is not a decimal
    /// integer, and with `DivideByZero` when the denominator string denotes
    /// zero.
    pub fn from_decimal_strs(numer: &str, denom: &str) -> (r: Result<Rational, Error>)
        ensures
            r is Ok <==> is_dec_int(numer@) && is_dec_int(denom@) && dec_value(denom@) != 0,
            r matches Ok(v) ==> rat_inv(v@) && rat_eq(
                v@,
                Rat { n: dec_value(numer@), d: dec_value(denom@) },
            ),
            r matches Err(e) ==> (e == (if is_dec_int(numer@) && is_dec_int(denom@) {
                Error::DivideByZero
            } else {
                Error::MalformedPolyhedron
            })),
    {
        if !check_dec_int(numer) || !check_dec_int(denom) {
            return Err(Error::MalformedPolyhedron);
        }
        let n = ratio_from_decimal(numer);
        let d = ratio_from_decimal(denom);
        if d.is_zero() {
            return Err(Error::DivideByZero);
        }
        let rv = d.recip();
        let r = n.mul(&rv);
        proof {
            let n0 = dec_value(numer@);
            let d0 = dec_value(denom@);
            lemma_rat_recip_basic(d@);
            lemma_rat_ops_inv(n@, rv@);
            lemma_rat_mul_congr(n@, rv@, n@, rat_recip(d@));
            lemma_rat_eq_trans(r@, rat_mul(n@, rv@), rat_mul(n@, rat_recip(d@)));
            lemma_from_parts(n0, d0);
            lemma_rat_eq_trans(r@, rat_mul(n@, rat_recip(d@)), Rat { n: n0, d: d0 });
        }
        Ok(r)
    }
}

/// `n * (1 / d)` denotes the pair `n / d`.
proof fn lemma_from_parts(n0: int, d0: int)
    requires
        d0 != 0,
    ensures
        rat_inv(rat_mul(rat_of_int(n0), rat_recip(rat_of_int(d0)))),
        rat_eq(rat_mul(rat_of_int(n0), rat_recip(rat_of_int(d0))), Rat { n: n0, d: d0 }),
{
    let m = rat_mul(rat_of_int(n0), rat_recip(rat_of_int(d0)));
    if d0 > 0 {
        assert(m == Rat { n: n0 * 1, d: 1 * d0 });
        assert((n0 * 1) * d0 == n0 * (1 * d0)) by (nonlinear_arith);
    } else {
        assert(m == Rat { n: n0 * (-1), d: 1 * (-d0) });
        assert((n0 * (-1)) * d0 == n0 * (1 * (-d0))) by (nonlinear_arith);
    }
}

} // verus!

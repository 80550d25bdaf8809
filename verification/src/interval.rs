//! Intervals over an ordered ring.
//!
//! An `Interval<T>` represents the knowledge that a value is at least `min`
//! and at most `max`. Every operation returns an interval that contains every
//! possible true result: soundness over tightness.
//!
//! The interval model `IRat` (a pair of rational bounds) and the `i_*`
//! operations on it are the specification that both the exact scalars and the
//! rational intervals are verified against: an exact rational is the
//! degenerate interval whose bounds coincide.

use vstd::prelude::*;

use crate::Error;
use crate::rat::{
    Rat, rat_inv, rat_eq, rat_le, rat_lt, rat_pos, rat_neg_val, rat_signum, rat_zero, rat_add,
    rat_sub, rat_neg, rat_mul, rat_recip, rat_min, rat_max, lemma_rat_eq_trans, lemma_rat_le_congr,
    lemma_rat_sign_congr, lemma_rat_sign_order, lemma_rat_ops_inv, lemma_rat_mul_congr,
    lemma_rat_neg_congr, lemma_rat_min_max_congr, lemma_rat_recip_basic, lemma_rat_recip_congr,
    lemma_rat_le_trans, lemma_rat_lt_le_trans, lemma_rat_le_lt_trans, lemma_rat_add_congr,
    lemma_rat_min_max_le, lemma_rat_pos_le_trans, lemma_rat_mul_mono_r, lemma_rat_mul_mono_l,
    lemma_rat_add_mono, lemma_rat_sub_mono, lemma_rat_neg_mono, lemma_rat_recip_anti,
    lemma_rat_mixed_sign_mul, lemma_rat_square_between,
};
use crate::rational::Rational;

verus! {

/// An interval between two values.
///
/// Represents the knowledge that a value is `>= min` and `<= max`.
#[derive(Debug, PartialEq, Clone, Copy)]
pub struct Interval<T> {
    pub min: T,
    pub max: T,
}

/// A pair of rational bounds: the model of every scalar of this library.
pub ghost struct IRat {
    pub lo: Rat,
    pub hi: Rat,
}

// ---------------------------------------------------------------------------
// The interval operations, on the model.
// ---------------------------------------------------------------------------

/// Both bounds are valid rational pairs.
pub open spec fn i_inv(a: IRat) -> bool {
    rat_inv(a.lo) && rat_inv(a.hi)
}

/// A well-formed interval: valid bounds in the right order.
pub open spec fn i_wf(a: IRat) -> bool {
    i_inv(a) && rat_le(a.lo, a.hi)
}

/// The rational `q` lies within the bounds of `a`.
pub open spec fn i_contains(a: IRat, q: Rat) -> bool {
    rat_le(a.lo, q) && rat_le(q, a.hi)
}

/// Every value within `a`'s bounds lies within `b`'s bounds.
pub open spec fn i_subset(a: IRat, b: IRat) -> bool {
    rat_le(b.lo, a.lo) && rat_le(a.hi, b.hi)
}

/// The two intervals have the same bounds as rationals.
pub open spec fn i_eq(a: IRat, b: IRat) -> bool {
    rat_eq(a.lo, b.lo) && rat_eq(a.hi, b.hi)
}

/// A degenerate interval: both bounds denote the single rational `q`.
pub open spec fn i_exact(a: IRat, q: Rat) -> bool {
    rat_eq(a.lo, q) && rat_eq(a.hi, q)
}

pub open spec fn i_add(a: IRat, b: IRat) -> IRat {
    IRat { lo: rat_add(a.lo, b.lo), hi: rat_add(a.hi, b.hi) }
}

pub open spec fn i_sub(a: IRat, b: IRat) -> IRat {
    IRat { lo: rat_sub(a.lo, b.hi), hi: rat_sub(a.hi, b.lo) }
}

pub open spec fn i_neg(a: IRat) -> IRat {
    IRat { lo: rat_neg(a.hi), hi: rat_neg(a.lo) }
}

/// The least of the four products of the endpoint combinations.
pub open spec fn mul_lo(al: Rat, ah: Rat, bl: Rat, bh: Rat) -> Rat {
    rat_min(rat_min(rat_mul(al, bl), rat_mul(al, bh)), rat_min(rat_mul(ah, bl), rat_mul(ah, bh)))
}

/// The greatest of the four products of the endpoint combinations.
pub open spec fn mul_hi(al: Rat, ah: Rat, bl: Rat, bh: Rat) -> Rat {
    rat_max(rat_max(rat_mul(al, bl), rat_mul(al, bh)), rat_max(rat_mul(ah, bl), rat_mul(ah, bh)))
}

/// The four products of the endpoint combinations.
pub open spec fn i_mul(a: IRat, b: IRat) -> IRat {
    IRat { lo: mul_lo(a.lo, a.hi, b.lo, b.hi), hi: mul_hi(a.lo, a.hi, b.lo, b.hi) }
}

/// The specialized squaring: zero is the least square when the endpoints
/// straddle zero by sign.
pub open spec fn i_square(a: IRat) -> IRat {
    IRat {
        lo: if rat_signum(a.lo) != rat_signum(a.hi) {
            rat_zero()
        } else {
            rat_min(rat_mul(a.lo, a.lo), rat_mul(a.hi, a.hi))
        },
        hi: rat_max(rat_mul(a.lo, a.lo), rat_mul(a.hi, a.hi)),
    }
}

/// The reciprocal of a sign-definite interval: endpoints swap and invert.
pub open spec fn i_recip(a: IRat) -> IRat {
    IRat { lo: rat_recip(a.hi), hi: rat_recip(a.lo) }
}

/// The interval is entirely on one strict side of zero: both endpoints
/// strictly positive, or both strictly negative.
pub open spec fn i_sign_definite(a: IRat) -> bool {
    (rat_pos(a.lo) && rat_pos(a.hi)) || (rat_neg_val(a.lo) && rat_neg_val(a.hi))
}

// ---------------------------------------------------------------------------
// Sign classification.
// ---------------------------------------------------------------------------

/// The four sign predicates of an interval.
///
/// There is no trichotomy for intervals: one straddling zero is neither
/// positive nor negative, and is both "maybe" variants. The four predicates
/// must stay separate; the certifier relies on the asymmetry.
pub trait IntervalSign {
    /// The well-formedness the sign tests need.
    spec fn sig_wf(&self) -> bool;

    spec fn pos_spec(&self) -> bool;

    spec fn neg_spec(&self) -> bool;

    spec fn maybe_pos_spec(&self) -> bool;

    spec fn maybe_neg_spec(&self) -> bool;

    /// True if every value in the interval is positive.
    fn is_positive(&self) -> (r: bool)
        requires
            self.sig_wf(),
        ensures
            r == self.pos_spec(),
    ;

    /// True if every value in the interval is negative.
    fn is_negative(&self) -> (r: bool)
        requires
            self.sig_wf(),
        ensures
            r == self.neg_spec(),
    ;

    /// True if some value in the interval is positive.
    fn is_maybe_positive(&self) -> (r: bool)
        requires
            self.sig_wf(),
        ensures
            r == self.maybe_pos_spec(),
    ;

    /// True if some value in the interval is negative.
    fn is_maybe_negative(&self) -> (r: bool)
        requires
            self.sig_wf(),
        ensures
            r == self.maybe_neg_spec(),
    ;
}

/// Squaring, with a result tighter than plain self-multiplication.
pub trait Square: Sized {
    /// What the squaring needs of its input.
    spec fn square_req(&self) -> bool;

    /// What holds of the squared result.
    spec fn square_post(&self, r: &Self) -> bool;

    fn square(self) -> (r: Self)
        requires
            self.square_req(),
        ensures
            self.square_post(&r),
    ;
}

// ---------------------------------------------------------------------------
// The scalar capability set.
// ---------------------------------------------------------------------------

/// The numeric capabilities the geometric formulas need, with a rational
/// interval as the common model: an exact rational is the degenerate
/// interval, a rational interval is itself.
pub trait Scalar: IntervalSign + Sized {
    /// The lower bound of the set of values this scalar stands for.
    spec fn lo(&self) -> Rat;

    /// The upper bound of the set of values this scalar stands for.
    spec fn hi(&self) -> Rat;

    /// The sign predicates read exactly the bounds.
    proof fn sign_agrees(&self)
        requires
            rat_inv(self.lo()),
            rat_inv(self.hi()),
        ensures
            self.sig_wf(),
            self.pos_spec() == rat_pos(self.lo()),
            self.neg_spec() == rat_neg_val(self.hi()),
            self.maybe_pos_spec() == rat_pos(self.hi()),
            self.maybe_neg_spec() == rat_neg_val(self.lo()),
    ;

    fn zero() -> (r: Self)
        ensures
            rat_inv(r.lo()),
            rat_inv(r.hi()),
            rat_eq(r.lo(), rat_zero()),
            rat_eq(r.hi(), rat_zero()),
    ;

    fn dup(&self) -> (r: Self)
        requires
            rat_inv(self.lo()),
            rat_inv(self.hi()),
        ensures
            r.lo() == self.lo(),
            r.hi() == self.hi(),
    ;

    fn add(&self, other: &Self) -> (r: Self)
        requires
            rat_inv(self.lo()),
            rat_inv(self.hi()),
            rat_inv(other.lo()),
            rat_inv(other.hi()),
        ensures
            rat_inv(r.lo()),
            rat_inv(r.hi()),
            rat_eq(r.lo(), rat_add(self.lo(), other.lo())),
            rat_eq(r.hi(), rat_add(self.hi(), other.hi())),
    ;

    fn sub(&self, other: &Self) -> (r: Self)
        requires
            rat_inv(self.lo()),
            rat_inv(self.hi()),
            rat_inv(other.lo()),
            rat_inv(other.hi()),
        ensures
            rat_inv(r.lo()),
            rat_inv(r.hi()),
            rat_eq(r.lo(), rat_sub(self.lo(), other.hi())),
            rat_eq(r.hi(), rat_sub(self.hi(), other.lo())),
    ;

    fn mul(&self, other: &Self) -> (r: Self)
        requires
            rat_inv(self.lo()),
            rat_inv(self.hi()),
            rat_inv(other.lo()),
            rat_inv(other.hi()),
        ensures
            rat_inv(r.lo()),
            rat_inv(r.hi()),
            rat_eq(r.lo(), mul_lo(self.lo(), self.hi(), other.lo(), other.hi())),
            rat_eq(r.hi(), mul_hi(self.lo(), self.hi(), other.lo(), other.hi())),
    ;

    fn neg(&self) -> (r: Self)
        requires
            rat_inv(self.lo()),
            rat_inv(self.hi()),
        ensures
            rat_inv(r.lo()),
            rat_inv(r.hi()),
            rat_eq(r.lo(), rat_neg(self.hi())),
            rat_eq(r.hi(), rat_neg(self.lo())),
    ;

    /// The reciprocal of a scalar whose whole range is on one strict side of
    /// zero.
    fn recip_definite(&self) -> (r: Self)
        requires
            rat_inv(self.lo()),
            rat_inv(self.hi()),
            (rat_pos(self.lo()) && rat_pos(self.hi())) || (rat_neg_val(self.lo()) && rat_neg_val(
                self.hi(),
            )),
        ensures
            rat_inv(r.lo()),
            rat_inv(r.hi()),
            rat_eq(r.lo(), rat_recip(self.hi())),
            rat_eq(r.hi(), rat_recip(self.lo())),
    ;
}

/// The interval model of a scalar.
pub open spec fn sview<T: Scalar>(t: T) -> IRat {
    IRat { lo: t.lo(), hi: t.hi() }
}

// ---------------------------------------------------------------------------
// Exact rationals as degenerate intervals.
// ---------------------------------------------------------------------------

impl IntervalSign for Rational {
    open spec fn sig_wf(&self) -> bool {
        rat_inv(self@)
    }

    open spec fn pos_spec(&self) -> bool {
        rat_pos(self@)
    }

    open spec fn neg_spec(&self) -> bool {
        rat_neg_val(self@)
    }

    open spec fn maybe_pos_spec(&self) -> bool {
        rat_pos(self@)
    }

    open spec fn maybe_neg_spec(&self) -> bool {
        rat_neg_val(self@)
    }

    fn is_positive(&self) -> (r: bool) {
        self.is_pos()
    }

    fn is_negative(&self) -> (r: bool) {
        self.is_neg()
    }

    fn is_maybe_positive(&self) -> (r: bool) {
        self.is_pos()
    }

    fn is_maybe_negative(&self) -> (r: bool) {
        self.is_neg()
    }
}

impl Scalar for Rational {
    open spec fn lo(&self) -> Rat {
        self@
    }

    open spec fn hi(&self) -> Rat {
        self@
    }

    proof fn sign_agrees(&self) {
    }

    fn zero() -> (r: Self) {
        Rational::from_int(0)
    }

    fn dup(&self) -> (r: Self) {
        Rational::dup(self)
    }

    fn add(&self, other: &Self) -> (r: Self) {
        Rational::add(self, other)
    }

    fn sub(&self, other: &Self) -> (r: Self) {
        Rational::sub(self, other)
    }

    fn mul(&self, other: &Self) -> (r: Self) {
        let r = Rational::mul(self, other);
        proof {
            let p = rat_mul(self@, other@);
            lemma_rat_ops_inv(self@, other@);
            assert(rat_min(p, p) == p);
            assert(rat_max(p, p) == p);
            assert(mul_lo(self@, self@, other@, other@) == p);
            assert(mul_hi(self@, self@, other@, other@) == p);
        }
        r
    }

    fn neg(&self) -> (r: Self) {
        Rational::neg(self)
    }

    fn recip_definite(&self) -> (r: Self) {
        proof {
            lemma_rat_sign_order(self@);
        }
        Rational::recip(self)
    }
}

// ---------------------------------------------------------------------------
// Rational intervals.
// ---------------------------------------------------------------------------

impl IntervalSign for Interval<Rational> {
    open spec fn sig_wf(&self) -> bool {
        i_inv(self@)
    }

    open spec fn pos_spec(&self) -> bool {
        rat_pos(self@.lo)
    }

    open spec fn neg_spec(&self) -> bool {
        rat_neg_val(self@.hi)
    }

    open spec fn maybe_pos_spec(&self) -> bool {
        rat_pos(self@.hi)
    }

    open spec fn maybe_neg_spec(&self) -> bool {
        rat_neg_val(self@.lo)
    }

    fn is_positive(&self) -> (r: bool) {
        self.min.is_pos()
    }

    fn is_negative(&self) -> (r: bool) {
        self.max.is_neg()
    }

    fn is_maybe_positive(&self) -> (r: bool) {
        self.max.is_pos()
    }

    fn is_maybe_negative(&self) -> (r: bool) {
        self.min.is_neg()
    }
}

impl Scalar for Interval<Rational> {
    open spec fn lo(&self) -> Rat {
        self@.lo
    }

    open spec fn hi(&self) -> Rat {
        self@.hi
    }

    proof fn sign_agrees(&self) {
    }

    fn zero() -> (r: Self) {
        Interval { min: Rational::from_int(0), max: Rational::from_int(0) }
    }

    fn dup(&self) -> (r: Self) {
        Interval { min: self.min.dup(), max: self.max.dup() }
    }

    fn add(&self, other: &Self) -> (r: Self) {
        Interval { min: self.min.add(&other.min), max: self.max.add(&other.max) }
    }

    fn sub(&self, other: &Self) -> (r: Self) {
        Interval { min: self.min.sub(&other.max), max: self.max.sub(&other.min) }
    }

    fn mul(&self, other: &Self) -> (r: Self) {
        let p1 = self.min.mul(&other.min);
        let p2 = self.min.mul(&other.max);
        let p3 = self.max.mul(&other.min);
        let p4 = self.max.mul(&other.max);
        let q1 = p1.dup();
        let q2 = p2.dup();
        let q3 = p3.dup();
        let q4 = p4.dup();
        proof {
            lemma_mul_pick_congr(p1@, p2@, p3@, p4@, self@, other@);
        }
        let lo = Rational::min_of(Rational::min_of(p1, p2), Rational::min_of(p3, p4));
        let hi = Rational::max_of(Rational::max_of(q1, q2), Rational::max_of(q3, q4));
        Interval { min: lo, max: hi }
    }

    fn neg(&self) -> (r: Self) {
        Interval { min: self.max.neg(), max: self.min.neg() }
    }

    fn recip_definite(&self) -> (r: Self) {
        Interval { min: self.max.recip(), max: self.min.recip() }
    }
}

/// Picking the least and greatest of four products respects denotation: the
/// step from the computed products to the endpoint formula.
proof fn lemma_mul_pick_congr(x1: Rat, x2: Rat, x3: Rat, x4: Rat, a: IRat, b: IRat)
    requires
        i_inv(a),
        i_inv(b),
        rat_inv(x1),
        rat_inv(x2),
        rat_inv(x3),
        rat_inv(x4),
        rat_eq(x1, rat_mul(a.lo, b.lo)),
        rat_eq(x2, rat_mul(a.lo, b.hi)),
        rat_eq(x3, rat_mul(a.hi, b.lo)),
        rat_eq(x4, rat_mul(a.hi, b.hi)),
    ensures
        rat_eq(rat_min(rat_min(x1, x2), rat_min(x3, x4)), mul_lo(a.lo, a.hi, b.lo, b.hi)),
        rat_eq(rat_max(rat_max(x1, x2), rat_max(x3, x4)), mul_hi(a.lo, a.hi, b.lo, b.hi)),
{
    let pp1 = rat_mul(a.lo, b.lo);
    let pp2 = rat_mul(a.lo, b.hi);
    let pp3 = rat_mul(a.hi, b.lo);
    let pp4 = rat_mul(a.hi, b.hi);
    lemma_rat_ops_inv(a.lo, b.lo);
    lemma_rat_ops_inv(a.lo, b.hi);
    lemma_rat_ops_inv(a.hi, b.lo);
    lemma_rat_ops_inv(a.hi, b.hi);
    lemma_rat_min_max_congr(x1, x2, pp1, pp2);
    lemma_rat_min_max_congr(x3, x4, pp3, pp4);
    lemma_rat_ops_inv(x1, x2);
    lemma_rat_ops_inv(x3, x4);
    lemma_rat_ops_inv(pp1, pp2);
    lemma_rat_ops_inv(pp3, pp4);
    lemma_rat_min_max_congr(rat_min(x1, x2), rat_min(x3, x4), rat_min(pp1, pp2), rat_min(pp3, pp4));
    lemma_rat_min_max_congr(rat_max(x1, x2), rat_max(x3, x4), rat_max(pp1, pp2), rat_max(pp3, pp4));
}

impl Square for Interval<Rational> {
    open spec fn square_req(&self) -> bool {
        i_inv(self@)
    }

    open spec fn square_post(&self, r: &Self) -> bool {
        i_inv(r@) && i_eq(r@, i_square(self@))
    }

    fn square(self) -> (r: Self) {
        let lo_pos = self.min.is_pos();
        let lo_neg = self.min.is_neg();
        let hi_pos = self.max.is_pos();
        let hi_neg = self.max.is_neg();
        let same_sign = lo_pos == hi_pos && lo_neg == hi_neg;
        let p1 = self.min.mul(&self.min);
        let p2 = self.max.mul(&self.max);
        let q1 = p1.dup();
        let q2 = p2.dup();
        proof {
            lemma_rat_ops_inv(self@.lo, self@.lo);
            lemma_rat_ops_inv(self@.hi, self@.hi);
            lemma_rat_min_max_congr(
                p1@,
                p2@,
                rat_mul(self@.lo, self@.lo),
                rat_mul(self@.hi, self@.hi),
            );
        }
        let lo = if same_sign {
            Rational::min_of(p1, p2)
        } else {
            Rational::from_int(0)
        };
        let hi = Rational::max_of(q1, q2);
        Interval { min: lo, max: hi }
    }
}

// ---------------------------------------------------------------------------
// Constructors.
// ---------------------------------------------------------------------------

impl<T> Interval<T> {
    /// The interval from `min` to `max`. The caller asserts `min <= max`;
    /// no internal check is made.
    pub fn new(min: T, max: T) -> (r: Interval<T>)
        ensures
            r.min == min,
            r.max == max,
    {
        Interval { min, max }
    }
}

// ---------------------------------------------------------------------------
// Machine-integer intervals.
// ---------------------------------------------------------------------------

pub open spec fn min_int(a: int, b: int) -> int {
    if a <= b {
        a
    } else {
        b
    }
}

pub open spec fn max_int(a: int, b: int) -> int {
    if a <= b {
        b
    } else {
        a
    }
}

pub open spec fn signum_int(a: int) -> int {
    if a > 0 {
        1int
    } else if a < 0 {
        -1int
    } else {
        0int
    }
}

fn min_i32(a: i32, b: i32) -> (r: i32)
    ensures
        r == min_int(a as int, b as int),
{
    if a <= b {
        a
    } else {
        b
    }
}

fn max_i32(a: i32, b: i32) -> (r: i32)
    ensures
        r == max_int(a as int, b as int),
{
    if a <= b {
        b
    } else {
        a
    }
}

fn sign_i32(a: i32) -> (r: i32)
    ensures
        r == signum_int(a as int),
{
    if a > 0 {
        1
    } else if a < 0 {
        -1
    } else {
        0
    }
}

impl Interval<i32> {
    /// The degenerate interval holding exactly `val`.
    pub fn exact(val: i32) -> (r: Interval<i32>)
        ensures
            r.min == val,
            r.max == val,
    {
        Interval { min: val, max: val }
    }

    /// The sum of two integer intervals: the bounds add, exactly.
    pub fn add(self, rhs: Interval<i32>) -> (r: Interval<i32>)
        requires
            i32::MIN <= self.min + rhs.min <= i32::MAX,
            i32::MIN <= self.max + rhs.max <= i32::MAX,
        ensures
            r.min == self.min + rhs.min,
            r.max == self.max + rhs.max,
    {
        Interval { min: self.min + rhs.min, max: self.max + rhs.max }
    }

    /// The product of two integer intervals: the least and greatest of the
    /// four products of the endpoint combinations.
    pub fn mul(self, rhs: Interval<i32>) -> (r: Interval<i32>)
        requires
            i32::MIN <= self.min * rhs.min <= i32::MAX,
            i32::MIN <= self.min * rhs.max <= i32::MAX,
            i32::MIN <= self.max * rhs.min <= i32::MAX,
            i32::MIN <= self.max * rhs.max <= i32::MAX,
        ensures
            r.min == min_int(
                min_int(self.min * rhs.min, self.min * rhs.max),
                min_int(self.max * rhs.min, self.max * rhs.max),
            ),
            r.max == max_int(
                max_int(self.min * rhs.min, self.min * rhs.max),
                max_int(self.max * rhs.min, self.max * rhs.max),
            ),
    {
        let p1 = self.min * rhs.min;
        let p2 = self.min * rhs.max;
        let p3 = self.max * rhs.min;
        let p4 = self.max * rhs.max;
        Interval { min: min_i32(min_i32(p1, p2), min_i32(p3, p4)), max: max_i32(
            max_i32(p1, p2),
            max_i32(p3, p4),
        ) }
    }
}

impl IntervalSign for Interval<i32> {
    open spec fn sig_wf(&self) -> bool {
        true
    }

    open spec fn pos_spec(&self) -> bool {
        self.min > 0
    }

    open spec fn neg_spec(&self) -> bool {
        self.max < 0
    }

    open spec fn maybe_pos_spec(&self) -> bool {
        self.max > 0
    }

    open spec fn maybe_neg_spec(&self) -> bool {
        self.min < 0
    }

    fn is_positive(&self) -> (r: bool) {
        self.min > 0
    }

    fn is_negative(&self) -> (r: bool) {
        self.max < 0
    }

    fn is_maybe_positive(&self) -> (r: bool) {
        self.max > 0
    }

    fn is_maybe_negative(&self) -> (r: bool) {
        self.min < 0
    }
}

impl Square for Interval<i32> {
    open spec fn square_req(&self) -> bool {
        self.min * self.min <= i32::MAX && self.max * self.max <= i32::MAX
    }

    open spec fn square_post(&self, r: &Self) -> bool {
        &&& r.min == (if signum_int(self.min as int) != signum_int(self.max as int) {
            0int
        } else {
            min_int(self.min * self.min, self.max * self.max)
        })
        &&& r.max == max_int(self.min * self.min, self.max * self.max)
    }

    fn square(self) -> (r: Self) {
        let s1 = sign_i32(self.min);
        let s2 = sign_i32(self.max);
        proof {
            square_nonneg(self.min as int);
            square_nonneg(self.max as int);
        }
        let p1 = self.min * self.min;
        let p2 = self.max * self.max;
        let lo = if s1 != s2 {
            0
        } else {
            min_i32(p1, p2)
        };
        Interval { min: lo, max: max_i32(p1, p2) }
    }
}

proof fn square_nonneg(a: int) by (nonlinear_arith)
    ensures
        0 <= a * a,
{
}

impl View for Interval<Rational> {
    type V = IRat;

    open spec fn view(&self) -> IRat {
        IRat { lo: self.min@, hi: self.max@ }
    }
}

impl Interval<Rational> {
    /// The degenerate interval holding exactly `val`.
    pub fn exact(val: Rational) -> (r: Interval<Rational>)
        requires
            rat_inv(val@),
        ensures
            i_inv(r@),
            r@.lo == val@,
            r@.hi == val@,
    {
        let max = val.dup();
        Interval { min: val, max }
    }

    /// The reciprocal of a rational interval.
    ///
    /// Fails with `DivideByZero` exactly when the endpoints have differing or
    /// zero sign; otherwise the result swaps and inverts the endpoints.
    pub fn recip(self) -> (r: Result<Interval<Rational>, Error>)
        requires
            i_inv(self@),
        ensures
            r is Ok <==> rat_signum(self@.lo) == rat_signum(self@.hi) && self@.lo.n != 0,
            r matches Ok(v) ==> i_inv(v@) && i_eq(v@, i_recip(self@)),
            r matches Err(e) ==> e == Error::DivideByZero,
    {
        let lo_pos = self.min.is_pos();
        let hi_pos = self.max.is_pos();
        let lo_neg = self.min.is_neg();
        let hi_neg = self.max.is_neg();
        if (lo_pos && hi_pos) || (lo_neg && hi_neg) {
            let new_min = self.max.recip();
            let new_max = self.min.recip();
            Ok(Interval { min: new_min, max: new_max })
        } else {
            Err(Error::DivideByZero)
        }
    }
}


// ---------------------------------------------------------------------------
// Congruence of the interval operations: intervals with the same bounds as
// rationals keep the same bounds under every operation.
// ---------------------------------------------------------------------------

/// Having the same bounds is transitive.
pub proof fn lemma_i_eq_trans(a: IRat, b: IRat, c: IRat)
    requires
        i_inv(b),
        i_eq(a, b),
        i_eq(b, c),
    ensures
        i_eq(a, c),
{
    lemma_rat_eq_trans(a.lo, b.lo, c.lo);
    lemma_rat_eq_trans(a.hi, b.hi, c.hi);
}

pub proof fn lemma_i_add_congr(a: IRat, b: IRat, x: IRat, y: IRat)
    requires
        i_inv(a),
        i_inv(b),
        i_inv(x),
        i_inv(y),
        i_eq(a, x),
        i_eq(b, y),
    ensures
        i_inv(i_add(a, b)),
        i_inv(i_add(x, y)),
        i_eq(i_add(a, b), i_add(x, y)),
{
    lemma_rat_ops_inv(a.lo, b.lo);
    lemma_rat_ops_inv(a.hi, b.hi);
    lemma_rat_ops_inv(x.lo, y.lo);
    lemma_rat_ops_inv(x.hi, y.hi);
    lemma_rat_add_congr(a.lo, b.lo, x.lo, y.lo);
    lemma_rat_add_congr(a.hi, b.hi, x.hi, y.hi);
}

pub proof fn lemma_i_sub_congr(a: IRat, b: IRat, x: IRat, y: IRat)
    requires
        i_inv(a),
        i_inv(b),
        i_inv(x),
        i_inv(y),
        i_eq(a, x),
        i_eq(b, y),
    ensures
        i_inv(i_sub(a, b)),
        i_inv(i_sub(x, y)),
        i_eq(i_sub(a, b), i_sub(x, y)),
{
    lemma_rat_ops_inv(a.lo, b.hi);
    lemma_rat_ops_inv(a.hi, b.lo);
    lemma_rat_ops_inv(x.lo, y.hi);
    lemma_rat_ops_inv(x.hi, y.lo);
    lemma_rat_add_congr(a.lo, b.hi, x.lo, y.hi);
    lemma_rat_add_congr(a.hi, b.lo, x.hi, y.lo);
}

pub proof fn lemma_i_neg_congr(a: IRat, x: IRat)
    requires
        i_inv(a),
        i_inv(x),
        i_eq(a, x),
    ensures
        i_inv(i_neg(a)),
        i_inv(i_neg(x)),
        i_eq(i_neg(a), i_neg(x)),
{
    lemma_rat_neg_congr(a.lo, x.lo);
    lemma_rat_neg_congr(a.hi, x.hi);
}

pub proof fn lemma_i_mul_inv(a: IRat, b: IRat)
    requires
        i_inv(a),
        i_inv(b),
    ensures
        i_inv(i_mul(a, b)),
{
    lemma_rat_ops_inv(a.lo, b.lo);
    lemma_rat_ops_inv(a.lo, b.hi);
    lemma_rat_ops_inv(a.hi, b.lo);
    lemma_rat_ops_inv(a.hi, b.hi);
    lemma_rat_ops_inv(rat_mul(a.lo, b.lo), rat_mul(a.lo, b.hi));
    lemma_rat_ops_inv(rat_mul(a.hi, b.lo), rat_mul(a.hi, b.hi));
    lemma_rat_ops_inv(
        rat_min(rat_mul(a.lo, b.lo), rat_mul(a.lo, b.hi)),
        rat_min(rat_mul(a.hi, b.lo), rat_mul(a.hi, b.hi)),
    );
    lemma_rat_ops_inv(
        rat_max(rat_mul(a.lo, b.lo), rat_mul(a.lo, b.hi)),
        rat_max(rat_mul(a.hi, b.lo), rat_mul(a.hi, b.hi)),
    );
}

pub proof fn lemma_i_mul_congr(a: IRat, b: IRat, x: IRat, y: IRat)
    requires
        i_inv(a),
        i_inv(b),
        i_inv(x),
        i_inv(y),
        i_eq(a, x),
        i_eq(b, y),
    ensures
        i_inv(i_mul(a, b)),
        i_inv(i_mul(x, y)),
        i_eq(i_mul(a, b), i_mul(x, y)),
{
    lemma_i_mul_inv(a, b);
    lemma_i_mul_inv(x, y);
    lemma_rat_ops_inv(a.lo, b.lo);
    lemma_rat_ops_inv(a.lo, b.hi);
    lemma_rat_ops_inv(a.hi, b.lo);
    lemma_rat_ops_inv(a.hi, b.hi);
    lemma_rat_ops_inv(x.lo, y.lo);
    lemma_rat_ops_inv(x.lo, y.hi);
    lemma_rat_ops_inv(x.hi, y.lo);
    lemma_rat_ops_inv(x.hi, y.hi);
    lemma_rat_mul_congr(a.lo, b.lo, x.lo, y.lo);
    lemma_rat_mul_congr(a.lo, b.hi, x.lo, y.hi);
    lemma_rat_mul_congr(a.hi, b.lo, x.hi, y.lo);
    lemma_rat_mul_congr(a.hi, b.hi, x.hi, y.hi);
    lemma_rat_min_max_congr(rat_mul(a.lo, b.lo), rat_mul(a.lo, b.hi), rat_mul(x.lo, y.lo), rat_mul(x.lo, y.hi));
    lemma_rat_min_max_congr(rat_mul(a.hi, b.lo), rat_mul(a.hi, b.hi), rat_mul(x.hi, y.lo), rat_mul(x.hi, y.hi));
    lemma_rat_ops_inv(rat_mul(a.lo, b.lo), rat_mul(a.lo, b.hi));
    lemma_rat_ops_inv(rat_mul(a.hi, b.lo), rat_mul(a.hi, b.hi));
    lemma_rat_ops_inv(rat_mul(x.lo, y.lo), rat_mul(x.lo, y.hi));
    lemma_rat_ops_inv(rat_mul(x.hi, y.lo), rat_mul(x.hi, y.hi));
    lemma_rat_min_max_congr(
        rat_min(rat_mul(a.lo, b.lo), rat_mul(a.lo, b.hi)),
        rat_min(rat_mul(a.hi, b.lo), rat_mul(a.hi, b.hi)),
        rat_min(rat_mul(x.lo, y.lo), rat_mul(x.lo, y.hi)),
        rat_min(rat_mul(x.hi, y.lo), rat_mul(x.hi, y.hi)),
    );
    lemma_rat_min_max_congr(
        rat_max(rat_mul(a.lo, b.lo), rat_mul(a.lo, b.hi)),
        rat_max(rat_mul(a.hi, b.lo), rat_mul(a.hi, b.hi)),
        rat_max(rat_mul(x.lo, y.lo), rat_mul(x.lo, y.hi)),
        rat_max(rat_mul(x.hi, y.lo), rat_mul(x.hi, y.hi)),
    );
}

pub proof fn lemma_i_recip_congr(a: IRat, x: IRat)
    requires
        i_inv(a),
        i_inv(x),
        i_eq(a, x),
        i_sign_definite(a),
    ensures
        i_sign_definite(x),
        i_inv(i_recip(a)),
        i_inv(i_recip(x)),
        i_eq(i_recip(a), i_recip(x)),
{
    lemma_rat_sign_congr(a.lo, x.lo);
    lemma_rat_sign_congr(a.hi, x.hi);
    lemma_rat_recip_basic(a.lo);
    lemma_rat_recip_basic(a.hi);
    lemma_rat_recip_basic(x.lo);
    lemma_rat_recip_basic(x.hi);
    lemma_rat_recip_congr(a.lo, x.lo);
    lemma_rat_recip_congr(a.hi, x.hi);
}


// ---------------------------------------------------------------------------
// Soundness, tightness and inclusion monotonicity of the interval
// operations.
// ---------------------------------------------------------------------------

/// The sum of two intervals contains every sum of contained values, and its
/// bounds are exactly the sums of the bounds: no widening.
pub proof fn lemma_i_add_sound(a: IRat, b: IRat, x: Rat, y: Rat)
    requires
        i_inv(a),
        i_inv(b),
        rat_inv(x),
        rat_inv(y),
        i_contains(a, x),
        i_contains(b, y),
    ensures
        i_contains(i_add(a, b), rat_add(x, y)),
{
    lemma_rat_add_mono(a.lo, x, b.lo, y);
    lemma_rat_add_mono(x, a.hi, y, b.hi);
}

/// Every product of values taken from `a` and `b` lies within `i_mul(a, b)`:
/// the soundness of interval multiplication.
pub proof fn lemma_i_mul_sound(a: IRat, b: IRat, x: Rat, y: Rat)
    requires
        i_inv(a),
        i_inv(b),
        rat_inv(x),
        rat_inv(y),
        i_contains(a, x),
        i_contains(b, y),
    ensures
        i_contains(i_mul(a, b), rat_mul(x, y)),
{
    let p = rat_mul(x, y);
    let l1 = rat_mul(a.lo, y);
    let l2 = rat_mul(a.hi, y);
    let ll = rat_mul(a.lo, b.lo);
    let lh = rat_mul(a.lo, b.hi);
    let hl = rat_mul(a.hi, b.lo);
    let hh = rat_mul(a.hi, b.hi);
    lemma_rat_ops_inv(x, y);
    lemma_rat_ops_inv(a.lo, y);
    lemma_rat_ops_inv(a.hi, y);
    lemma_rat_ops_inv(a.lo, b.lo);
    lemma_rat_ops_inv(a.lo, b.hi);
    lemma_rat_ops_inv(a.hi, b.lo);
    lemma_rat_ops_inv(a.hi, b.hi);
    lemma_rat_ops_inv(ll, lh);
    lemma_rat_ops_inv(hl, hh);
    lemma_rat_mul_mono_r(a.lo, x, y);
    lemma_rat_mul_mono_r(x, a.hi, y);
    lemma_rat_mul_mono_l(a.lo, b.lo, y);
    lemma_rat_mul_mono_l(a.lo, y, b.hi);
    lemma_rat_mul_mono_l(a.hi, b.lo, y);
    lemma_rat_mul_mono_l(a.hi, y, b.hi);
    lemma_rat_min_max_le(ll, lh);
    lemma_rat_min_max_le(hl, hh);
    lemma_rat_min_max_le(rat_min(ll, lh), rat_min(hl, hh));
    lemma_rat_min_max_le(rat_max(ll, lh), rat_max(hl, hh));
    // min(ll, lh) <= l1 <= max(ll, lh), and the same around l2.
    if 0 <= a.lo.n {
        lemma_rat_le_trans(rat_min(ll, lh), ll, l1);
        lemma_rat_le_trans(l1, lh, rat_max(ll, lh));
    } else {
        lemma_rat_le_trans(rat_min(ll, lh), lh, l1);
        lemma_rat_le_trans(l1, ll, rat_max(ll, lh));
    }
    if 0 <= a.hi.n {
        lemma_rat_le_trans(rat_min(hl, hh), hl, l2);
        lemma_rat_le_trans(l2, hh, rat_max(hl, hh));
    } else {
        lemma_rat_le_trans(rat_min(hl, hh), hh, l2);
        lemma_rat_le_trans(l2, hl, rat_max(hl, hh));
    }
    // the overall bounds reach l1 and l2.
    lemma_rat_ops_inv(rat_min(ll, lh), rat_min(hl, hh));
    lemma_rat_ops_inv(rat_max(ll, lh), rat_max(hl, hh));
    lemma_rat_le_trans(mul_lo(a.lo, a.hi, b.lo, b.hi), rat_min(ll, lh), l1);
    lemma_rat_le_trans(mul_lo(a.lo, a.hi, b.lo, b.hi), rat_min(hl, hh), l2);
    lemma_rat_le_trans(l1, rat_max(ll, lh), mul_hi(a.lo, a.hi, b.lo, b.hi));
    lemma_rat_le_trans(l2, rat_max(hl, hh), mul_hi(a.lo, a.hi, b.lo, b.hi));
    // and through l1 <= p <= l2 or the reverse, they reach p.
    if 0 <= y.n {
        lemma_rat_le_trans(mul_lo(a.lo, a.hi, b.lo, b.hi), l1, p);
        lemma_rat_le_trans(p, l2, mul_hi(a.lo, a.hi, b.lo, b.hi));
    } else {
        lemma_rat_le_trans(mul_lo(a.lo, a.hi, b.lo, b.hi), l2, p);
        lemma_rat_le_trans(p, l1, mul_hi(a.lo, a.hi, b.lo, b.hi));
    }
}

/// Sums of sub-intervals stay within the sum of the wholes.
pub proof fn lemma_i_add_mono(a: IRat, b: IRat, a2: IRat, b2: IRat)
    requires
        i_inv(a),
        i_inv(b),
        i_inv(a2),
        i_inv(b2),
        i_subset(a, a2),
        i_subset(b, b2),
    ensures
        i_subset(i_add(a, b), i_add(a2, b2)),
{
    lemma_rat_add_mono(a2.lo, a.lo, b2.lo, b.lo);
    lemma_rat_add_mono(a.hi, a2.hi, b.hi, b2.hi);
}

/// Differences of sub-intervals stay within the difference of the wholes.
pub proof fn lemma_i_sub_mono(a: IRat, b: IRat, a2: IRat, b2: IRat)
    requires
        i_inv(a),
        i_inv(b),
        i_inv(a2),
        i_inv(b2),
        i_subset(a, a2),
        i_subset(b, b2),
    ensures
        i_subset(i_sub(a, b), i_sub(a2, b2)),
{
    lemma_rat_sub_mono(a2.lo, a.lo, b2.hi, b.hi);
    lemma_rat_sub_mono(a.hi, a2.hi, b.lo, b2.lo);
}

/// Negations of sub-intervals stay within the negation of the whole.
pub proof fn lemma_i_neg_mono(a: IRat, a2: IRat)
    requires
        i_inv(a),
        i_inv(a2),
        i_subset(a, a2),
    ensures
        i_subset(i_neg(a), i_neg(a2)),
{
    lemma_rat_neg_mono(a.hi, a2.hi);
    lemma_rat_neg_mono(a2.lo, a.lo);
}

/// Well-formedness survives the interval operations.
pub proof fn lemma_i_ops_wf(a: IRat, b: IRat)
    requires
        i_wf(a),
        i_wf(b),
    ensures
        i_wf(i_add(a, b)),
        i_wf(i_sub(a, b)),
        i_wf(i_neg(a)),
        i_wf(i_mul(a, b)),
{
    lemma_rat_add_mono(a.lo, a.hi, b.lo, b.hi);
    lemma_rat_sub_mono(a.lo, a.hi, b.hi, b.lo);
    lemma_rat_neg_mono(a.lo, a.hi);
    lemma_rat_ops_inv(a.lo, b.lo);
    lemma_rat_ops_inv(a.lo, b.hi);
    lemma_rat_ops_inv(a.hi, b.lo);
    lemma_rat_ops_inv(a.hi, b.hi);
    lemma_i_mul_inv(a, b);
    let ll = rat_mul(a.lo, b.lo);
    let lh = rat_mul(a.lo, b.hi);
    let hl = rat_mul(a.hi, b.lo);
    let hh = rat_mul(a.hi, b.hi);
    lemma_rat_ops_inv(ll, lh);
    lemma_rat_ops_inv(hl, hh);
    lemma_rat_min_max_le(ll, lh);
    lemma_rat_min_max_le(hl, hh);
    lemma_rat_min_max_le(rat_min(ll, lh), rat_min(hl, hh));
    lemma_rat_min_max_le(rat_max(ll, lh), rat_max(hl, hh));
    lemma_rat_ops_inv(rat_min(ll, lh), rat_min(hl, hh));
    lemma_rat_ops_inv(rat_max(ll, lh), rat_max(hl, hh));
    lemma_rat_le_trans(mul_lo(a.lo, a.hi, b.lo, b.hi), rat_min(ll, lh), ll);
    lemma_rat_le_trans(ll, rat_max(ll, lh), mul_hi(a.lo, a.hi, b.lo, b.hi));
    lemma_rat_le_trans(mul_lo(a.lo, a.hi, b.lo, b.hi), ll, mul_hi(a.lo, a.hi, b.lo, b.hi));
}

/// Products of sub-intervals stay within the product of the wholes.
pub proof fn lemma_i_mul_mono(a: IRat, b: IRat, a2: IRat, b2: IRat)
    requires
        i_wf(a),
        i_wf(b),
        i_inv(a2),
        i_inv(b2),
        i_subset(a, a2),
        i_subset(b, b2),
    ensures
        i_subset(i_mul(a, b), i_mul(a2, b2)),
{
    lemma_rat_le_trans(a2.lo, a.lo, a.hi);
    lemma_rat_le_trans(a.lo, a.hi, a2.hi);
    lemma_rat_le_trans(b2.lo, b.lo, b.hi);
    lemma_rat_le_trans(b.lo, b.hi, b2.hi);
    lemma_i_mul_sound(a2, b2, a.lo, b.lo);
    lemma_i_mul_sound(a2, b2, a.lo, b.hi);
    lemma_i_mul_sound(a2, b2, a.hi, b.lo);
    lemma_i_mul_sound(a2, b2, a.hi, b.hi);
}

/// Reciprocals of sub-intervals stay within the reciprocal of a
/// sign-definite whole.
pub proof fn lemma_i_recip_mono(a: IRat, a2: IRat)
    requires
        i_wf(a),
        i_inv(a2),
        i_subset(a, a2),
        i_sign_definite(a2),
    ensures
        i_sign_definite(a),
        i_subset(i_recip(a), i_recip(a2)),
{
    lemma_rat_pos_le_trans(a2.lo, a.lo);
    lemma_rat_pos_le_trans(a.hi, a2.hi);
    if rat_pos(a2.lo) {
        lemma_rat_pos_le_trans(a.lo, a.hi);
    } else {
        lemma_rat_pos_le_trans(a.lo, a.hi);
    }
    lemma_rat_recip_anti(a.hi, a2.hi);
    lemma_rat_recip_anti(a2.lo, a.lo);
}

/// A well-formed sign-definite interval has a well-formed reciprocal.
pub proof fn lemma_i_recip_wf(a: IRat)
    requires
        i_wf(a),
        i_sign_definite(a),
    ensures
        i_wf(i_recip(a)),
{
    lemma_rat_recip_basic(a.lo);
    lemma_rat_recip_basic(a.hi);
    lemma_rat_recip_anti(a.lo, a.hi);
}

/// Squaring is at least as tight as self-multiplication, and identical when
/// the interval's endpoints do not straddle zero by sign.
pub proof fn lemma_i_square_tight(a: IRat)
    requires
        i_inv(a),
    ensures
        i_subset(i_square(a), i_mul(a, a)),
        rat_signum(a.lo) == rat_signum(a.hi) ==> i_eq(i_square(a), i_mul(a, a)),
{
    let ll = rat_mul(a.lo, a.lo);
    let lh = rat_mul(a.lo, a.hi);
    let hl = rat_mul(a.hi, a.lo);
    let hh = rat_mul(a.hi, a.hi);
    lemma_rat_ops_inv(a.lo, a.lo);
    lemma_rat_ops_inv(a.lo, a.hi);
    lemma_rat_ops_inv(a.hi, a.lo);
    lemma_rat_ops_inv(a.hi, a.hi);
    lemma_rat_ops_inv(ll, lh);
    lemma_rat_ops_inv(hl, hh);
    lemma_rat_ops_inv(ll, hh);
    lemma_rat_min_max_le(ll, lh);
    lemma_rat_min_max_le(hl, hh);
    lemma_rat_min_max_le(ll, hh);
    lemma_rat_min_max_le(rat_min(ll, lh), rat_min(hl, hh));
    lemma_rat_min_max_le(rat_max(ll, lh), rat_max(hl, hh));
    lemma_rat_ops_inv(rat_min(ll, lh), rat_min(hl, hh));
    lemma_rat_ops_inv(rat_max(ll, lh), rat_max(hl, hh));
    // the upper bound of the square is always within the product's.
    if rat_le(ll, hh) {
        lemma_rat_le_trans(hh, rat_max(hl, hh), mul_hi(a.lo, a.hi, a.lo, a.hi));
    } else {
        lemma_rat_le_trans(ll, rat_max(ll, lh), mul_hi(a.lo, a.hi, a.lo, a.hi));
    }
    if rat_signum(a.lo) != rat_signum(a.hi) {
        // the least square is zero; the product's lower bound is at most
        // the mixed product, which is at most zero.
        lemma_rat_mixed_sign_mul(a.lo, a.hi);
        lemma_rat_le_trans(mul_lo(a.lo, a.hi, a.lo, a.hi), rat_min(ll, lh), lh);
        lemma_rat_le_trans(mul_lo(a.lo, a.hi, a.lo, a.hi), lh, rat_zero());
    } else {
        // same signs: bounds coincide.
        lemma_rat_square_between(a.lo, a.hi);
        lemma_rat_mul_comm_pair(a.lo, a.hi);
        // lower bounds: each of the four products is at least min(ll, hh).
        lemma_rat_le_congr(rat_min(ll, hh), lh, rat_min(ll, hh), hl);
        if rat_le(ll, hh) {
            lemma_rat_le_trans(mul_lo(a.lo, a.hi, a.lo, a.hi), rat_min(ll, lh), ll);
        } else {
            lemma_rat_le_trans(mul_lo(a.lo, a.hi, a.lo, a.hi), rat_min(hl, hh), hh);
        }
        // min(ll, hh) is below all four products, so below the computed
        // lower bound.
        lemma_rat_le_trans(rat_min(ll, hh), ll, ll);
        assert(rat_le(rat_min(ll, hh), ll));
        assert(rat_le(rat_min(ll, hh), hh));
        assert(rat_le(rat_min(ll, hh), lh));
        assert(rat_le(rat_min(ll, hh), hl));
        assert(rat_le(rat_min(ll, hh), rat_min(ll, lh)));
        assert(rat_le(rat_min(ll, hh), rat_min(hl, hh)));
        assert(rat_le(rat_min(ll, hh), mul_lo(a.lo, a.hi, a.lo, a.hi)));
        // upper bounds: all four products are at most max(ll, hh).
        lemma_rat_le_congr(lh, rat_max(ll, hh), hl, rat_max(ll, hh));
        assert(rat_le(ll, rat_max(ll, hh)));
        assert(rat_le(hh, rat_max(ll, hh)));
        assert(rat_le(lh, rat_max(ll, hh)));
        assert(rat_le(hl, rat_max(ll, hh)));
        assert(rat_le(rat_max(ll, lh), rat_max(ll, hh)));
        assert(rat_le(rat_max(hl, hh), rat_max(ll, hh)));
        assert(rat_le(mul_hi(a.lo, a.hi, a.lo, a.hi), rat_max(ll, hh)));
    }
}

/// The two mixed products of a pair denote the same rational.
proof fn lemma_rat_mul_comm_pair(u: Rat, v: Rat)
    requires
        rat_inv(u),
        rat_inv(v),
    ensures
        rat_eq(rat_mul(u, v), rat_mul(v, u)),
{
    assert((u.n * v.n) * (v.d * u.d) == (v.n * u.n) * (u.d * v.d)) by (nonlinear_arith);
}


// ---------------------------------------------------------------------------
// Degenerate intervals: width zero propagates as exactness.
// ---------------------------------------------------------------------------

/// Both bounds denote the same rational: the interval holds a single value.
pub open spec fn i_degen(a: IRat) -> bool {
    rat_eq(a.lo, a.hi)
}

/// Sums and differences of degenerate intervals are degenerate.
pub proof fn lemma_i_degen_ops(a: IRat, b: IRat)
    requires
        i_inv(a),
        i_inv(b),
        i_degen(a),
        i_degen(b),
    ensures
        i_degen(i_add(a, b)),
        i_degen(i_sub(a, b)),
{
    lemma_rat_add_congr(a.lo, b.lo, a.hi, b.hi);
    lemma_rat_add_congr(a.lo, b.hi, a.hi, b.lo);
}

/// The negation of a degenerate interval is degenerate.
pub proof fn lemma_i_neg_degen(a: IRat)
    requires
        i_inv(a),
        i_degen(a),
    ensures
        i_degen(i_neg(a)),
{
    lemma_rat_neg_congr(a.hi, a.lo);
}

/// The product of degenerate intervals is degenerate.
pub proof fn lemma_i_mul_degen(a: IRat, b: IRat)
    requires
        i_inv(a),
        i_inv(b),
        i_degen(a),
        i_degen(b),
    ensures
        i_degen(i_mul(a, b)),
{
    let ll = rat_mul(a.lo, b.lo);
    let lh = rat_mul(a.lo, b.hi);
    let hl = rat_mul(a.hi, b.lo);
    let hh = rat_mul(a.hi, b.hi);
    lemma_rat_ops_inv(a.lo, b.lo);
    lemma_rat_ops_inv(a.lo, b.hi);
    lemma_rat_ops_inv(a.hi, b.lo);
    lemma_rat_ops_inv(a.hi, b.hi);
    lemma_rat_mul_congr(a.lo, b.hi, a.lo, b.lo);
    lemma_rat_mul_congr(a.hi, b.lo, a.lo, b.lo);
    lemma_rat_mul_congr(a.hi, b.hi, a.lo, b.lo);
    lemma_rat_min_max_congr(ll, lh, ll, ll);
    lemma_rat_min_max_congr(hl, hh, ll, ll);
    lemma_rat_ops_inv(ll, lh);
    lemma_rat_ops_inv(hl, hh);
    lemma_rat_ops_inv(ll, ll);
    lemma_rat_min_max_congr(rat_min(ll, lh), rat_min(hl, hh), ll, ll);
    lemma_rat_min_max_congr(rat_max(ll, lh), rat_max(hl, hh), ll, ll);
    lemma_rat_eq_trans(mul_lo(a.lo, a.hi, b.lo, b.hi), ll, mul_hi(a.lo, a.hi, b.lo, b.hi));
}

/// The reciprocal of a degenerate sign-definite interval is degenerate.
pub proof fn lemma_i_recip_degen(a: IRat)
    requires
        i_inv(a),
        i_degen(a),
        i_sign_definite(a),
    ensures
        i_degen(i_recip(a)),
{
    lemma_rat_recip_congr(a.hi, a.lo);
}


/// Containment transfers between intervals with the same bounds.
pub proof fn lemma_i_contains_congr(a: IRat, b: IRat, x: Rat)
    requires
        i_inv(a),
        i_inv(b),
        rat_inv(x),
        i_eq(a, b),
        i_contains(b, x),
    ensures
        i_contains(a, x),
{
    lemma_rat_le_congr(b.lo, x, a.lo, x);
    lemma_rat_le_congr(x, b.hi, x, a.hi);
}

/// Interval inclusion is transitive.
pub proof fn lemma_i_subset_trans(a: IRat, b: IRat, c: IRat)
    requires
        i_inv(a),
        i_inv(b),
        i_inv(c),
        i_subset(a, b),
        i_subset(b, c),
    ensures
        i_subset(a, c),
{
    lemma_rat_le_trans(c.lo, b.lo, a.lo);
    lemma_rat_le_trans(a.hi, b.hi, c.hi);
}

} // verus!

//! The mathematical model of exact rational numbers.
//!
//! A rational is modelled as a pair of unbounded integers `n / d` with `d > 0`.
//! Pairs are compared through cross-multiplication, so two pairs denote the
//! same rational exactly when `rat_eq` holds; nothing here requires a pair to
//! be reduced.

use vstd::prelude::*;

verus! {

/// A rational number `n / d`, as a pair of unbounded integers.
pub ghost struct Rat {
    pub n: int,
    pub d: int,
}

/// A pair denotes a rational only when its denominator is positive.
pub open spec fn rat_inv(a: Rat) -> bool {
    a.d > 0
}

/// `a` and `b` denote the same rational.
pub open spec fn rat_eq(a: Rat, b: Rat) -> bool {
    a.n * b.d == b.n * a.d
}

/// `a <= b` as rationals (for pairs with positive denominators).
pub open spec fn rat_le(a: Rat, b: Rat) -> bool {
    a.n * b.d <= b.n * a.d
}

/// `a < b` as rationals (for pairs with positive denominators).
pub open spec fn rat_lt(a: Rat, b: Rat) -> bool {
    a.n * b.d < b.n * a.d
}

/// The value of `a` is strictly positive.
pub open spec fn rat_pos(a: Rat) -> bool {
    a.n > 0
}

/// The value of `a` is strictly negative.
pub open spec fn rat_neg_val(a: Rat) -> bool {
    a.n < 0
}

/// The sign of `a`: `1`, `0` or `-1`.
pub open spec fn rat_signum(a: Rat) -> int {
    if a.n > 0 {
        1int
    } else if a.n < 0 {
        -1int
    } else {
        0int
    }
}

pub open spec fn rat_zero() -> Rat {
    Rat { n: 0, d: 1 }
}

pub open spec fn rat_one() -> Rat {
    Rat { n: 1, d: 1 }
}

pub open spec fn rat_of_int(i: int) -> Rat {
    Rat { n: i, d: 1 }
}

pub open spec fn rat_add(a: Rat, b: Rat) -> Rat {
    Rat { n: a.n * b.d + b.n * a.d, d: a.d * b.d }
}

pub open spec fn rat_sub(a: Rat, b: Rat) -> Rat {
    Rat { n: a.n * b.d - b.n * a.d, d: a.d * b.d }
}

pub open spec fn rat_neg(a: Rat) -> Rat {
    Rat { n: -a.n, d: a.d }
}

pub open spec fn rat_mul(a: Rat, b: Rat) -> Rat {
    Rat { n: a.n * b.n, d: a.d * b.d }
}

/// The reciprocal, with the sign moved so the denominator stays positive.
/// Meaningful only when `a` is not zero.
pub open spec fn rat_recip(a: Rat) -> Rat {
    if a.n > 0 {
        Rat { n: a.d, d: a.n }
    } else {
        Rat { n: -a.d, d: -a.n }
    }
}

pub open spec fn rat_min(a: Rat, b: Rat) -> Rat {
    if rat_le(a, b) {
        a
    } else {
        b
    }
}

pub open spec fn rat_max(a: Rat, b: Rat) -> Rat {
    if rat_le(a, b) {
        b
    } else {
        a
    }
}

pub open spec fn rat_half() -> Rat {
    Rat { n: 1, d: 2 }
}

/// The midpoint of two rationals: their average.
pub open spec fn rat_avg(a: Rat, b: Rat) -> Rat {
    rat_mul(rat_add(a, b), rat_half())
}

// ---------------------------------------------------------------------------
// Integer-level helpers, proved with the nonlinear solver.
// ---------------------------------------------------------------------------

proof fn mul_mono_nonneg(a: int, b: int, c: int) by (nonlinear_arith)
    requires
        a <= b,
        0 <= c,
    ensures
        a * c <= b * c,
{
}

proof fn mul_pos(a: int, b: int) by (nonlinear_arith)
    requires
        0 < a,
        0 < b,
    ensures
        0 < a * b,
{
}

proof fn eq_trans_int(an: int, ad: int, bn: int, bd: int, cn: int, cd: int) by (nonlinear_arith)
    requires
        bd > 0,
        an * bd == bn * ad,
        bn * cd == cn * bd,
    ensures
        an * cd == cn * ad,
{
}

proof fn le_trans_int(an: int, ad: int, bn: int, bd: int, cn: int, cd: int) by (nonlinear_arith)
    requires
        ad > 0,
        bd > 0,
        cd > 0,
        an * bd <= bn * ad,
        bn * cd <= cn * bd,
    ensures
        an * cd <= cn * ad,
{
}

proof fn le_congr_int(
    an: int,
    ad: int,
    bn: int,
    bd: int,
    xn: int,
    xd: int,
    yn: int,
    yd: int,
) by (nonlinear_arith)
    requires
        ad > 0,
        bd > 0,
        xd > 0,
        yd > 0,
        an * xd == xn * ad,
        bn * yd == yn * bd,
        an * bd <= bn * ad,
    ensures
        xn * yd <= yn * xd,
{
}

proof fn sign_congr_int(an: int, ad: int, bn: int, bd: int) by (nonlinear_arith)
    requires
        ad > 0,
        bd > 0,
        an * bd == bn * ad,
    ensures
        (an > 0) == (bn > 0),
        (an < 0) == (bn < 0),
        (an == 0) == (bn == 0),
{
}

// ---------------------------------------------------------------------------
// The order and congruence tool kit over `Rat`.
// ---------------------------------------------------------------------------

/// Denoting the same rational is transitive (only the middle pair needs a
/// positive denominator).
pub proof fn lemma_rat_eq_trans(a: Rat, b: Rat, c: Rat)
    requires
        rat_inv(b),
        rat_eq(a, b),
        rat_eq(b, c),
    ensures
        rat_eq(a, c),
{
    eq_trans_int(a.n, a.d, b.n, b.d, c.n, c.d);
}

/// The order on rationals is transitive.
pub proof fn lemma_rat_le_trans(a: Rat, b: Rat, c: Rat)
    requires
        rat_inv(a),
        rat_inv(b),
        rat_inv(c),
        rat_le(a, b),
        rat_le(b, c),
    ensures
        rat_le(a, c),
{
    le_trans_int(a.n, a.d, b.n, b.d, c.n, c.d);
}

/// The average of two ordered rationals lies between them.
pub proof fn lemma_rat_avg_between(a: Rat, b: Rat)
    requires
        rat_inv(a),
        rat_inv(b),
        rat_le(a, b),
    ensures
        rat_inv(rat_avg(a, b)),
        rat_le(a, rat_avg(a, b)),
        rat_le(rat_avg(a, b), b),
{
    mul_pos(a.d, b.d);
    mul_pos(a.d * b.d, 2);
    assert(a.n * ((a.d * b.d) * 2) <= ((a.n * b.d + b.n * a.d) * 1) * a.d) by (nonlinear_arith)
        requires
            a.d > 0,
            b.d > 0,
            a.n * b.d <= b.n * a.d,
    ;
    assert(((a.n * b.d + b.n * a.d) * 1) * b.d <= b.n * ((a.d * b.d) * 2)) by (nonlinear_arith)
        requires
            a.d > 0,
            b.d > 0,
            a.n * b.d <= b.n * a.d,
    ;
}

/// A strict bound survives a weak one, on either side.
pub proof fn lemma_rat_lt_le_trans(a: Rat, b: Rat, c: Rat)
    requires
        rat_inv(a),
        rat_inv(b),
        rat_inv(c),
        rat_lt(a, b),
        rat_le(b, c),
    ensures
        rat_lt(a, c),
{
    assert(a.n * c.d < c.n * a.d) by (nonlinear_arith)
        requires
            a.d > 0,
            b.d > 0,
            c.d > 0,
            a.n * b.d < b.n * a.d,
            b.n * c.d <= c.n * b.d,
    ;
}

/// A weak bound followed by a strict one stays strict.
pub proof fn lemma_rat_le_lt_trans(a: Rat, b: Rat, c: Rat)
    requires
        rat_inv(a),
        rat_inv(b),
        rat_inv(c),
        rat_le(a, b),
        rat_lt(b, c),
    ensures
        rat_lt(a, c),
{
    assert(a.n * c.d < c.n * a.d) by (nonlinear_arith)
        requires
            a.d > 0,
            b.d > 0,
            c.d > 0,
            a.n * b.d <= b.n * a.d,
            b.n * c.d < c.n * b.d,
    ;
}

/// `<=` respects denoting the same rational, on both sides.
pub proof fn lemma_rat_le_congr(a: Rat, b: Rat, x: Rat, y: Rat)
    requires
        rat_inv(a),
        rat_inv(b),
        rat_inv(x),
        rat_inv(y),
        rat_eq(a, x),
        rat_eq(b, y),
    ensures
        rat_le(a, b) == rat_le(x, y),
        rat_lt(a, b) == rat_lt(x, y),
        rat_eq(x, a),
        rat_eq(y, b),
{
    if rat_le(a, b) {
        le_congr_int(a.n, a.d, b.n, b.d, x.n, x.d, y.n, y.d);
    }
    if rat_le(x, y) {
        le_congr_int(x.n, x.d, y.n, y.d, a.n, a.d, b.n, b.d);
    }
    if rat_le(b, a) {
        le_congr_int(b.n, b.d, a.n, a.d, y.n, y.d, x.n, x.d);
    }
    if rat_le(y, x) {
        le_congr_int(y.n, y.d, x.n, x.d, b.n, b.d, a.n, a.d);
    }
}

/// The sign of a rational does not depend on the chosen pair.
pub proof fn lemma_rat_sign_congr(a: Rat, b: Rat)
    requires
        rat_inv(a),
        rat_inv(b),
        rat_eq(a, b),
    ensures
        rat_pos(a) == rat_pos(b),
        rat_neg_val(a) == rat_neg_val(b),
        rat_signum(a) == rat_signum(b),
{
    sign_congr_int(a.n, a.d, b.n, b.d);
}

/// Positivity and strict order against zero agree.
pub proof fn lemma_rat_sign_order(a: Rat)
    requires
        rat_inv(a),
    ensures
        rat_pos(a) == rat_lt(rat_zero(), a),
        rat_neg_val(a) == rat_lt(a, rat_zero()),
{
}

/// Sums, negations and products of valid pairs are valid pairs.
pub proof fn lemma_rat_ops_inv(a: Rat, b: Rat)
    requires
        rat_inv(a),
        rat_inv(b),
    ensures
        rat_inv(rat_add(a, b)),
        rat_inv(rat_sub(a, b)),
        rat_inv(rat_neg(a)),
        rat_inv(rat_mul(a, b)),
        rat_inv(rat_min(a, b)),
        rat_inv(rat_max(a, b)),
{
    mul_pos(a.d, b.d);
}

/// Addition respects denoting the same rational.
pub proof fn lemma_rat_add_congr(a: Rat, b: Rat, x: Rat, y: Rat)
    requires
        rat_inv(a),
        rat_inv(b),
        rat_inv(x),
        rat_inv(y),
        rat_eq(a, x),
        rat_eq(b, y),
    ensures
        rat_eq(rat_add(a, b), rat_add(x, y)),
        rat_eq(rat_sub(a, b), rat_sub(x, y)),
{
    assert((a.n * x.d) * (b.d * y.d) == (x.n * a.d) * (b.d * y.d));
    assert((a.n * x.d) * (b.d * y.d) == (a.n * b.d) * (x.d * y.d)) by (nonlinear_arith);
    assert((x.n * a.d) * (b.d * y.d) == (x.n * y.d) * (a.d * b.d)) by (nonlinear_arith);
    assert((b.n * y.d) * (a.d * x.d) == (y.n * b.d) * (a.d * x.d));
    assert((b.n * y.d) * (a.d * x.d) == (b.n * a.d) * (x.d * y.d)) by (nonlinear_arith);
    assert((y.n * b.d) * (a.d * x.d) == (y.n * x.d) * (a.d * b.d)) by (nonlinear_arith);
    assert((a.n * b.d + b.n * a.d) * (x.d * y.d) == (a.n * b.d) * (x.d * y.d) + (b.n * a.d) * (
    x.d * y.d)) by (nonlinear_arith);
    assert((x.n * y.d + y.n * x.d) * (a.d * b.d) == (x.n * y.d) * (a.d * b.d) + (y.n * x.d) * (
    a.d * b.d)) by (nonlinear_arith);
    assert((a.n * b.d - b.n * a.d) * (x.d * y.d) == (a.n * b.d) * (x.d * y.d) - (b.n * a.d) * (
    x.d * y.d)) by (nonlinear_arith);
    assert((x.n * y.d - y.n * x.d) * (a.d * b.d) == (x.n * y.d) * (a.d * b.d) - (y.n * x.d) * (
    a.d * b.d)) by (nonlinear_arith);
}

/// Multiplication respects denoting the same rational.
pub proof fn lemma_rat_mul_congr(a: Rat, b: Rat, x: Rat, y: Rat)
    requires
        rat_inv(a),
        rat_inv(b),
        rat_inv(x),
        rat_inv(y),
        rat_eq(a, x),
        rat_eq(b, y),
    ensures
        rat_eq(rat_mul(a, b), rat_mul(x, y)),
{
    assert((a.n * x.d) * (b.n * y.d) == (x.n * a.d) * (y.n * b.d));
    assert((a.n * x.d) * (b.n * y.d) == (a.n * b.n) * (x.d * y.d)) by (nonlinear_arith);
    assert((x.n * a.d) * (y.n * b.d) == (x.n * y.n) * (a.d * b.d)) by (nonlinear_arith);
}

/// Negation respects denoting the same rational.
pub proof fn lemma_rat_neg_congr(a: Rat, x: Rat)
    requires
        rat_inv(a),
        rat_inv(x),
        rat_eq(a, x),
    ensures
        rat_eq(rat_neg(a), rat_neg(x)),
{
    assert((-a.n) * x.d == -(a.n * x.d)) by (nonlinear_arith);
    assert((-x.n) * a.d == -(x.n * a.d)) by (nonlinear_arith);
}

/// Taking the smaller or larger of two rationals respects denotation.
pub proof fn lemma_rat_min_max_congr(a: Rat, b: Rat, x: Rat, y: Rat)
    requires
        rat_inv(a),
        rat_inv(b),
        rat_inv(x),
        rat_inv(y),
        rat_eq(a, x),
        rat_eq(b, y),
    ensures
        rat_eq(rat_min(a, b), rat_min(x, y)),
        rat_eq(rat_max(a, b), rat_max(x, y)),
{
    lemma_rat_le_congr(a, b, x, y);
}

/// The reciprocal of a nonzero rational: validity and congruence.
pub proof fn lemma_rat_recip_basic(a: Rat)
    requires
        rat_inv(a),
        a.n != 0,
    ensures
        rat_inv(rat_recip(a)),
        rat_eq(rat_mul(a, rat_recip(a)), rat_one()),
{
    if a.n > 0 {
        mul_pos(a.n, a.d);
        assert(a.n * a.d == a.d * a.n) by (nonlinear_arith);
    } else {
        mul_pos(-a.n, a.d);
        assert(a.n * (-a.d) == a.d * (-a.n)) by (nonlinear_arith);
        assert(a.d * (-a.n) > 0) by (nonlinear_arith)
            requires
                a.n < 0,
                a.d > 0,
        ;
    }
}

/// The reciprocal respects denoting the same rational.
pub proof fn lemma_rat_recip_congr(a: Rat, x: Rat)
    requires
        rat_inv(a),
        rat_inv(x),
        a.n != 0,
        rat_eq(a, x),
    ensures
        x.n != 0,
        rat_eq(rat_recip(a), rat_recip(x)),
{
    sign_congr_int(a.n, a.d, x.n, x.d);
    if a.n > 0 {
        assert(a.d * x.n == x.d * a.n) by (nonlinear_arith)
            requires
                a.n * x.d == x.n * a.d,
        ;
    } else {
        assert((-a.d) * (-x.n) == (-x.d) * (-a.n)) by (nonlinear_arith)
            requires
                a.n * x.d == x.n * a.d,
        ;
    }
}


// ---------------------------------------------------------------------------
// Order and monotonicity.
// ---------------------------------------------------------------------------

/// The smaller of two rationals is below both; the larger is above both.
pub proof fn lemma_rat_min_max_le(a: Rat, b: Rat)
    requires
        rat_inv(a),
        rat_inv(b),
    ensures
        rat_le(rat_min(a, b), a),
        rat_le(rat_min(a, b), b),
        rat_le(a, rat_max(a, b)),
        rat_le(b, rat_max(a, b)),
{
}

/// Positivity rises along the order; negativity falls along it.
pub proof fn lemma_rat_pos_le_trans(a: Rat, b: Rat)
    requires
        rat_inv(a),
        rat_inv(b),
        rat_le(a, b),
    ensures
        rat_pos(a) ==> rat_pos(b),
        rat_neg_val(b) ==> rat_neg_val(a),
{
    lemma_rat_sign_order(a);
    lemma_rat_sign_order(b);
    if rat_pos(a) {
        lemma_rat_lt_le_trans(rat_zero(), a, b);
    }
    if rat_neg_val(b) {
        lemma_rat_le_lt_trans(a, b, rat_zero());
    }
}

proof fn mul_mono_core(un: int, ud: int, vn: int, vd: int, yn: int, yd: int)
    requires
        ud > 0,
        vd > 0,
        yd > 0,
        un * vd <= vn * ud,
        0 <= yn,
    ensures
        (un * yn) * (vd * yd) <= (vn * yn) * (ud * yd),
{
    assert(0 <= yn * yd) by (nonlinear_arith)
        requires
            0 <= yn,
            0 < yd,
    ;
    mul_mono_nonneg(un * vd, vn * ud, yn * yd);
    assert((un * vd) * (yn * yd) == (un * yn) * (vd * yd)) by (nonlinear_arith);
    assert((vn * ud) * (yn * yd) == (vn * yn) * (ud * yd)) by (nonlinear_arith);
}

/// Multiplying an inequality by `y` on the right keeps it for `y >= 0` and
/// turns it around for `y <= 0`.
pub proof fn lemma_rat_mul_mono_r(u: Rat, v: Rat, y: Rat)
    requires
        rat_inv(u),
        rat_inv(v),
        rat_inv(y),
        rat_le(u, v),
    ensures
        0 <= y.n ==> rat_le(rat_mul(u, y), rat_mul(v, y)),
        y.n <= 0 ==> rat_le(rat_mul(v, y), rat_mul(u, y)),
{
    if 0 <= y.n {
        mul_mono_core(u.n, u.d, v.n, v.d, y.n, y.d);
    }
    if y.n <= 0 {
        mul_mono_core(u.n, u.d, v.n, v.d, -y.n, y.d);
        assert((u.n * (-y.n)) * (v.d * y.d) == -((u.n * y.n) * (v.d * y.d))) by (nonlinear_arith);
        assert((v.n * (-y.n)) * (u.d * y.d) == -((v.n * y.n) * (u.d * y.d))) by (nonlinear_arith);
    }
}

/// Multiplying an inequality by `y` on the left, in the same way.
pub proof fn lemma_rat_mul_mono_l(y: Rat, u: Rat, v: Rat)
    requires
        rat_inv(u),
        rat_inv(v),
        rat_inv(y),
        rat_le(u, v),
    ensures
        0 <= y.n ==> rat_le(rat_mul(y, u), rat_mul(y, v)),
        y.n <= 0 ==> rat_le(rat_mul(y, v), rat_mul(y, u)),
{
    lemma_rat_mul_mono_r(u, v, y);
    assert((y.n * u.n) * (y.d * v.d) == (u.n * y.n) * (v.d * y.d)) by (nonlinear_arith);
    assert((y.n * v.n) * (y.d * u.d) == (v.n * y.n) * (u.d * y.d)) by (nonlinear_arith);
}

/// Sums respect the order componentwise.
pub proof fn lemma_rat_add_mono(u1: Rat, v1: Rat, u2: Rat, v2: Rat)
    requires
        rat_inv(u1),
        rat_inv(v1),
        rat_inv(u2),
        rat_inv(v2),
        rat_le(u1, v1),
        rat_le(u2, v2),
    ensures
        rat_le(rat_add(u1, u2), rat_add(v1, v2)),
{
    mul_pos(u2.d, v2.d);
    mul_pos(u1.d, v1.d);
    mul_mono_nonneg(u1.n * v1.d, v1.n * u1.d, u2.d * v2.d);
    assert((u1.n * v1.d) * (u2.d * v2.d) == (u1.n * u2.d) * (v1.d * v2.d)) by (nonlinear_arith);
    assert((v1.n * u1.d) * (u2.d * v2.d) == (v1.n * v2.d) * (u1.d * u2.d)) by (nonlinear_arith);
    mul_mono_nonneg(u2.n * v2.d, v2.n * u2.d, u1.d * v1.d);
    assert((u2.n * v2.d) * (u1.d * v1.d) == (u2.n * u1.d) * (v1.d * v2.d)) by (nonlinear_arith);
    assert((v2.n * u2.d) * (u1.d * v1.d) == (v2.n * v1.d) * (u1.d * u2.d)) by (nonlinear_arith);
    assert((u1.n * u2.d + u2.n * u1.d) * (v1.d * v2.d) == (u1.n * u2.d) * (v1.d * v2.d) + (u2.n
        * u1.d) * (v1.d * v2.d)) by (nonlinear_arith);
    assert((v1.n * v2.d + v2.n * v1.d) * (u1.d * u2.d) == (v1.n * v2.d) * (u1.d * u2.d) + (v2.n
        * v1.d) * (u1.d * u2.d)) by (nonlinear_arith);
}

/// Negation turns the order around.
pub proof fn lemma_rat_neg_mono(u: Rat, v: Rat)
    requires
        rat_inv(u),
        rat_inv(v),
        rat_le(u, v),
    ensures
        rat_le(rat_neg(v), rat_neg(u)),
{
    assert((-v.n) * u.d == -(v.n * u.d)) by (nonlinear_arith);
    assert((-u.n) * v.d == -(u.n * v.d)) by (nonlinear_arith);
}

/// Differences respect the order: the minuend rises, the subtrahend falls.
pub proof fn lemma_rat_sub_mono(u1: Rat, v1: Rat, u2: Rat, v2: Rat)
    requires
        rat_inv(u1),
        rat_inv(v1),
        rat_inv(u2),
        rat_inv(v2),
        rat_le(u1, v1),
        rat_le(v2, u2),
    ensures
        rat_le(rat_sub(u1, u2), rat_sub(v1, v2)),
{
    lemma_rat_neg_mono(v2, u2);
    lemma_rat_add_mono(u1, v1, rat_neg(u2), rat_neg(v2));
    assert(u1.n * u2.d + (-u2.n) * u1.d == u1.n * u2.d - u2.n * u1.d) by (nonlinear_arith);
    assert(v1.n * v2.d + (-v2.n) * v1.d == v1.n * v2.d - v2.n * v1.d) by (nonlinear_arith);
    assert(rat_add(u1, rat_neg(u2)) == rat_sub(u1, u2));
    assert(rat_add(v1, rat_neg(v2)) == rat_sub(v1, v2));
}

/// The reciprocal turns the order around on either strict side of zero.
pub proof fn lemma_rat_recip_anti(u: Rat, v: Rat)
    requires
        rat_inv(u),
        rat_inv(v),
        rat_le(u, v),
        rat_pos(u) || rat_neg_val(v),
    ensures
        rat_le(rat_recip(v), rat_recip(u)),
{
    lemma_rat_pos_le_trans(u, v);
    if rat_pos(u) {
        assert(v.d * u.n == u.n * v.d) by (nonlinear_arith);
        assert(u.d * v.n == v.n * u.d) by (nonlinear_arith);
    } else {
        assert((-v.d) * (-u.n) == u.n * v.d) by (nonlinear_arith);
        assert((-u.d) * (-v.n) == v.n * u.d) by (nonlinear_arith);
    }
}

/// A product of factors whose signs differ, or one of which is zero, is at
/// most zero.
pub proof fn lemma_rat_mixed_sign_mul(u: Rat, v: Rat)
    requires
        rat_inv(u),
        rat_inv(v),
        rat_signum(u) != rat_signum(v),
    ensures
        rat_le(rat_mul(u, v), rat_zero()),
{
    assert(u.n * v.n <= 0) by (nonlinear_arith)
        requires
            !(u.n > 0 && v.n > 0),
            !(u.n < 0 && v.n < 0),
    ;
    assert((u.n * v.n) * 1 <= 0 * (u.d * v.d)) by (nonlinear_arith)
        requires
            u.n * v.n <= 0,
    ;
}

/// A product of two same-signed values lies between their squares.
pub proof fn lemma_rat_square_between(u: Rat, v: Rat)
    requires
        rat_inv(u),
        rat_inv(v),
        rat_signum(u) == rat_signum(v),
    ensures
        rat_le(rat_min(rat_mul(u, u), rat_mul(v, v)), rat_mul(u, v)),
        rat_le(rat_mul(u, v), rat_max(rat_mul(u, u), rat_mul(v, v))),
{
    lemma_rat_ops_inv(u, u);
    lemma_rat_ops_inv(u, v);
    lemma_rat_ops_inv(v, v);
    lemma_rat_min_max_le(rat_mul(u, u), rat_mul(v, v));
    if u.n == 0 {
        assert(rat_le(rat_mul(u, u), rat_mul(u, v))) by (nonlinear_arith)
            requires
                u.n == 0,
                u.d > 0,
                v.d > 0,
        ;
        assert(rat_le(rat_mul(u, v), rat_mul(u, u))) by (nonlinear_arith)
            requires
                u.n == 0,
                u.d > 0,
                v.d > 0,
        ;
        lemma_rat_le_trans(rat_min(rat_mul(u, u), rat_mul(v, v)), rat_mul(u, u), rat_mul(u, v));
        lemma_rat_le_trans(rat_mul(u, v), rat_mul(u, u), rat_max(rat_mul(u, u), rat_mul(v, v)));
    } else if rat_le(u, v) {
        lemma_rat_mul_mono_l(u, u, v);
        lemma_rat_mul_mono_r(u, v, v);
        if u.n > 0 {
            lemma_rat_le_trans(
                rat_min(rat_mul(u, u), rat_mul(v, v)),
                rat_mul(u, u),
                rat_mul(u, v),
            );
            lemma_rat_le_trans(
                rat_mul(u, v),
                rat_mul(v, v),
                rat_max(rat_mul(u, u), rat_mul(v, v)),
            );
        } else {
            lemma_rat_le_trans(
                rat_min(rat_mul(u, u), rat_mul(v, v)),
                rat_mul(v, v),
                rat_mul(u, v),
            );
            lemma_rat_le_trans(
                rat_mul(u, v),
                rat_mul(u, u),
                rat_max(rat_mul(u, u), rat_mul(v, v)),
            );
        }
    } else {
        lemma_rat_mul_mono_l(u, v, u);
        lemma_rat_mul_mono_r(v, u, v);
        if u.n > 0 {
            lemma_rat_le_trans(
                rat_min(rat_mul(u, u), rat_mul(v, v)),
                rat_mul(v, v),
                rat_mul(u, v),
            );
            lemma_rat_le_trans(
                rat_mul(u, v),
                rat_mul(u, u),
                rat_max(rat_mul(u, u), rat_mul(v, v)),
            );
        } else {
            lemma_rat_le_trans(
                rat_min(rat_mul(u, u), rat_mul(v, v)),
                rat_mul(u, u),
                rat_mul(u, v),
            );
            lemma_rat_le_trans(
                rat_mul(u, v),
                rat_mul(v, v),
                rat_max(rat_mul(u, u), rat_mul(v, v)),
            );
        }
    }
}

} // verus!

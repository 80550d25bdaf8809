//! Points and quaternions, generic over the scalar capability set.
//!
//! The same formulas run over exact rationals (for the one-time reference
//! computation) and over rational intervals (for certifying a whole box of
//! rotations at once): each function is verified against the interval model
//! pipeline `i_p_*` / `i_q_*`, which both instantiations share.

use vstd::prelude::*;

use crate::rat::{rat_inv, rat_eq, rat_zero, lemma_rat_sign_congr};
use crate::interval::{
    IRat, i_inv, i_wf, i_eq, i_subset, i_add, i_sub, i_neg, i_mul, i_recip, i_sign_definite,
    Scalar, sview, lemma_i_eq_trans, lemma_i_add_congr, lemma_i_sub_congr, lemma_i_neg_congr,
    lemma_i_mul_inv, lemma_i_mul_congr, lemma_i_recip_congr, lemma_i_add_mono, lemma_i_sub_mono,
    lemma_i_neg_mono, lemma_i_mul_mono, lemma_i_recip_mono, lemma_i_recip_wf, lemma_i_ops_wf,
    lemma_i_degen_ops, lemma_i_mul_degen, lemma_i_recip_degen, i_degen,
};

verus! {

/// A quaternion `r + a*i + b*j + c*k`. Over interval scalars it stands for a
/// whole box of quaternions.
pub struct Quat<T> {
    pub r: T,
    pub a: T,
    pub b: T,
    pub c: T,
}

/// A point in three dimensions, or a box of points over interval scalars.
pub struct Point3d<T> {
    pub x: T,
    pub y: T,
    pub z: T,
}

/// The interval model of a point.
pub ghost struct IPoint {
    pub x: IRat,
    pub y: IRat,
    pub z: IRat,
}

/// The interval model of a quaternion.
pub ghost struct IQuat {
    pub r: IRat,
    pub a: IRat,
    pub b: IRat,
    pub c: IRat,
}

pub open spec fn pview<T: Scalar>(p: Point3d<T>) -> IPoint {
    IPoint { x: sview(p.x), y: sview(p.y), z: sview(p.z) }
}

pub open spec fn qview<T: Scalar>(q: Quat<T>) -> IQuat {
    IQuat { r: sview(q.r), a: sview(q.a), b: sview(q.b), c: sview(q.c) }
}

pub open spec fn p_inv_m(p: IPoint) -> bool {
    i_inv(p.x) && i_inv(p.y) && i_inv(p.z)
}

pub open spec fn q_inv_m(q: IQuat) -> bool {
    i_inv(q.r) && i_inv(q.a) && i_inv(q.b) && i_inv(q.c)
}

pub open spec fn p_eq(p: IPoint, q: IPoint) -> bool {
    i_eq(p.x, q.x) && i_eq(p.y, q.y) && i_eq(p.z, q.z)
}

pub open spec fn q_eq(p: IQuat, q: IQuat) -> bool {
    i_eq(p.r, q.r) && i_eq(p.a, q.a) && i_eq(p.b, q.b) && i_eq(p.c, q.c)
}

// ---------------------------------------------------------------------------
// The model pipeline.
// ---------------------------------------------------------------------------

/// The exact interval holding only zero.
pub open spec fn i_zero() -> IRat {
    IRat { lo: rat_zero(), hi: rat_zero() }
}

pub open spec fn i_p_add(p: IPoint, q: IPoint) -> IPoint {
    IPoint { x: i_add(p.x, q.x), y: i_add(p.y, q.y), z: i_add(p.z, q.z) }
}

pub open spec fn i_p_sub(p: IPoint, q: IPoint) -> IPoint {
    IPoint { x: i_sub(p.x, q.x), y: i_sub(p.y, q.y), z: i_sub(p.z, q.z) }
}

pub open spec fn i_p_scale(p: IPoint, s: IRat) -> IPoint {
    IPoint { x: i_mul(p.x, s), y: i_mul(p.y, s), z: i_mul(p.z, s) }
}

pub open spec fn i_p_cross(p: IPoint, q: IPoint) -> IPoint {
    IPoint {
        x: i_sub(i_mul(p.y, q.z), i_mul(p.z, q.y)),
        y: i_sub(i_mul(p.z, q.x), i_mul(p.x, q.z)),
        z: i_sub(i_mul(p.x, q.y), i_mul(p.y, q.x)),
    }
}

pub open spec fn i_p_dot(p: IPoint, q: IPoint) -> IRat {
    i_add(i_add(i_mul(p.x, q.x), i_mul(p.y, q.y)), i_mul(p.z, q.z))
}

pub open spec fn i_q_conj(q: IQuat) -> IQuat {
    IQuat { r: q.r, a: i_neg(q.a), b: i_neg(q.b), c: i_neg(q.c) }
}

#[verifier::opaque]
pub open spec fn i_q_sqnorm(q: IQuat) -> IRat {
    i_add(i_add(i_add(i_mul(q.r, q.r), i_mul(q.a, q.a)), i_mul(q.b, q.b)), i_mul(q.c, q.c))
}

#[verifier::opaque]
pub open spec fn i_q_mul(x: IQuat, y: IQuat) -> IQuat {
    IQuat {
        r: i_sub(
            i_sub(i_sub(i_mul(x.r, y.r), i_mul(x.a, y.a)), i_mul(x.b, y.b)),
            i_mul(x.c, y.c),
        ),
        a: i_sub(
            i_add(i_add(i_mul(x.r, y.a), i_mul(x.b, y.c)), i_mul(x.a, y.r)),
            i_mul(x.c, y.b),
        ),
        b: i_sub(
            i_add(i_add(i_mul(x.r, y.b), i_mul(x.c, y.a)), i_mul(x.b, y.r)),
            i_mul(x.a, y.c),
        ),
        c: i_sub(
            i_add(i_add(i_mul(x.r, y.c), i_mul(x.a, y.b)), i_mul(x.c, y.r)),
            i_mul(x.b, y.a),
        ),
    }
}

/// The point lifted to a pure-imaginary quaternion.
pub open spec fn i_pure_quat(p: IPoint) -> IQuat {
    IQuat { r: i_zero(), a: p.x, b: p.y, c: p.z }
}

/// The quaternion-conjugation rotation: `q * v * conj(q)`, scaled by the
/// reciprocal of the squared norm.
#[verifier::opaque]
pub open spec fn i_rotate(q: IQuat, v: IPoint) -> IPoint {
    let rc = i_recip(i_q_sqnorm(q));
    let nn = i_q_mul(i_q_mul(q, i_pure_quat(v)), i_q_conj(q));
    IPoint { x: i_mul(nn.a, rc), y: i_mul(nn.b, rc), z: i_mul(nn.c, rc) }
}

// ---------------------------------------------------------------------------
// Congruence at the quaternion level.
// ---------------------------------------------------------------------------

/// Having the same componentwise bounds is transitive.
pub proof fn lemma_q_eq_trans(a: IQuat, b: IQuat, c: IQuat)
    requires
        q_inv_m(b),
        q_eq(a, b),
        q_eq(b, c),
    ensures
        q_eq(a, c),
{
    lemma_i_eq_trans(a.r, b.r, c.r);
    lemma_i_eq_trans(a.a, b.a, c.a);
    lemma_i_eq_trans(a.b, b.b, c.b);
    lemma_i_eq_trans(a.c, b.c, c.c);
}

/// Having the same componentwise bounds is transitive for points.
pub proof fn lemma_p_eq_trans(a: IPoint, b: IPoint, c: IPoint)
    requires
        p_inv_m(b),
        p_eq(a, b),
        p_eq(b, c),
    ensures
        p_eq(a, c),
{
    lemma_i_eq_trans(a.x, b.x, c.x);
    lemma_i_eq_trans(a.y, b.y, c.y);
    lemma_i_eq_trans(a.z, b.z, c.z);
}

/// Componentwise difference of points respects bounds.
pub proof fn lemma_i_p_sub_congr(a: IPoint, b: IPoint, x: IPoint, y: IPoint)
    requires
        p_inv_m(a),
        p_inv_m(b),
        p_inv_m(x),
        p_inv_m(y),
        p_eq(a, x),
        p_eq(b, y),
    ensures
        p_inv_m(i_p_sub(a, b)),
        p_inv_m(i_p_sub(x, y)),
        p_eq(i_p_sub(a, b), i_p_sub(x, y)),
{
    lemma_i_sub_congr(a.x, b.x, x.x, y.x);
    lemma_i_sub_congr(a.y, b.y, x.y, y.y);
    lemma_i_sub_congr(a.z, b.z, x.z, y.z);
}

/// The cross product respects componentwise bounds.
pub proof fn lemma_i_p_cross_congr(a: IPoint, b: IPoint, x: IPoint, y: IPoint)
    requires
        p_inv_m(a),
        p_inv_m(b),
        p_inv_m(x),
        p_inv_m(y),
        p_eq(a, x),
        p_eq(b, y),
    ensures
        p_inv_m(i_p_cross(a, b)),
        p_inv_m(i_p_cross(x, y)),
        p_eq(i_p_cross(a, b), i_p_cross(x, y)),
{
    lemma_i_mul_congr(a.y, b.z, x.y, y.z);
    lemma_i_mul_congr(a.z, b.y, x.z, y.y);
    lemma_i_sub_congr(i_mul(a.y, b.z), i_mul(a.z, b.y), i_mul(x.y, y.z), i_mul(x.z, y.y));
    lemma_i_mul_congr(a.z, b.x, x.z, y.x);
    lemma_i_mul_congr(a.x, b.z, x.x, y.z);
    lemma_i_sub_congr(i_mul(a.z, b.x), i_mul(a.x, b.z), i_mul(x.z, y.x), i_mul(x.x, y.z));
    lemma_i_mul_congr(a.x, b.y, x.x, y.y);
    lemma_i_mul_congr(a.y, b.x, x.y, y.x);
    lemma_i_sub_congr(i_mul(a.x, b.y), i_mul(a.y, b.x), i_mul(x.x, y.y), i_mul(x.y, y.x));
}

/// The squared norm of a valid quaternion model has valid bounds.
pub proof fn lemma_i_q_sqnorm_inv(q: IQuat)
    requires
        q_inv_m(q),
    ensures
        i_inv(i_q_sqnorm(q)),
{
    reveal(i_q_sqnorm);
    lemma_i_mul_inv(q.r, q.r);
    lemma_i_mul_inv(q.a, q.a);
    lemma_i_mul_inv(q.b, q.b);
    lemma_i_mul_inv(q.c, q.c);
    lemma_i_add_congr(i_mul(q.r, q.r), i_mul(q.a, q.a), i_mul(q.r, q.r), i_mul(q.a, q.a));
    lemma_i_add_congr(
        i_add(i_mul(q.r, q.r), i_mul(q.a, q.a)),
        i_mul(q.b, q.b),
        i_add(i_mul(q.r, q.r), i_mul(q.a, q.a)),
        i_mul(q.b, q.b),
    );
    lemma_i_add_congr(
        i_add(i_add(i_mul(q.r, q.r), i_mul(q.a, q.a)), i_mul(q.b, q.b)),
        i_mul(q.c, q.c),
        i_add(i_add(i_mul(q.r, q.r), i_mul(q.a, q.a)), i_mul(q.b, q.b)),
        i_mul(q.c, q.c),
    );
}

/// The quaternion product respects componentwise bounds.
pub proof fn lemma_i_q_mul_congr(x: IQuat, y: IQuat, x2: IQuat, y2: IQuat)
    requires
        q_inv_m(x),
        q_inv_m(y),
        q_inv_m(x2),
        q_inv_m(y2),
        q_eq(x, x2),
        q_eq(y, y2),
    ensures
        q_inv_m(i_q_mul(x, y)),
        q_inv_m(i_q_mul(x2, y2)),
        q_eq(i_q_mul(x, y), i_q_mul(x2, y2)),
{
    reveal(i_q_mul);
    lemma_i_mul_congr(x.r, y.r, x2.r, y2.r);
    lemma_i_mul_congr(x.a, y.a, x2.a, y2.a);
    lemma_i_mul_congr(x.b, y.b, x2.b, y2.b);
    lemma_i_mul_congr(x.c, y.c, x2.c, y2.c);
    lemma_i_sub_congr(i_mul(x.r, y.r), i_mul(x.a, y.a), i_mul(x2.r, y2.r), i_mul(x2.a, y2.a));
    lemma_i_sub_congr(
        i_sub(i_mul(x.r, y.r), i_mul(x.a, y.a)),
        i_mul(x.b, y.b),
        i_sub(i_mul(x2.r, y2.r), i_mul(x2.a, y2.a)),
        i_mul(x2.b, y2.b),
    );
    lemma_i_sub_congr(
        i_sub(i_sub(i_mul(x.r, y.r), i_mul(x.a, y.a)), i_mul(x.b, y.b)),
        i_mul(x.c, y.c),
        i_sub(i_sub(i_mul(x2.r, y2.r), i_mul(x2.a, y2.a)), i_mul(x2.b, y2.b)),
        i_mul(x2.c, y2.c),
    );
    lemma_i_mul_congr(x.r, y.a, x2.r, y2.a);
    lemma_i_mul_congr(x.b, y.c, x2.b, y2.c);
    lemma_i_mul_congr(x.a, y.r, x2.a, y2.r);
    lemma_i_mul_congr(x.c, y.b, x2.c, y2.b);
    lemma_i_add_congr(i_mul(x.r, y.a), i_mul(x.b, y.c), i_mul(x2.r, y2.a), i_mul(x2.b, y2.c));
    lemma_i_add_congr(
        i_add(i_mul(x.r, y.a), i_mul(x.b, y.c)),
        i_mul(x.a, y.r),
        i_add(i_mul(x2.r, y2.a), i_mul(x2.b, y2.c)),
        i_mul(x2.a, y2.r),
    );
    lemma_i_sub_congr(
        i_add(i_add(i_mul(x.r, y.a), i_mul(x.b, y.c)), i_mul(x.a, y.r)),
        i_mul(x.c, y.b),
        i_add(i_add(i_mul(x2.r, y2.a), i_mul(x2.b, y2.c)), i_mul(x2.a, y2.r)),
        i_mul(x2.c, y2.b),
    );
    lemma_i_mul_congr(x.r, y.b, x2.r, y2.b);
    lemma_i_mul_congr(x.c, y.a, x2.c, y2.a);
    lemma_i_mul_congr(x.b, y.r, x2.b, y2.r);
    lemma_i_mul_congr(x.a, y.c, x2.a, y2.c);
    lemma_i_add_congr(i_mul(x.r, y.b), i_mul(x.c, y.a), i_mul(x2.r, y2.b), i_mul(x2.c, y2.a));
    lemma_i_add_congr(
        i_add(i_mul(x.r, y.b), i_mul(x.c, y.a)),
        i_mul(x.b, y.r),
        i_add(i_mul(x2.r, y2.b), i_mul(x2.c, y2.a)),
        i_mul(x2.b, y2.r),
    );
    lemma_i_sub_congr(
        i_add(i_add(i_mul(x.r, y.b), i_mul(x.c, y.a)), i_mul(x.b, y.r)),
        i_mul(x.a, y.c),
        i_add(i_add(i_mul(x2.r, y2.b), i_mul(x2.c, y2.a)), i_mul(x2.b, y2.r)),
        i_mul(x2.a, y2.c),
    );
    lemma_i_mul_congr(x.r, y.c, x2.r, y2.c);
    lemma_i_mul_congr(x.a, y.b, x2.a, y2.b);
    lemma_i_mul_congr(x.c, y.r, x2.c, y2.r);
    lemma_i_mul_congr(x.b, y.a, x2.b, y2.a);
    lemma_i_add_congr(i_mul(x.r, y.c), i_mul(x.a, y.b), i_mul(x2.r, y2.c), i_mul(x2.a, y2.b));
    lemma_i_add_congr(
        i_add(i_mul(x.r, y.c), i_mul(x.a, y.b)),
        i_mul(x.c, y.r),
        i_add(i_mul(x2.r, y2.c), i_mul(x2.a, y2.b)),
        i_mul(x2.c, y2.r),
    );
    lemma_i_sub_congr(
        i_add(i_add(i_mul(x.r, y.c), i_mul(x.a, y.b)), i_mul(x.c, y.r)),
        i_mul(x.b, y.a),
        i_add(i_add(i_mul(x2.r, y2.c), i_mul(x2.a, y2.b)), i_mul(x2.c, y2.r)),
        i_mul(x2.b, y2.a),
    );
}

/// The model rotation of a valid point by a valid, sign-definite quaternion
/// has valid bounds.
pub proof fn lemma_i_rotate_inv(q: IQuat, v: IPoint)
    requires
        q_inv_m(q),
        p_inv_m(v),
        i_sign_definite(i_q_sqnorm(q)),
    ensures
        p_inv_m(i_rotate(q, v)),
{
    reveal(i_rotate);
    lemma_i_q_sqnorm_inv(q);
    let sn = i_q_sqnorm(q);
    crate::rat::lemma_rat_recip_basic(sn.lo);
    crate::rat::lemma_rat_recip_basic(sn.hi);
    assert(q_inv_m(i_pure_quat(v)));
    lemma_i_q_mul_congr(q, i_pure_quat(v), q, i_pure_quat(v));
    let nn1 = i_q_mul(q, i_pure_quat(v));
    assert(q_inv_m(i_q_conj(q)));
    lemma_i_q_mul_congr(nn1, i_q_conj(q), nn1, i_q_conj(q));
    let nn = i_q_mul(nn1, i_q_conj(q));
    lemma_i_mul_inv(nn.a, i_recip(sn));
    lemma_i_mul_inv(nn.b, i_recip(sn));
    lemma_i_mul_inv(nn.c, i_recip(sn));
}

// ---------------------------------------------------------------------------
// Tracked arithmetic steps: each executes one scalar operation and carries
// its bounds through a congruence with the model pipeline.
// ---------------------------------------------------------------------------

fn add_t<T: Scalar>(u: &T, v: &T, tu: Ghost<IRat>, tv: Ghost<IRat>) -> (r: T)
    requires
        rat_inv(u.lo()),
        rat_inv(u.hi()),
        rat_inv(v.lo()),
        rat_inv(v.hi()),
        i_inv(tu@),
        i_inv(tv@),
        i_eq(sview(*u), tu@),
        i_eq(sview(*v), tv@),
    ensures
        rat_inv(r.lo()),
        rat_inv(r.hi()),
        i_inv(i_add(tu@, tv@)),
        i_eq(sview(r), i_add(tu@, tv@)),
{
    let r = u.add(v);
    proof {
        lemma_i_add_congr(sview(*u), sview(*v), tu@, tv@);
        lemma_i_eq_trans(sview(r), i_add(sview(*u), sview(*v)), i_add(tu@, tv@));
    }
    r
}

fn sub_t<T: Scalar>(u: &T, v: &T, tu: Ghost<IRat>, tv: Ghost<IRat>) -> (r: T)
    requires
        rat_inv(u.lo()),
        rat_inv(u.hi()),
        rat_inv(v.lo()),
        rat_inv(v.hi()),
        i_inv(tu@),
        i_inv(tv@),
        i_eq(sview(*u), tu@),
        i_eq(sview(*v), tv@),
    ensures
        rat_inv(r.lo()),
        rat_inv(r.hi()),
        i_inv(i_sub(tu@, tv@)),
        i_eq(sview(r), i_sub(tu@, tv@)),
{
    let r = u.sub(v);
    proof {
        lemma_i_sub_congr(sview(*u), sview(*v), tu@, tv@);
        lemma_i_eq_trans(sview(r), i_sub(sview(*u), sview(*v)), i_sub(tu@, tv@));
    }
    r
}

fn mul_t<T: Scalar>(u: &T, v: &T, tu: Ghost<IRat>, tv: Ghost<IRat>) -> (r: T)
    requires
        rat_inv(u.lo()),
        rat_inv(u.hi()),
        rat_inv(v.lo()),
        rat_inv(v.hi()),
        i_inv(tu@),
        i_inv(tv@),
        i_eq(sview(*u), tu@),
        i_eq(sview(*v), tv@),
    ensures
        rat_inv(r.lo()),
        rat_inv(r.hi()),
        i_inv(i_mul(tu@, tv@)),
        i_eq(sview(r), i_mul(tu@, tv@)),
{
    let r = u.mul(v);
    proof {
        lemma_i_mul_congr(sview(*u), sview(*v), tu@, tv@);
        lemma_i_eq_trans(sview(r), i_mul(sview(*u), sview(*v)), i_mul(tu@, tv@));
    }
    r
}

fn recip_t<T: Scalar>(u: &T, tu: Ghost<IRat>) -> (r: T)
    requires
        rat_inv(u.lo()),
        rat_inv(u.hi()),
        i_inv(tu@),
        i_eq(sview(*u), tu@),
        i_sign_definite(tu@),
    ensures
        rat_inv(r.lo()),
        rat_inv(r.hi()),
        i_inv(i_recip(tu@)),
        i_eq(sview(r), i_recip(tu@)),
{
    proof {
        lemma_rat_sign_congr(u.lo(), tu@.lo);
        lemma_rat_sign_congr(u.hi(), tu@.hi);
    }
    let r = u.recip_definite();
    proof {
        lemma_i_recip_congr(sview(*u), tu@);
        lemma_i_eq_trans(sview(r), i_recip(sview(*u)), i_recip(tu@));
    }
    r
}

// ---------------------------------------------------------------------------
// Executable geometry.
// ---------------------------------------------------------------------------

impl<T: Scalar> Point3d<T> {
    /// A componentwise copy.
    pub fn dup(&self) -> (r: Point3d<T>)
        requires
            p_inv_m(pview(*self)),
        ensures
            p_inv_m(pview(r)),
            pview(r) == pview(*self),
    {
        Point3d { x: self.x.dup(), y: self.y.dup(), z: self.z.dup() }
    }

    /// Componentwise sum.
    pub fn add(&self, rhs: &Point3d<T>) -> (r: Point3d<T>)
        requires
            p_inv_m(pview(*self)),
            p_inv_m(pview(*rhs)),
        ensures
            p_inv_m(pview(r)),
            p_eq(pview(r), i_p_add(pview(*self), pview(*rhs))),
    {
        Point3d { x: self.x.add(&rhs.x), y: self.y.add(&rhs.y), z: self.z.add(&rhs.z) }
    }

    /// Componentwise difference.
    pub fn sub(&self, rhs: &Point3d<T>) -> (r: Point3d<T>)
        requires
            p_inv_m(pview(*self)),
            p_inv_m(pview(*rhs)),
        ensures
            p_inv_m(pview(r)),
            p_eq(pview(r), i_p_sub(pview(*self), pview(*rhs))),
    {
        Point3d { x: self.x.sub(&rhs.x), y: self.y.sub(&rhs.y), z: self.z.sub(&rhs.z) }
    }

    /// Each component scaled by `rhs`.
    pub fn scale(&self, rhs: &T) -> (r: Point3d<T>)
        requires
            p_inv_m(pview(*self)),
            rat_inv(rhs.lo()),
            rat_inv(rhs.hi()),
        ensures
            p_inv_m(pview(r)),
            p_eq(pview(r), i_p_scale(pview(*self), sview(*rhs))),
    {
        Point3d { x: self.x.mul(rhs), y: self.y.mul(rhs), z: self.z.mul(rhs) }
    }

    /// The cross product.
    pub fn cross(&self, rhs: &Point3d<T>) -> (r: Point3d<T>)
        requires
            p_inv_m(pview(*self)),
            p_inv_m(pview(*rhs)),
        ensures
            p_inv_m(pview(r)),
            p_eq(pview(r), i_p_cross(pview(*self), pview(*rhs))),
    {
        let ghost p = pview(*self);
        let ghost q = pview(*rhs);
        let x1 = self.y.mul(&rhs.z);
        let x2 = self.z.mul(&rhs.y);
        proof {
            lemma_i_mul_inv(p.y, q.z);
            lemma_i_mul_inv(p.z, q.y);
            lemma_i_mul_inv(p.z, q.x);
            lemma_i_mul_inv(p.x, q.z);
            lemma_i_mul_inv(p.x, q.y);
            lemma_i_mul_inv(p.y, q.x);
        }
        let x = sub_t(&x1, &x2, Ghost(i_mul(p.y, q.z)), Ghost(i_mul(p.z, q.y)));
        let y1 = self.z.mul(&rhs.x);
        let y2 = self.x.mul(&rhs.z);
        let y = sub_t(&y1, &y2, Ghost(i_mul(p.z, q.x)), Ghost(i_mul(p.x, q.z)));
        let z1 = self.x.mul(&rhs.y);
        let z2 = self.y.mul(&rhs.x);
        let z = sub_t(&z1, &z2, Ghost(i_mul(p.x, q.y)), Ghost(i_mul(p.y, q.x)));
        Point3d { x, y, z }
    }

    /// The dot product.
    pub fn dot(&self, rhs: &Point3d<T>) -> (r: T)
        requires
            p_inv_m(pview(*self)),
            p_inv_m(pview(*rhs)),
        ensures
            rat_inv(r.lo()),
            rat_inv(r.hi()),
            i_eq(sview(r), i_p_dot(pview(*self), pview(*rhs))),
    {
        let ghost p = pview(*self);
        let ghost q = pview(*rhs);
        let m1 = self.x.mul(&rhs.x);
        let m2 = self.y.mul(&rhs.y);
        let m3 = self.z.mul(&rhs.z);
        proof {
            lemma_i_mul_inv(p.x, q.x);
            lemma_i_mul_inv(p.y, q.y);
            lemma_i_mul_inv(p.z, q.z);
        }
        let s1 = add_t(&m1, &m2, Ghost(i_mul(p.x, q.x)), Ghost(i_mul(p.y, q.y)));
        let s2 = add_t(&s1, &m3, Ghost(i_add(i_mul(p.x, q.x), i_mul(p.y, q.y))), Ghost(i_mul(p.z, q.z)));
        s2
    }
}

impl<T: Scalar> Quat<T> {
    /// A componentwise copy.
    pub fn dup(&self) -> (r: Quat<T>)
        requires
            q_inv_m(qview(*self)),
        ensures
            q_inv_m(qview(r)),
            qview(r) == qview(*self),
    {
        Quat { r: self.r.dup(), a: self.a.dup(), b: self.b.dup(), c: self.c.dup() }
    }

    /// The conjugate: the three imaginary components negate.
    pub fn conj(&self) -> (r: Quat<T>)
        requires
            q_inv_m(qview(*self)),
        ensures
            q_inv_m(qview(r)),
            q_eq(qview(r), i_q_conj(qview(*self))),
    {
        Quat { r: self.r.dup(), a: self.a.neg(), b: self.b.neg(), c: self.c.neg() }
    }

    /// The squared norm: the sum of the squares of the four components.
    pub fn sqnorm(&self) -> (r: T)
        requires
            q_inv_m(qview(*self)),
        ensures
            rat_inv(r.lo()),
            rat_inv(r.hi()),
            i_eq(sview(r), i_q_sqnorm(qview(*self))),
    {
        let ghost q = qview(*self);
        let m1 = self.r.mul(&self.r);
        let m2 = self.a.mul(&self.a);
        let m3 = self.b.mul(&self.b);
        let m4 = self.c.mul(&self.c);
        proof {
            lemma_i_mul_inv(q.r, q.r);
            lemma_i_mul_inv(q.a, q.a);
            lemma_i_mul_inv(q.b, q.b);
            lemma_i_mul_inv(q.c, q.c);
        }
        let s1 = add_t(&m1, &m2, Ghost(i_mul(q.r, q.r)), Ghost(i_mul(q.a, q.a)));
        let s2 = add_t(&s1, &m3, Ghost(i_add(i_mul(q.r, q.r), i_mul(q.a, q.a))), Ghost(i_mul(q.b, q.b)));
        let s3 = add_t(
            &s2,
            &m4,
            Ghost(i_add(i_add(i_mul(q.r, q.r), i_mul(q.a, q.a)), i_mul(q.b, q.b))),
            Ghost(i_mul(q.c, q.c)),
        );
        proof {
            reveal(i_q_sqnorm);
        }
        s3
    }

    /// The quaternion product.
    pub fn mul(&self, rhs: &Quat<T>) -> (r: Quat<T>)
        requires
            q_inv_m(qview(*self)),
            q_inv_m(qview(*rhs)),
        ensures
            q_inv_m(qview(r)),
            q_eq(qview(r), i_q_mul(qview(*self), qview(*rhs))),
    {
        let ghost x = qview(*self);
        let ghost y = qview(*rhs);
        proof {
            reveal(i_q_mul);
            lemma_i_mul_inv(x.r, y.r);
            lemma_i_mul_inv(x.a, y.a);
            lemma_i_mul_inv(x.b, y.b);
            lemma_i_mul_inv(x.c, y.c);
            lemma_i_mul_inv(x.r, y.a);
            lemma_i_mul_inv(x.b, y.c);
            lemma_i_mul_inv(x.a, y.r);
            lemma_i_mul_inv(x.c, y.b);
            lemma_i_mul_inv(x.r, y.b);
            lemma_i_mul_inv(x.c, y.a);
            lemma_i_mul_inv(x.b, y.r);
            lemma_i_mul_inv(x.a, y.c);
            lemma_i_mul_inv(x.r, y.c);
            lemma_i_mul_inv(x.a, y.b);
            lemma_i_mul_inv(x.c, y.r);
            lemma_i_mul_inv(x.b, y.a);
        }
        // real component
        let p1 = self.r.mul(&rhs.r);
        let p2 = self.a.mul(&rhs.a);
        let p3 = self.b.mul(&rhs.b);
        let p4 = self.c.mul(&rhs.c);
        let t1 = sub_t(&p1, &p2, Ghost(i_mul(x.r, y.r)), Ghost(i_mul(x.a, y.a)));
        let t2 = sub_t(
            &t1,
            &p3,
            Ghost(i_sub(i_mul(x.r, y.r), i_mul(x.a, y.a))),
            Ghost(i_mul(x.b, y.b)),
        );
        let rr = sub_t(
            &t2,
            &p4,
            Ghost(i_sub(i_sub(i_mul(x.r, y.r), i_mul(x.a, y.a)), i_mul(x.b, y.b))),
            Ghost(i_mul(x.c, y.c)),
        );
        // i component
        let p5 = self.r.mul(&rhs.a);
        let p6 = self.b.mul(&rhs.c);
        let p7 = self.a.mul(&rhs.r);
        let p8 = self.c.mul(&rhs.b);
        let u1 = add_t(&p5, &p6, Ghost(i_mul(x.r, y.a)), Ghost(i_mul(x.b, y.c)));
        let u2 = add_t(
            &u1,
            &p7,
            Ghost(i_add(i_mul(x.r, y.a), i_mul(x.b, y.c))),
            Ghost(i_mul(x.a, y.r)),
        );
        let ra = sub_t(
            &u2,
            &p8,
            Ghost(i_add(i_add(i_mul(x.r, y.a), i_mul(x.b, y.c)), i_mul(x.a, y.r))),
            Ghost(i_mul(x.c, y.b)),
        );
        // j component
        let p9 = self.r.mul(&rhs.b);
        let p10 = self.c.mul(&rhs.a);
        let p11 = self.b.mul(&rhs.r);
        let p12 = self.a.mul(&rhs.c);
        let v1 = add_t(&p9, &p10, Ghost(i_mul(x.r, y.b)), Ghost(i_mul(x.c, y.a)));
        let v2 = add_t(
            &v1,
            &p11,
            Ghost(i_add(i_mul(x.r, y.b), i_mul(x.c, y.a))),
            Ghost(i_mul(x.b, y.r)),
        );
        let rb = sub_t(
            &v2,
            &p12,
            Ghost(i_add(i_add(i_mul(x.r, y.b), i_mul(x.c, y.a)), i_mul(x.b, y.r))),
            Ghost(i_mul(x.a, y.c)),
        );
        // k component
        let p13 = self.r.mul(&rhs.c);
        let p14 = self.a.mul(&rhs.b);
        let p15 = self.c.mul(&rhs.r);
        let p16 = self.b.mul(&rhs.a);
        let w1 = add_t(&p13, &p14, Ghost(i_mul(x.r, y.c)), Ghost(i_mul(x.a, y.b)));
        let w2 = add_t(
            &w1,
            &p15,
            Ghost(i_add(i_mul(x.r, y.c), i_mul(x.a, y.b))),
            Ghost(i_mul(x.c, y.r)),
        );
        let rc = sub_t(
            &w2,
            &p16,
            Ghost(i_add(i_add(i_mul(x.r, y.c), i_mul(x.a, y.b)), i_mul(x.c, y.r))),
            Ghost(i_mul(x.b, y.a)),
        );
        Quat { r: rr, a: ra, b: rb, c: rc }
    }

    /// Rotates a point: `q * v * conj(q)`, scaled by the reciprocal of the
    /// squared norm. The squared norm must be sign-definite: the caller
    /// checks this before rotating (a box of quaternions whose squared norm
    /// could reach zero cannot be rotated by).
    pub fn rotate(&self, v: &Point3d<T>) -> (r: Point3d<T>)
        requires
            q_inv_m(qview(*self)),
            p_inv_m(pview(*v)),
            i_sign_definite(i_q_sqnorm(qview(*self))),
        ensures
            p_inv_m(pview(r)),
            p_eq(pview(r), i_rotate(qview(*self), pview(*v))),
    {
        let ghost qm = qview(*self);
        let ghost vm = pview(*v);
        let sn = self.sqnorm();
        proof {
            lemma_i_q_sqnorm_inv(qm);
        }
        let rc = recip_t(&sn, Ghost(i_q_sqnorm(qm)));
        let vq = Quat { r: T::zero(), a: v.x.dup(), b: v.y.dup(), c: v.z.dup() };
        let m1 = self.mul(&vq);
        let cj = self.conj();
        let m2 = m1.mul(&cj);
        let ghost nn1 = i_q_mul(qm, i_pure_quat(vm));
        let ghost nn = i_q_mul(nn1, i_q_conj(qm));
        proof {
            reveal(i_rotate);
            assert(q_eq(qview(vq), i_pure_quat(vm)));
            lemma_i_q_mul_congr(qm, qview(vq), qm, i_pure_quat(vm));
            lemma_q_eq_trans(qview(m1), i_q_mul(qm, qview(vq)), nn1);
            lemma_i_q_mul_congr(qview(m1), qview(cj), nn1, i_q_conj(qm));
            lemma_q_eq_trans(qview(m2), i_q_mul(qview(m1), qview(cj)), nn);
        }
        let rx = mul_t(&m2.a, &rc, Ghost(nn.a), Ghost(i_recip(i_q_sqnorm(qm))));
        let ry = mul_t(&m2.b, &rc, Ghost(nn.b), Ghost(i_recip(i_q_sqnorm(qm))));
        let rz = mul_t(&m2.c, &rc, Ghost(nn.c), Ghost(i_recip(i_q_sqnorm(qm))));
        Point3d { x: rx, y: ry, z: rz }
    }
}

/// Rotates every vertex by the same rotation.
pub fn rotate_vertices<T: Scalar>(rotation: &Quat<T>, vertices: &Vec<Point3d<T>>) -> (r: Vec<
    Point3d<T>,
>)
    requires
        q_inv_m(qview(*rotation)),
        i_sign_definite(i_q_sqnorm(qview(*rotation))),
        forall|i: int| 0 <= i < vertices.len() ==> p_inv_m(pview(#[trigger] vertices[i])),
    ensures
        r.len() == vertices.len(),
        forall|i: int|
            0 <= i < r.len() ==> p_inv_m(pview(#[trigger] r[i])) && p_eq(
                pview(r[i]),
                i_rotate(qview(*rotation), pview(vertices[i])),
            ),
{
    let mut out: Vec<Point3d<T>> = Vec::new();
    let n = vertices.len();
    let mut i: usize = 0;
    while i < n
        invariant
            0 <= i <= n,
            n == vertices.len(),
            out.len() == i,
            q_inv_m(qview(*rotation)),
            i_sign_definite(i_q_sqnorm(qview(*rotation))),
            forall|k: int| 0 <= k < n ==> p_inv_m(pview(#[trigger] vertices[k])),
            forall|k: int|
                0 <= k < i ==> p_inv_m(pview(#[trigger] out[k])) && p_eq(
                    pview(out[k]),
                    i_rotate(qview(*rotation), pview(vertices[k])),
                ),
        decreases n - i,
    {
        let p = rotation.rotate(&vertices[i]);
        out.push(p);
        i += 1;
    }
    out
}


// ---------------------------------------------------------------------------
// Well-formedness, inclusion monotonicity and exactness preservation of the
// compound operations.
// ---------------------------------------------------------------------------

/// Every component is a well-formed interval.
pub open spec fn p_wf_m(p: IPoint) -> bool {
    i_wf(p.x) && i_wf(p.y) && i_wf(p.z)
}

/// Every component is a well-formed interval.
pub open spec fn q_wf_m(q: IQuat) -> bool {
    i_wf(q.r) && i_wf(q.a) && i_wf(q.b) && i_wf(q.c)
}

/// Componentwise inclusion of points.
pub open spec fn p_subset_m(c: IPoint, p: IPoint) -> bool {
    i_subset(c.x, p.x) && i_subset(c.y, p.y) && i_subset(c.z, p.z)
}

/// Componentwise inclusion of quaternions.
pub open spec fn q_subset_m(c: IQuat, p: IQuat) -> bool {
    i_subset(c.r, p.r) && i_subset(c.a, p.a) && i_subset(c.b, p.b) && i_subset(c.c, p.c)
}

/// Every component is degenerate: the box is a single point.
pub open spec fn p_degen_m(p: IPoint) -> bool {
    i_degen(p.x) && i_degen(p.y) && i_degen(p.z)
}

/// Every component is degenerate: the box is a single quaternion.
pub open spec fn q_degen_m(q: IQuat) -> bool {
    i_degen(q.r) && i_degen(q.a) && i_degen(q.b) && i_degen(q.c)
}

/// One product-and-accumulate step of the quaternion formulas, for the
/// well-formedness and inclusion arguments.
proof fn lemma_q_comp_wf(u1: IRat, u2: IRat, u3: IRat, u4: IRat)
    requires
        i_wf(u1),
        i_wf(u2),
        i_wf(u3),
        i_wf(u4),
    ensures
        i_wf(i_sub(i_sub(i_sub(u1, u2), u3), u4)),
        i_wf(i_sub(i_add(i_add(u1, u2), u3), u4)),
{
    lemma_i_ops_wf(u1, u2);
    lemma_i_ops_wf(i_sub(u1, u2), u3);
    lemma_i_ops_wf(i_sub(i_sub(u1, u2), u3), u4);
    lemma_i_ops_wf(i_add(u1, u2), u3);
    lemma_i_ops_wf(i_add(i_add(u1, u2), u3), u4);
}

/// The quaternion product of well-formed boxes is well-formed.
pub proof fn lemma_i_q_mul_wf(x: IQuat, y: IQuat)
    requires
        q_wf_m(x),
        q_wf_m(y),
    ensures
        q_wf_m(i_q_mul(x, y)),
{
    reveal(i_q_mul);
    lemma_i_ops_wf(x.r, y.r);
    lemma_i_ops_wf(x.a, y.a);
    lemma_i_ops_wf(x.b, y.b);
    lemma_i_ops_wf(x.c, y.c);
    lemma_i_ops_wf(x.r, y.a);
    lemma_i_ops_wf(x.b, y.c);
    lemma_i_ops_wf(x.a, y.r);
    lemma_i_ops_wf(x.c, y.b);
    lemma_i_ops_wf(x.r, y.b);
    lemma_i_ops_wf(x.c, y.a);
    lemma_i_ops_wf(x.b, y.r);
    lemma_i_ops_wf(x.a, y.c);
    lemma_i_ops_wf(x.r, y.c);
    lemma_i_ops_wf(x.a, y.b);
    lemma_i_ops_wf(x.c, y.r);
    lemma_i_ops_wf(x.b, y.a);
    lemma_q_comp_wf(i_mul(x.r, y.r), i_mul(x.a, y.a), i_mul(x.b, y.b), i_mul(x.c, y.c));
    lemma_q_comp_wf(i_mul(x.r, y.a), i_mul(x.b, y.c), i_mul(x.a, y.r), i_mul(x.c, y.b));
    lemma_q_comp_wf(i_mul(x.r, y.b), i_mul(x.c, y.a), i_mul(x.b, y.r), i_mul(x.a, y.c));
    lemma_q_comp_wf(i_mul(x.r, y.c), i_mul(x.a, y.b), i_mul(x.c, y.r), i_mul(x.b, y.a));
}

/// One product-and-accumulate step, for inclusion.
proof fn lemma_q_comp_mono(
    u1: IRat,
    u2: IRat,
    u3: IRat,
    u4: IRat,
    v1: IRat,
    v2: IRat,
    v3: IRat,
    v4: IRat,
)
    requires
        i_inv(u1),
        i_inv(u2),
        i_inv(u3),
        i_inv(u4),
        i_inv(v1),
        i_inv(v2),
        i_inv(v3),
        i_inv(v4),
        i_subset(u1, v1),
        i_subset(u2, v2),
        i_subset(u3, v3),
        i_subset(u4, v4),
    ensures
        i_subset(i_sub(i_sub(i_sub(u1, u2), u3), u4), i_sub(i_sub(i_sub(v1, v2), v3), v4)),
        i_subset(i_sub(i_add(i_add(u1, u2), u3), u4), i_sub(i_add(i_add(v1, v2), v3), v4)),
{
    lemma_i_sub_congr(u1, u2, u1, u2);
    lemma_i_sub_congr(v1, v2, v1, v2);
    lemma_i_sub_mono(u1, u2, v1, v2);
    lemma_i_sub_congr(i_sub(u1, u2), u3, i_sub(u1, u2), u3);
    lemma_i_sub_congr(i_sub(v1, v2), v3, i_sub(v1, v2), v3);
    lemma_i_sub_mono(i_sub(u1, u2), u3, i_sub(v1, v2), v3);
    lemma_i_sub_mono(i_sub(i_sub(u1, u2), u3), u4, i_sub(i_sub(v1, v2), v3), v4);
    lemma_i_add_congr(u1, u2, u1, u2);
    lemma_i_add_congr(v1, v2, v1, v2);
    lemma_i_add_mono(u1, u2, v1, v2);
    lemma_i_add_congr(i_add(u1, u2), u3, i_add(u1, u2), u3);
    lemma_i_add_congr(i_add(v1, v2), v3, i_add(v1, v2), v3);
    lemma_i_add_mono(i_add(u1, u2), u3, i_add(v1, v2), v3);
    lemma_i_sub_mono(i_add(i_add(u1, u2), u3), u4, i_add(i_add(v1, v2), v3), v4);
}

/// The quaternion product respects inclusion of boxes.
pub proof fn lemma_i_q_mul_mono(x: IQuat, y: IQuat, x2: IQuat, y2: IQuat)
    requires
        q_wf_m(x),
        q_wf_m(y),
        q_inv_m(x2),
        q_inv_m(y2),
        q_subset_m(x, x2),
        q_subset_m(y, y2),
    ensures
        q_subset_m(i_q_mul(x, y), i_q_mul(x2, y2)),
{
    reveal(i_q_mul);
    lemma_i_mul_mono(x.r, y.r, x2.r, y2.r);
    lemma_i_mul_mono(x.a, y.a, x2.a, y2.a);
    lemma_i_mul_mono(x.b, y.b, x2.b, y2.b);
    lemma_i_mul_mono(x.c, y.c, x2.c, y2.c);
    lemma_i_mul_mono(x.r, y.a, x2.r, y2.a);
    lemma_i_mul_mono(x.b, y.c, x2.b, y2.c);
    lemma_i_mul_mono(x.a, y.r, x2.a, y2.r);
    lemma_i_mul_mono(x.c, y.b, x2.c, y2.b);
    lemma_i_mul_mono(x.r, y.b, x2.r, y2.b);
    lemma_i_mul_mono(x.c, y.a, x2.c, y2.a);
    lemma_i_mul_mono(x.b, y.r, x2.b, y2.r);
    lemma_i_mul_mono(x.a, y.c, x2.a, y2.c);
    lemma_i_mul_mono(x.r, y.c, x2.r, y2.c);
    lemma_i_mul_mono(x.a, y.b, x2.a, y2.b);
    lemma_i_mul_mono(x.c, y.r, x2.c, y2.r);
    lemma_i_mul_mono(x.b, y.a, x2.b, y2.a);
    lemma_i_mul_inv(x.r, y.r);
    lemma_i_mul_inv(x.a, y.a);
    lemma_i_mul_inv(x.b, y.b);
    lemma_i_mul_inv(x.c, y.c);
    lemma_i_mul_inv(x.r, y.a);
    lemma_i_mul_inv(x.b, y.c);
    lemma_i_mul_inv(x.a, y.r);
    lemma_i_mul_inv(x.c, y.b);
    lemma_i_mul_inv(x.r, y.b);
    lemma_i_mul_inv(x.c, y.a);
    lemma_i_mul_inv(x.b, y.r);
    lemma_i_mul_inv(x.a, y.c);
    lemma_i_mul_inv(x.r, y.c);
    lemma_i_mul_inv(x.a, y.b);
    lemma_i_mul_inv(x.c, y.r);
    lemma_i_mul_inv(x.b, y.a);
    lemma_i_mul_inv(x2.r, y2.r);
    lemma_i_mul_inv(x2.a, y2.a);
    lemma_i_mul_inv(x2.b, y2.b);
    lemma_i_mul_inv(x2.c, y2.c);
    lemma_i_mul_inv(x2.r, y2.a);
    lemma_i_mul_inv(x2.b, y2.c);
    lemma_i_mul_inv(x2.a, y2.r);
    lemma_i_mul_inv(x2.c, y2.b);
    lemma_i_mul_inv(x2.r, y2.b);
    lemma_i_mul_inv(x2.c, y2.a);
    lemma_i_mul_inv(x2.b, y2.r);
    lemma_i_mul_inv(x2.a, y2.c);
    lemma_i_mul_inv(x2.r, y2.c);
    lemma_i_mul_inv(x2.a, y2.b);
    lemma_i_mul_inv(x2.c, y2.r);
    lemma_i_mul_inv(x2.b, y2.a);
    lemma_q_comp_mono(
        i_mul(x.r, y.r),
        i_mul(x.a, y.a),
        i_mul(x.b, y.b),
        i_mul(x.c, y.c),
        i_mul(x2.r, y2.r),
        i_mul(x2.a, y2.a),
        i_mul(x2.b, y2.b),
        i_mul(x2.c, y2.c),
    );
    lemma_q_comp_mono(
        i_mul(x.r, y.a),
        i_mul(x.b, y.c),
        i_mul(x.a, y.r),
        i_mul(x.c, y.b),
        i_mul(x2.r, y2.a),
        i_mul(x2.b, y2.c),
        i_mul(x2.a, y2.r),
        i_mul(x2.c, y2.b),
    );
    lemma_q_comp_mono(
        i_mul(x.r, y.b),
        i_mul(x.c, y.a),
        i_mul(x.b, y.r),
        i_mul(x.a, y.c),
        i_mul(x2.r, y2.b),
        i_mul(x2.c, y2.a),
        i_mul(x2.b, y2.r),
        i_mul(x2.a, y2.c),
    );
    lemma_q_comp_mono(
        i_mul(x.r, y.c),
        i_mul(x.a, y.b),
        i_mul(x.c, y.r),
        i_mul(x.b, y.a),
        i_mul(x2.r, y2.c),
        i_mul(x2.a, y2.b),
        i_mul(x2.c, y2.r),
        i_mul(x2.b, y2.a),
    );
}

/// The squared norm of a well-formed box is well-formed.
pub proof fn lemma_i_q_sqnorm_wf(q: IQuat)
    requires
        q_wf_m(q),
    ensures
        i_wf(i_q_sqnorm(q)),
{
    reveal(i_q_sqnorm);
    lemma_i_ops_wf(q.r, q.r);
    lemma_i_ops_wf(q.a, q.a);
    lemma_i_ops_wf(q.b, q.b);
    lemma_i_ops_wf(q.c, q.c);
    lemma_i_ops_wf(i_mul(q.r, q.r), i_mul(q.a, q.a));
    lemma_i_ops_wf(i_add(i_mul(q.r, q.r), i_mul(q.a, q.a)), i_mul(q.b, q.b));
    lemma_i_ops_wf(i_add(i_add(i_mul(q.r, q.r), i_mul(q.a, q.a)), i_mul(q.b, q.b)), i_mul(q.c, q.c));
}

/// The squared norm respects inclusion of boxes.
pub proof fn lemma_i_q_sqnorm_mono(q: IQuat, q2: IQuat)
    requires
        q_wf_m(q),
        q_inv_m(q2),
        q_subset_m(q, q2),
    ensures
        i_subset(i_q_sqnorm(q), i_q_sqnorm(q2)),
{
    reveal(i_q_sqnorm);
    lemma_i_mul_mono(q.r, q.r, q2.r, q2.r);
    lemma_i_mul_mono(q.a, q.a, q2.a, q2.a);
    lemma_i_mul_mono(q.b, q.b, q2.b, q2.b);
    lemma_i_mul_mono(q.c, q.c, q2.c, q2.c);
    lemma_i_mul_inv(q.r, q.r);
    lemma_i_mul_inv(q.a, q.a);
    lemma_i_mul_inv(q.b, q.b);
    lemma_i_mul_inv(q.c, q.c);
    lemma_i_mul_inv(q2.r, q2.r);
    lemma_i_mul_inv(q2.a, q2.a);
    lemma_i_mul_inv(q2.b, q2.b);
    lemma_i_mul_inv(q2.c, q2.c);
    lemma_i_add_congr(i_mul(q.r, q.r), i_mul(q.a, q.a), i_mul(q.r, q.r), i_mul(q.a, q.a));
    lemma_i_add_congr(i_mul(q2.r, q2.r), i_mul(q2.a, q2.a), i_mul(q2.r, q2.r), i_mul(q2.a, q2.a));
    lemma_i_add_mono(i_mul(q.r, q.r), i_mul(q.a, q.a), i_mul(q2.r, q2.r), i_mul(q2.a, q2.a));
    lemma_i_add_congr(
        i_add(i_mul(q.r, q.r), i_mul(q.a, q.a)),
        i_mul(q.b, q.b),
        i_add(i_mul(q.r, q.r), i_mul(q.a, q.a)),
        i_mul(q.b, q.b),
    );
    lemma_i_add_congr(
        i_add(i_mul(q2.r, q2.r), i_mul(q2.a, q2.a)),
        i_mul(q2.b, q2.b),
        i_add(i_mul(q2.r, q2.r), i_mul(q2.a, q2.a)),
        i_mul(q2.b, q2.b),
    );
    lemma_i_add_mono(
        i_add(i_mul(q.r, q.r), i_mul(q.a, q.a)),
        i_mul(q.b, q.b),
        i_add(i_mul(q2.r, q2.r), i_mul(q2.a, q2.a)),
        i_mul(q2.b, q2.b),
    );
    lemma_i_add_mono(
        i_add(i_add(i_mul(q.r, q.r), i_mul(q.a, q.a)), i_mul(q.b, q.b)),
        i_mul(q.c, q.c),
        i_add(i_add(i_mul(q2.r, q2.r), i_mul(q2.a, q2.a)), i_mul(q2.b, q2.b)),
        i_mul(q2.c, q2.c),
    );
}

/// Rotation by a box of quaternions is well-formed and respects inclusion of
/// the quaternion box: a sub-box of rotations moves every vertex within the
/// box the parent moved it in.
pub proof fn lemma_i_rotate_mono(q: IQuat, q2: IQuat, v: IPoint)
    requires
        q_wf_m(q),
        q_inv_m(q2),
        p_wf_m(v),
        q_subset_m(q, q2),
        i_sign_definite(i_q_sqnorm(q2)),
    ensures
        i_sign_definite(i_q_sqnorm(q)),
        p_wf_m(i_rotate(q, v)),
        p_subset_m(i_rotate(q, v), i_rotate(q2, v)),
{
    reveal(i_rotate);
    let snc = i_q_sqnorm(q);
    let snp = i_q_sqnorm(q2);
    lemma_i_q_sqnorm_wf(q);
    lemma_i_q_sqnorm_inv(q2);
    lemma_i_q_sqnorm_mono(q, q2);
    lemma_i_recip_mono(snc, snp);
    lemma_i_recip_wf(snc);
    crate::rat::lemma_rat_recip_basic(snp.lo);
    crate::rat::lemma_rat_recip_basic(snp.hi);
    let pv = i_pure_quat(v);
    assert(q_wf_m(pv));
    assert(q_subset_m(pv, pv));
    lemma_i_q_mul_mono(q, pv, q2, pv);
    lemma_i_q_mul_wf(q, pv);
    lemma_i_q_mul_congr(q2, pv, q2, pv);
    let nn1c = i_q_mul(q, pv);
    let nn1p = i_q_mul(q2, pv);
    assert(q_wf_m(i_q_conj(q))) by {
        lemma_i_ops_wf(q.a, q.a);
        lemma_i_ops_wf(q.b, q.b);
        lemma_i_ops_wf(q.c, q.c);
    }
    lemma_i_neg_mono(q.a, q2.a);
    lemma_i_neg_mono(q.b, q2.b);
    lemma_i_neg_mono(q.c, q2.c);
    assert(q_subset_m(i_q_conj(q), i_q_conj(q2)));
    lemma_i_q_mul_mono(nn1c, i_q_conj(q), nn1p, i_q_conj(q2));
    lemma_i_q_mul_wf(nn1c, i_q_conj(q));
    lemma_i_q_mul_congr(nn1p, i_q_conj(q2), nn1p, i_q_conj(q2));
    let nnc = i_q_mul(nn1c, i_q_conj(q));
    let nnp = i_q_mul(nn1p, i_q_conj(q2));
    lemma_i_mul_mono(nnc.a, i_recip(snc), nnp.a, i_recip(snp));
    lemma_i_mul_mono(nnc.b, i_recip(snc), nnp.b, i_recip(snp));
    lemma_i_mul_mono(nnc.c, i_recip(snc), nnp.c, i_recip(snp));
    lemma_i_ops_wf(nnc.a, i_recip(snc));
    lemma_i_ops_wf(nnc.b, i_recip(snc));
    lemma_i_ops_wf(nnc.c, i_recip(snc));
}

/// A degenerate quaternion box and a degenerate point rotate to a
/// degenerate point: an interval of width zero propagates as exactness
/// through the whole rotation formula.
pub proof fn lemma_i_rotate_exact(q: IQuat, v: IPoint)
    requires
        q_inv_m(q),
        p_inv_m(v),
        q_degen_m(q),
        p_degen_m(v),
        i_sign_definite(i_q_sqnorm(q)),
    ensures
        p_degen_m(i_rotate(q, v)),
{
    reveal(i_rotate);
    lemma_i_q_sqnorm_degen(q);
    lemma_i_q_sqnorm_inv(q);
    lemma_i_recip_degen(i_q_sqnorm(q));
    let pv = i_pure_quat(v);
    assert(q_degen_m(pv));
    lemma_i_q_mul_degen(q, pv);
    lemma_i_q_mul_congr(q, pv, q, pv);
    let nn1 = i_q_mul(q, pv);
    assert(q_degen_m(i_q_conj(q))) by {
        lemma_i_neg_congr(q.a, q.a);
        lemma_i_neg_congr(q.b, q.b);
        lemma_i_neg_congr(q.c, q.c);
        crate::interval::lemma_i_neg_degen(q.a);
        crate::interval::lemma_i_neg_degen(q.b);
        crate::interval::lemma_i_neg_degen(q.c);
    }
    lemma_i_q_mul_degen(nn1, i_q_conj(q));
    lemma_i_q_mul_congr(nn1, i_q_conj(q), nn1, i_q_conj(q));
    let nn = i_q_mul(nn1, i_q_conj(q));
    lemma_i_recip_wf_inv_helper(i_q_sqnorm(q));
    lemma_i_mul_degen(nn.a, i_recip(i_q_sqnorm(q)));
    lemma_i_mul_degen(nn.b, i_recip(i_q_sqnorm(q)));
    lemma_i_mul_degen(nn.c, i_recip(i_q_sqnorm(q)));
}

/// The reciprocal of a sign-definite interval has valid bounds.
proof fn lemma_i_recip_wf_inv_helper(a: IRat)
    requires
        i_inv(a),
        i_sign_definite(a),
    ensures
        i_inv(i_recip(a)),
{
    crate::rat::lemma_rat_recip_basic(a.lo);
    crate::rat::lemma_rat_recip_basic(a.hi);
}

/// The squared norm of a degenerate box is degenerate.
pub proof fn lemma_i_q_sqnorm_degen(q: IQuat)
    requires
        q_inv_m(q),
        q_degen_m(q),
    ensures
        i_degen(i_q_sqnorm(q)),
{
    reveal(i_q_sqnorm);
    lemma_i_mul_degen(q.r, q.r);
    lemma_i_mul_degen(q.a, q.a);
    lemma_i_mul_degen(q.b, q.b);
    lemma_i_mul_degen(q.c, q.c);
    lemma_i_mul_inv(q.r, q.r);
    lemma_i_mul_inv(q.a, q.a);
    lemma_i_mul_inv(q.b, q.b);
    lemma_i_mul_inv(q.c, q.c);
    lemma_i_degen_ops(i_mul(q.r, q.r), i_mul(q.a, q.a));
    lemma_i_add_congr(i_mul(q.r, q.r), i_mul(q.a, q.a), i_mul(q.r, q.r), i_mul(q.a, q.a));
    lemma_i_degen_ops(i_add(i_mul(q.r, q.r), i_mul(q.a, q.a)), i_mul(q.b, q.b));
    lemma_i_add_congr(
        i_add(i_mul(q.r, q.r), i_mul(q.a, q.a)),
        i_mul(q.b, q.b),
        i_add(i_mul(q.r, q.r), i_mul(q.a, q.a)),
        i_mul(q.b, q.b),
    );
    lemma_i_degen_ops(
        i_add(i_add(i_mul(q.r, q.r), i_mul(q.a, q.a)), i_mul(q.b, q.b)),
        i_mul(q.c, q.c),
    );
}

/// One product-and-accumulate step, for degeneracy.
proof fn lemma_q_comp_degen(u1: IRat, u2: IRat, u3: IRat, u4: IRat)
    requires
        i_inv(u1),
        i_inv(u2),
        i_inv(u3),
        i_inv(u4),
        i_degen(u1),
        i_degen(u2),
        i_degen(u3),
        i_degen(u4),
    ensures
        i_degen(i_sub(i_sub(i_sub(u1, u2), u3), u4)),
        i_degen(i_sub(i_add(i_add(u1, u2), u3), u4)),
{
    lemma_i_degen_ops(u1, u2);
    lemma_i_sub_congr(u1, u2, u1, u2);
    lemma_i_add_congr(u1, u2, u1, u2);
    lemma_i_degen_ops(i_sub(u1, u2), u3);
    lemma_i_degen_ops(i_add(u1, u2), u3);
    lemma_i_sub_congr(i_sub(u1, u2), u3, i_sub(u1, u2), u3);
    lemma_i_add_congr(i_add(u1, u2), u3, i_add(u1, u2), u3);
    lemma_i_degen_ops(i_sub(i_sub(u1, u2), u3), u4);
    lemma_i_degen_ops(i_add(i_add(u1, u2), u3), u4);
}

/// The quaternion product of degenerate boxes is degenerate.
pub proof fn lemma_i_q_mul_degen(x: IQuat, y: IQuat)
    requires
        q_inv_m(x),
        q_inv_m(y),
        q_degen_m(x),
        q_degen_m(y),
    ensures
        q_degen_m(i_q_mul(x, y)),
{
    reveal(i_q_mul);
    lemma_i_mul_degen(x.r, y.r);
    lemma_i_mul_degen(x.a, y.a);
    lemma_i_mul_degen(x.b, y.b);
    lemma_i_mul_degen(x.c, y.c);
    lemma_i_mul_degen(x.r, y.a);
    lemma_i_mul_degen(x.b, y.c);
    lemma_i_mul_degen(x.a, y.r);
    lemma_i_mul_degen(x.c, y.b);
    lemma_i_mul_degen(x.r, y.b);
    lemma_i_mul_degen(x.c, y.a);
    lemma_i_mul_degen(x.b, y.r);
    lemma_i_mul_degen(x.a, y.c);
    lemma_i_mul_degen(x.r, y.c);
    lemma_i_mul_degen(x.a, y.b);
    lemma_i_mul_degen(x.c, y.r);
    lemma_i_mul_degen(x.b, y.a);
    lemma_i_mul_inv(x.r, y.r);
    lemma_i_mul_inv(x.a, y.a);
    lemma_i_mul_inv(x.b, y.b);
    lemma_i_mul_inv(x.c, y.c);
    lemma_i_mul_inv(x.r, y.a);
    lemma_i_mul_inv(x.b, y.c);
    lemma_i_mul_inv(x.a, y.r);
    lemma_i_mul_inv(x.c, y.b);
    lemma_i_mul_inv(x.r, y.b);
    lemma_i_mul_inv(x.c, y.a);
    lemma_i_mul_inv(x.b, y.r);
    lemma_i_mul_inv(x.a, y.c);
    lemma_i_mul_inv(x.r, y.c);
    lemma_i_mul_inv(x.a, y.b);
    lemma_i_mul_inv(x.c, y.r);
    lemma_i_mul_inv(x.b, y.a);
    lemma_q_comp_degen(i_mul(x.r, y.r), i_mul(x.a, y.a), i_mul(x.b, y.b), i_mul(x.c, y.c));
    lemma_q_comp_degen(i_mul(x.r, y.a), i_mul(x.b, y.c), i_mul(x.a, y.r), i_mul(x.c, y.b));
    lemma_q_comp_degen(i_mul(x.r, y.b), i_mul(x.c, y.a), i_mul(x.b, y.r), i_mul(x.a, y.c));
    lemma_q_comp_degen(i_mul(x.r, y.c), i_mul(x.a, y.b), i_mul(x.c, y.r), i_mul(x.b, y.a));
}

/// Two rotations that both carry the bounds of the same model rotation have
/// the same bounds: rotating by an exact quaternion and by the degenerate
/// interval lifted from it produces identical point values.
pub proof fn lemma_rotate_paths_agree(q: IQuat, v: IPoint, r1: IPoint, r2: IPoint)
    requires
        q_inv_m(q),
        p_inv_m(v),
        i_sign_definite(i_q_sqnorm(q)),
        p_eq(r1, i_rotate(q, v)),
        p_eq(r2, i_rotate(q, v)),
    ensures
        p_eq(r1, r2),
{
    lemma_i_rotate_inv(q, v);
    lemma_p_eq_trans(r1, i_rotate(q, v), r2);
}

} // verus!

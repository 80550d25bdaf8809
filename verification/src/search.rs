//! The branch-and-bound search over the parameter hypercube.
//!
//! A `State` is a seven-scalar box: two interval-valued three-vectors
//! (`outer`, `inner`) and one scalar interval (`translate`). The box maps to
//! a box of rotations by direct embedding into quaternion space: `translate`
//! supplies the real component and `outer` the three imaginary components;
//! `inner` is reserved for a future second-patch comparison and does not
//! influence classification, though subdivision refines it like every other
//! axis.

use vstd::prelude::*;

use crate::rat::{
    Rat, rat_inv, rat_eq, rat_le, rat_pos, rat_avg, rat_half, rat_add, rat_sub, rat_mul,
    lemma_rat_sign_congr, lemma_rat_avg_between, lemma_rat_ops_inv, lemma_rat_mul_congr,
    lemma_rat_eq_trans, lemma_rat_le_congr,
};
use crate::rational::Rational;
use crate::interval::{
    Interval, IRat, i_inv, i_wf, i_eq, i_subset, i_sign_definite, IntervalSign, Scalar, sview,
};
use crate::geom::{
    Point3d, Quat, IPoint, IQuat, pview, qview, p_inv_m, q_inv_m, p_eq, i_p_sub, i_p_cross,
    i_q_sqnorm, i_rotate, rotate_vertices, lemma_p_eq_trans, lemma_i_p_sub_congr,
    lemma_i_p_cross_congr, lemma_i_q_sqnorm_inv, lemma_i_rotate_inv, p_wf_m, q_wf_m, p_subset_m,
    q_subset_m, lemma_i_q_sqnorm_wf, lemma_i_q_sqnorm_mono, lemma_i_rotate_mono,
};
use crate::interval::{
    i_mul, i_contains, lemma_i_mul_mono, lemma_i_sub_mono, lemma_i_sub_congr, lemma_i_mul_inv,
    lemma_i_ops_wf, lemma_i_recip_mono, lemma_i_contains_congr, lemma_i_subset_trans,
};
use crate::rat::lemma_rat_pos_le_trans;
use crate::env::{Env, face_wf, verts_inv, i_face_cross, contains_idx, lemma_face_cross_congr};

verus! {

// ---------------------------------------------------------------------------
// The search state: a box in the seven-dimensional parameter space.
// ---------------------------------------------------------------------------

/// The model of a search state.
pub ghost struct StateM {
    pub outer: IPoint,
    pub inner: IPoint,
    pub translate: IRat,
}

/// The state of search: a seven-dimensional hypercube in parameter space.
pub struct State {
    outer: Point3d<Interval<Rational>>,
    inner: Point3d<Interval<Rational>>,
    translate: Interval<Rational>,
}

impl View for State {
    type V = StateM;

    closed spec fn view(&self) -> StateM {
        StateM { outer: pview(self.outer), inner: pview(self.inner), translate: self.translate@ }
    }
}

/// The axes of the box, in a fixed order.
pub open spec fn axis(s: StateM, k: int) -> IRat {
    if k == 0 {
        s.outer.x
    } else if k == 1 {
        s.outer.y
    } else if k == 2 {
        s.outer.z
    } else if k == 3 {
        s.inner.x
    } else if k == 4 {
        s.inner.y
    } else if k == 5 {
        s.inner.z
    } else {
        s.translate
    }
}

/// Every axis is a well-formed interval.
pub open spec fn state_wf(s: StateM) -> bool {
    &&& i_wf(s.outer.x)
    &&& i_wf(s.outer.y)
    &&& i_wf(s.outer.z)
    &&& i_wf(s.inner.x)
    &&& i_wf(s.inner.y)
    &&& i_wf(s.inner.z)
    &&& i_wf(s.translate)
}

/// Every axis of `c` lies within the same axis of `p`.
pub open spec fn state_subset(c: StateM, p: StateM) -> bool {
    &&& i_subset(c.outer.x, p.outer.x)
    &&& i_subset(c.outer.y, p.outer.y)
    &&& i_subset(c.outer.z, p.outer.z)
    &&& i_subset(c.inner.x, p.inner.x)
    &&& i_subset(c.inner.y, p.inner.y)
    &&& i_subset(c.inner.z, p.inner.z)
    &&& i_subset(c.translate, p.translate)
}

/// The box of rotations a state stands for: `translate` is the real
/// component, `outer` the imaginary components.
pub open spec fn state_quat(s: StateM) -> IQuat {
    IQuat { r: s.translate, a: s.outer.x, b: s.outer.y, c: s.outer.z }
}

/// One point of the seven-dimensional parameter space.
pub ghost struct ParamPoint {
    pub outer_x: Rat,
    pub outer_y: Rat,
    pub outer_z: Rat,
    pub inner_x: Rat,
    pub inner_y: Rat,
    pub inner_z: Rat,
    pub translate: Rat,
}

/// The coordinates of the point, in the axis order.
pub open spec fn point_axis(p: ParamPoint, k: int) -> Rat {
    if k == 0 {
        p.outer_x
    } else if k == 1 {
        p.outer_y
    } else if k == 2 {
        p.outer_z
    } else if k == 3 {
        p.inner_x
    } else if k == 4 {
        p.inner_y
    } else if k == 5 {
        p.inner_z
    } else {
        p.translate
    }
}

/// Every coordinate is a valid rational pair.
pub open spec fn param_inv(p: ParamPoint) -> bool {
    forall|j: int| 0 <= j < 7 ==> rat_inv(#[trigger] point_axis(p, j))
}

/// The point lies within the box, axis by axis.
pub open spec fn state_contains(s: StateM, p: ParamPoint) -> bool {
    forall|j: int| 0 <= j < 7 ==> i_contains(axis(s, j), #[trigger] point_axis(p, j))
}

/// No axis of the box is wider than `f`.
pub open spec fn state_below_floor(s: StateM, f: Rat) -> bool {
    forall|j: int|
        0 <= j < 7 ==> rat_le(rat_sub((#[trigger] axis(s, j)).hi, axis(s, j).lo), f)
}

/// Box inclusion is transitive.
pub proof fn lemma_state_subset_trans(a: StateM, b: StateM, c: StateM)
    requires
        state_wf(a),
        state_wf(b),
        state_wf(c),
        state_subset(a, b),
        state_subset(b, c),
    ensures
        state_subset(a, c),
{
    lemma_i_subset_trans(a.outer.x, b.outer.x, c.outer.x);
    lemma_i_subset_trans(a.outer.y, b.outer.y, c.outer.y);
    lemma_i_subset_trans(a.outer.z, b.outer.z, c.outer.z);
    lemma_i_subset_trans(a.inner.x, b.inner.x, c.inner.x);
    lemma_i_subset_trans(a.inner.y, b.inner.y, c.inner.y);
    lemma_i_subset_trans(a.inner.z, b.inner.z, c.inner.z);
    lemma_i_subset_trans(a.translate, b.translate, c.translate);
}

impl State {
    /// A search box from its seven intervals. The caller asserts that every
    /// interval is in the right order.
    pub fn new(
        outer: Point3d<Interval<Rational>>,
        inner: Point3d<Interval<Rational>>,
        translate: Interval<Rational>,
    ) -> (r: State)
        requires
            state_wf(
                StateM { outer: pview(outer), inner: pview(inner), translate: translate@ },
            ),
        ensures
            r@ == (StateM { outer: pview(outer), inner: pview(inner), translate: translate@ }),
            state_wf(r@),
    {
        State { outer, inner, translate }
    }

    /// The interval-valued quaternion this box stands for.
    pub fn quat(&self) -> (q: Quat<Interval<Rational>>)
        requires
            state_wf(self@),
        ensures
            qview(q) == state_quat(self@),
            q_inv_m(qview(q)),
    {
        Quat {
            r: self.translate.dup(),
            a: self.outer.x.dup(),
            b: self.outer.y.dup(),
            c: self.outer.z.dup(),
        }
    }
}

// ---------------------------------------------------------------------------
// Classification.
// ---------------------------------------------------------------------------

/// The classification of one search region.
#[derive(Clone, Copy, Debug, PartialEq, Eq, Structural)]
pub enum Classification {
    /// Not yet examined.
    Unclassified,
    /// Every rotation in the box keeps every patch face certainly positive.
    CertifiedInside,
    /// Some patch face cannot be positive anywhere in the box.
    CertifiedOutside,
    /// The box is too wide to decide; it must be subdivided.
    Indeterminate,
    /// Subdivision gave up at the resolution floor: unresolved, not decided.
    AbandonedAtResolutionFloor,
}

/// The orientation witness of face `i`, with the polyhedron's exact vertices
/// rotated by the quaternion box `q`.
pub open spec fn rotated_face_cross_m(env: Env, q: IQuat, i: int) -> IPoint {
    i_face_cross(
        i_rotate(q, pview(env.vertices@[env.faces@[i]@[0] as int])),
        i_rotate(q, pview(env.vertices@[env.faces@[i]@[1] as int])),
        i_rotate(q, pview(env.vertices@[env.faces@[i]@[2] as int])),
    )
}

/// Every patch face stays certainly positive across the whole box.
pub open spec fn all_pos_certain(env: Env, q: IQuat) -> bool {
    forall|j: int|
        0 <= j < env.positive_faces@.len() ==> rat_pos(
            rotated_face_cross_m(env, q, (#[trigger] env.positive_faces@[j]) as int).z.lo,
        )
}

/// Some patch face cannot be positive anywhere in the box.
pub open spec fn some_pos_impossible(env: Env, q: IQuat) -> bool {
    exists|j: int|
        0 <= j < env.positive_faces@.len() && !rat_pos(
            rotated_face_cross_m(env, q, (#[trigger] env.positive_faces@[j]) as int).z.hi,
        )
}

/// What classifying one region returns: inside when every patch face is
/// certainly positive, outside when some patch face is certainly
/// non-positive, indeterminate otherwise (also when the box's squared norm
/// straddles zero, since such a box cannot be rotated by).
pub open spec fn classify_spec(env: Env, s: StateM) -> Classification {
    let q = state_quat(s);
    if !i_sign_definite(i_q_sqnorm(q)) {
        Classification::Indeterminate
    } else if all_pos_certain(env, q) {
        Classification::CertifiedInside
    } else if some_pos_impossible(env, q) {
        Classification::CertifiedOutside
    } else {
        Classification::Indeterminate
    }
}

/// The z-component of the orientation witness of a face, read at indices
/// `face` of `vs`.
fn face_cross_z<T: Scalar>(vs: &Vec<Point3d<T>>, face: &Vec<usize>) -> (z: T)
    requires
        verts_inv(vs@),
        face_wf(vs@.len() as int, face@),
    ensures
        rat_inv(z.lo()),
        rat_inv(z.hi()),
        i_eq(
            sview(z),
            i_face_cross(
                pview(vs@[face@[0] as int]),
                pview(vs@[face@[1] as int]),
                pview(vs@[face@[2] as int]),
            ).z,
        ),
{
    let ghost gv0 = pview(vs@[face@[0] as int]);
    let ghost gv1 = pview(vs@[face@[1] as int]);
    let ghost gv2 = pview(vs@[face@[2] as int]);
    let v0 = vs[face[0]].dup();
    let v1 = vs[face[1]].dup();
    let v2 = vs[face[2]].dup();
    let e1 = v1.sub(&v0);
    let e2 = v2.sub(&v0);
    let c = e1.cross(&e2);
    proof {
        lemma_i_p_sub_congr(gv1, gv0, gv1, gv0);
        lemma_i_p_sub_congr(gv2, gv0, gv2, gv0);
        lemma_i_p_cross_congr(pview(e1), pview(e2), i_p_sub(gv1, gv0), i_p_sub(gv2, gv0));
        lemma_p_eq_trans(pview(c), i_p_cross(pview(e1), pview(e2)), i_face_cross(gv0, gv1, gv2));
    }
    let Point3d { x, y, z } = c;
    z
}

/// The face signs read off an executed rotation agree with the face signs of
/// the model rotation.
proof fn lemma_face_sign_agrees<T: Scalar>(
    vs: Seq<Point3d<Rational>>,
    q: IQuat,
    rotated: Seq<Point3d<T>>,
    face: Seq<usize>,
)
    requires
        verts_inv(vs),
        face_wf(vs.len() as int, face),
        q_inv_m(q),
        i_sign_definite(i_q_sqnorm(q)),
        rotated.len() == vs.len(),
        forall|k: int|
            0 <= k < vs.len() ==> p_inv_m(pview(#[trigger] rotated[k])) && p_eq(
                pview(rotated[k]),
                i_rotate(q, pview(vs[k])),
            ),
    ensures
        i_inv(
            i_face_cross(
                pview(rotated[face[0] as int]),
                pview(rotated[face[1] as int]),
                pview(rotated[face[2] as int]),
            ).z,
        ),
        rat_pos(
            i_face_cross(
                pview(rotated[face[0] as int]),
                pview(rotated[face[1] as int]),
                pview(rotated[face[2] as int]),
            ).z.lo,
        ) == rat_pos(
            i_face_cross(
                i_rotate(q, pview(vs[face[0] as int])),
                i_rotate(q, pview(vs[face[1] as int])),
                i_rotate(q, pview(vs[face[2] as int])),
            ).z.lo,
        ),
        rat_pos(
            i_face_cross(
                pview(rotated[face[0] as int]),
                pview(rotated[face[1] as int]),
                pview(rotated[face[2] as int]),
            ).z.hi,
        ) == rat_pos(
            i_face_cross(
                i_rotate(q, pview(vs[face[0] as int])),
                i_rotate(q, pview(vs[face[1] as int])),
                i_rotate(q, pview(vs[face[2] as int])),
            ).z.hi,
        ),
{
    let v0 = pview(rotated[face[0] as int]);
    let v1 = pview(rotated[face[1] as int]);
    let v2 = pview(rotated[face[2] as int]);
    let w0 = i_rotate(q, pview(vs[face[0] as int]));
    let w1 = i_rotate(q, pview(vs[face[1] as int]));
    let w2 = i_rotate(q, pview(vs[face[2] as int]));
    lemma_i_rotate_inv(q, pview(vs[face[0] as int]));
    lemma_i_rotate_inv(q, pview(vs[face[1] as int]));
    lemma_i_rotate_inv(q, pview(vs[face[2] as int]));
    lemma_face_cross_congr(v0, v1, v2, w0, w1, w2);
    lemma_rat_sign_congr(i_face_cross(v0, v1, v2).z.lo, i_face_cross(w0, w1, w2).z.lo);
    lemma_rat_sign_congr(i_face_cross(v0, v1, v2).z.hi, i_face_cross(w0, w1, w2).z.hi);
}

/// Converts the exact vertices to degenerate interval points.
fn vertices_as_exact_intervals(vs: &Vec<Point3d<Rational>>) -> (r: Vec<
    Point3d<Interval<Rational>>,
>)
    requires
        verts_inv(vs@),
    ensures
        r@.len() == vs@.len(),
        forall|k: int|
            0 <= k < vs@.len() ==> pview(#[trigger] r@[k]) == pview(vs@[k]) && p_inv_m(
                pview(r@[k]),
            ),
{
    let mut out: Vec<Point3d<Interval<Rational>>> = Vec::new();
    let mut i: usize = 0;
    while i < vs.len()
        invariant
            0 <= i <= vs@.len(),
            verts_inv(vs@),
            out@.len() == i,
            forall|k: int|
                0 <= k < i ==> pview(#[trigger] out@[k]) == pview(vs@[k]) && p_inv_m(
                    pview(out@[k]),
                ),
        decreases vs@.len() - i,
    {
        let v = &vs[i];
        let p = Point3d {
            x: Interval::<Rational>::exact(v.x.dup()),
            y: Interval::<Rational>::exact(v.y.dup()),
            z: Interval::<Rational>::exact(v.z.dup()),
        };
        out.push(p);
        i += 1;
    }
    out
}

/// Classifies one search region against the environment's patch.
pub fn classify(env: &Env, s: &State) -> (c: Classification)
    requires
        env.wf(),
        state_wf(s@),
    ensures
        c == classify_spec(*env, s@),
{
    let ghost gq = state_quat(s@);
    let q = s.quat();
    let sn = q.sqnorm();
    proof {
        lemma_i_q_sqnorm_inv(gq);
        lemma_rat_sign_congr(sn@.lo, i_q_sqnorm(gq).lo);
        lemma_rat_sign_congr(sn@.hi, i_q_sqnorm(gq).hi);
    }
    let sd = (sn.min.is_pos() && sn.max.is_pos()) || (sn.min.is_neg() && sn.max.is_neg());
    if !sd {
        return Classification::Indeterminate;
    }
    let viv = vertices_as_exact_intervals(&env.vertices);
    let rotated = rotate_vertices(&q, &viv);
    let npos = env.positive_faces.len();
    let mut all_pos = true;
    let mut j: usize = 0;
    while j < npos
        invariant
            0 <= j <= npos,
            env.wf(),
            q_inv_m(gq),
            i_sign_definite(i_q_sqnorm(gq)),
            npos == env.positive_faces@.len(),
            rotated@.len() == env.vertices@.len(),
            forall|k: int|
                0 <= k < env.vertices@.len() ==> p_inv_m(pview(#[trigger] rotated@[k])) && p_eq(
                    pview(rotated@[k]),
                    i_rotate(gq, pview(env.vertices@[k])),
                ),
            all_pos == (forall|jj: int|
                0 <= jj < j ==> rat_pos(
                    rotated_face_cross_m(
                        *env,
                        gq,
                        (#[trigger] env.positive_faces@[jj]) as int,
                    ).z.lo,
                )),
        decreases npos - j,
    {
        let fi = env.positive_faces[j];
        let ghost gface = env.faces@[fi as int]@;
        let z = face_cross_z(&rotated, &env.faces[fi]);
        proof {
            lemma_face_sign_agrees(env.vertices@, gq, rotated@, gface);
            z.sign_agrees();
            lemma_rat_sign_congr(
                z@.lo,
                i_face_cross(
                    pview(rotated@[gface[0] as int]),
                    pview(rotated@[gface[1] as int]),
                    pview(rotated@[gface[2] as int]),
                ).z.lo,
            );
        }
        let zp = z.is_positive();
        all_pos = all_pos && zp;
        j += 1;
    }
    if all_pos {
        return Classification::CertifiedInside;
    }
    let mut found = false;
    let mut j2: usize = 0;
    while j2 < npos
        invariant
            0 <= j2 <= npos,
            env.wf(),
            q_inv_m(gq),
            i_sign_definite(i_q_sqnorm(gq)),
            npos == env.positive_faces@.len(),
            rotated@.len() == env.vertices@.len(),
            forall|k: int|
                0 <= k < env.vertices@.len() ==> p_inv_m(pview(#[trigger] rotated@[k])) && p_eq(
                    pview(rotated@[k]),
                    i_rotate(gq, pview(env.vertices@[k])),
                ),
            found == (exists|jj: int|
                0 <= jj < j2 && !rat_pos(
                    rotated_face_cross_m(
                        *env,
                        gq,
                        (#[trigger] env.positive_faces@[jj]) as int,
                    ).z.hi,
                )),
        decreases npos - j2,
    {
        let fi = env.positive_faces[j2];
        let ghost gface = env.faces@[fi as int]@;
        let z = face_cross_z(&rotated, &env.faces[fi]);
        proof {
            lemma_face_sign_agrees(env.vertices@, gq, rotated@, gface);
            z.sign_agrees();
            lemma_rat_sign_congr(
                z@.hi,
                i_face_cross(
                    pview(rotated@[gface[0] as int]),
                    pview(rotated@[gface[1] as int]),
                    pview(rotated@[gface[2] as int]),
                ).z.hi,
            );
        }
        let zmp = z.is_maybe_positive();
        if !zmp {
            found = true;
            proof {
                assert(!rat_pos(
                    rotated_face_cross_m(*env, gq, env.positive_faces@[j2 as int] as int).z.hi,
                ));
            }
        }
        j2 += 1;
    }
    if found {
        Classification::CertifiedOutside
    } else {
        Classification::Indeterminate
    }
}

// ---------------------------------------------------------------------------
// Subdivision.
// ---------------------------------------------------------------------------

/// `c1` and `c2` are `s` with axis `k` cut in two: every other axis keeps its
/// bounds, and on axis `k` the pieces meet at a common seam, starting at
/// `s`'s lower bound and ending at its upper bound.
pub open spec fn split_at(s: StateM, k: int, c1: StateM, c2: StateM) -> bool {
    &&& forall|j: int|
        0 <= j < 7 && j != k ==> i_eq(axis(c1, j), axis(s, j)) && i_eq(axis(c2, j), axis(s, j))
    &&& rat_eq(axis(c1, k).lo, axis(s, k).lo)
    &&& rat_eq(axis(c1, k).hi, axis(c2, k).lo)
    &&& rat_eq(axis(c2, k).hi, axis(s, k).hi)
}

/// The two halves of a split cover the parent: every point of the parent
/// box lies in one of them.
proof fn lemma_split_covers(s: StateM, k: int, c1: StateM, c2: StateM)
    requires
        state_wf(s),
        state_wf(c1),
        state_wf(c2),
        0 <= k < 7,
        split_at(s, k, c1, c2),
    ensures
        forall|p: ParamPoint|
            param_inv(p) && #[trigger] state_contains(s, p) ==> state_contains(c1, p)
                || state_contains(c2, p),
{
    assert forall|p: ParamPoint|
        param_inv(p) && state_contains(s, p) implies state_contains(c1, p) || state_contains(
        c2,
        p,
    ) by {
        let px = point_axis(p, k);
        assert(i_contains(axis(s, k), px));
        assert(rat_inv(px));
        if rat_le(px, axis(c1, k).hi) {
            // the point falls in the lower half on the split axis
            lemma_rat_le_congr(axis(s, k).lo, px, axis(c1, k).lo, px);
            assert forall|j: int| 0 <= j < 7 implies i_contains(
                axis(c1, j),
                #[trigger] point_axis(p, j),
            ) by {
                if j != k {
                    lemma_i_contains_congr(axis(c1, j), axis(s, j), point_axis(p, j));
                }
            }
            assert(state_contains(c1, p));
        } else {
            // the seam lies below the point, which falls in the upper half
            assert(rat_le(axis(c1, k).hi, px));
            lemma_rat_le_congr(axis(c1, k).hi, px, axis(c2, k).lo, px);
            lemma_rat_le_congr(px, axis(s, k).hi, px, axis(c2, k).hi);
            assert forall|j: int| 0 <= j < 7 implies i_contains(
                axis(c2, j),
                #[trigger] point_axis(p, j),
            ) by {
                if j != k {
                    lemma_i_contains_congr(axis(c2, j), axis(s, j), point_axis(p, j));
                }
            }
            assert(state_contains(c2, p));
        }
    }
}

/// Cuts a well-formed interval at its midpoint.
fn split_interval(iv: &Interval<Rational>) -> (r: (Interval<Rational>, Interval<Rational>))
    requires
        i_wf(iv@),
    ensures
        i_wf(r.0@),
        i_wf(r.1@),
        r.0@.lo == iv@.lo,
        r.1@.hi == iv@.hi,
        r.0@.hi == r.1@.lo,
        i_subset(r.0@, iv@),
        i_subset(r.1@, iv@),
{
    let half = Rational::from_frac(1, 2);
    let sum = iv.min.add(&iv.max);
    let m = sum.mul(&half);
    let m2 = m.dup();
    proof {
        lemma_rat_avg_between(iv@.lo, iv@.hi);
        lemma_rat_ops_inv(iv@.lo, iv@.hi);
        lemma_rat_ops_inv(sum@, half@);
        lemma_rat_mul_congr(sum@, half@, rat_add(iv@.lo, iv@.hi), rat_half());
        lemma_rat_eq_trans(m@, rat_mul(sum@, half@), rat_avg(iv@.lo, iv@.hi));
        lemma_rat_le_congr(iv@.lo, m@, iv@.lo, rat_avg(iv@.lo, iv@.hi));
        lemma_rat_le_congr(m@, iv@.hi, rat_avg(iv@.lo, iv@.hi), iv@.hi);
    }
    (Interval { min: iv.min.dup(), max: m }, Interval { min: m2, max: iv.max.dup() })
}

impl State {
    /// The width of an axis: how far its upper bound lies above its lower.
    fn axis_width(&self, k: usize) -> (w: Rational)
        requires
            state_wf(self@),
            k < 7,
        ensures
            rat_inv(w@),
            rat_eq(w@, rat_sub(axis(self@, k as int).hi, axis(self@, k as int).lo)),
    {
        let iv = if k == 0 {
            &self.outer.x
        } else if k == 1 {
            &self.outer.y
        } else if k == 2 {
            &self.outer.z
        } else if k == 3 {
            &self.inner.x
        } else if k == 4 {
            &self.inner.y
        } else if k == 5 {
            &self.inner.z
        } else {
            &self.translate
        };
        iv.max.sub(&iv.min)
    }

    /// Bisects the box along its widest axis. The children partition the
    /// parent: each axis keeps its bounds, except the split axis, whose two
    /// halves meet at the midpoint.
    pub fn subdivide(&self) -> (r: (State, State))
        requires
            state_wf(self@),
        ensures
            state_wf(r.0@),
            state_wf(r.1@),
            state_subset(r.0@, self@),
            state_subset(r.1@, self@),
            exists|k: int| 0 <= k < 7 && split_at(self@, k, r.0@, r.1@),
            forall|p: ParamPoint|
                param_inv(p) && #[trigger] state_contains(self@, p) ==> state_contains(r.0@, p)
                    || state_contains(r.1@, p),
    {
        let mut best: usize = 0;
        let mut w = self.axis_width(0);
        let mut k: usize = 1;
        while k < 7
            invariant
                state_wf(self@),
                1 <= k <= 7,
                best < k,
                rat_inv(w@),
            decreases 7 - k,
        {
            let wk = self.axis_width(k);
            if w.le(&wk) {
                best = k;
                w = wk;
            }
            k += 1;
        }
        let r = self.split_axis(best);
        proof {
            lemma_split_covers(self@, best as int, r.0@, r.1@);
        }
        r
    }

    /// Bisects the box along the given axis.
    fn split_axis(&self, k: usize) -> (r: (State, State))
        requires
            state_wf(self@),
            k < 7,
        ensures
            state_wf(r.0@),
            state_wf(r.1@),
            state_subset(r.0@, self@),
            state_subset(r.1@, self@),
            split_at(self@, k as int, r.0@, r.1@),
    {
        if k == 0 {
            let (h1, h2) = split_interval(&self.outer.x);
            let c1 = State {
                outer: Point3d { x: h1, y: self.outer.y.dup(), z: self.outer.z.dup() },
                inner: self.inner.dup(),
                translate: self.translate.dup(),
            };
            let c2 = State {
                outer: Point3d { x: h2, y: self.outer.y.dup(), z: self.outer.z.dup() },
                inner: self.inner.dup(),
                translate: self.translate.dup(),
            };
            (c1, c2)
        } else if k == 1 {
            let (h1, h2) = split_interval(&self.outer.y);
            let c1 = State {
                outer: Point3d { x: self.outer.x.dup(), y: h1, z: self.outer.z.dup() },
                inner: self.inner.dup(),
                translate: self.translate.dup(),
            };
            let c2 = State {
                outer: Point3d { x: self.outer.x.dup(), y: h2, z: self.outer.z.dup() },
                inner: self.inner.dup(),
                translate: self.translate.dup(),
            };
            (c1, c2)
        } else if k == 2 {
            let (h1, h2) = split_interval(&self.outer.z);
            let c1 = State {
                outer: Point3d { x: self.outer.x.dup(), y: self.outer.y.dup(), z: h1 },
                inner: self.inner.dup(),
                translate: self.translate.dup(),
            };
            let c2 = State {
                outer: Point3d { x: self.outer.x.dup(), y: self.outer.y.dup(), z: h2 },
                inner: self.inner.dup(),
                translate: self.translate.dup(),
            };
            (c1, c2)
        } else if k == 3 {
            let (h1, h2) = split_interval(&self.inner.x);
            let c1 = State {
                outer: self.outer.dup(),
                inner: Point3d { x: h1, y: self.inner.y.dup(), z: self.inner.z.dup() },
                translate: self.translate.dup(),
            };
            let c2 = State {
                outer: self.outer.dup(),
                inner: Point3d { x: h2, y: self.inner.y.dup(), z: self.inner.z.dup() },
                translate: self.translate.dup(),
            };
            (c1, c2)
        } else if k == 4 {
            let (h1, h2) = split_interval(&self.inner.y);
            let c1 = State {
                outer: self.outer.dup(),
                inner: Point3d { x: self.inner.x.dup(), y: h1, z: self.inner.z.dup() },
                translate: self.translate.dup(),
            };
            let c2 = State {
                outer: self.outer.dup(),
                inner: Point3d { x: self.inner.x.dup(), y: h2, z: self.inner.z.dup() },
                translate: self.translate.dup(),
            };
            (c1, c2)
        } else if k == 5 {
            let (h1, h2) = split_interval(&self.inner.z);
            let c1 = State {
                outer: self.outer.dup(),
                inner: Point3d { x: self.inner.x.dup(), y: self.inner.y.dup(), z: h1 },
                translate: self.translate.dup(),
            };
            let c2 = State {
                outer: self.outer.dup(),
                inner: Point3d { x: self.inner.x.dup(), y: self.inner.y.dup(), z: h2 },
                translate: self.translate.dup(),
            };
            (c1, c2)
        } else {
            let (h1, h2) = split_interval(&self.translate);
            let c1 = State { outer: self.outer.dup(), inner: self.inner.dup(), translate: h1 };
            let c2 = State { outer: self.outer.dup(), inner: self.inner.dup(), translate: h2 };
            (c1, c2)
        }
    }

    /// Whether no axis is wider than `floor`: the box has reached the
    /// resolution floor.
    fn below_floor(&self, floor: &Rational) -> (r: bool)
        requires
            state_wf(self@),
            rat_inv(floor@),
        ensures
            r == state_below_floor(self@, floor@),
    {
        let mut k: usize = 0;
        let mut below = true;
        while k < 7
            invariant
                state_wf(self@),
                rat_inv(floor@),
                0 <= k <= 7,
                below == (forall|j: int|
                    0 <= j < k ==> rat_le(
                        rat_sub((#[trigger] axis(self@, j)).hi, axis(self@, j).lo),
                        floor@,
                    )),
            decreases 7 - k,
        {
            let w = self.axis_width(k);
            let wk_below = w.le(floor);
            proof {
                lemma_rat_ops_inv(axis(self@, k as int).hi, axis(self@, k as int).lo);
                lemma_rat_le_congr(
                    w@,
                    floor@,
                    rat_sub(axis(self@, k as int).hi, axis(self@, k as int).lo),
                    floor@,
                );
            }
            below = below && wk_below;
            k += 1;
        }
        below
    }
}

// ---------------------------------------------------------------------------
// The recursive subdivision driver.
// ---------------------------------------------------------------------------

/// The regions the search has settled, by classification.
pub struct SearchOutcome {
    /// Regions whose every rotation keeps the patch.
    pub inside: Vec<State>,
    /// Regions whose every rotation leaves the patch.
    pub outside: Vec<State>,
    /// Regions given up at the resolution floor or the depth budget, still
    /// indeterminate.
    pub abandoned: Vec<State>,
}

/// How many regions the outcome has settled.
pub open spec fn outcome_count(o: SearchOutcome) -> int {
    o.inside@.len() + o.outside@.len() + o.abandoned@.len() as int
}

/// Nothing already recorded is lost or changed.
pub open spec fn outcome_keeps(before: SearchOutcome, after: SearchOutcome) -> bool {
    &&& before.inside@.len() <= after.inside@.len()
    &&& before.outside@.len() <= after.outside@.len()
    &&& before.abandoned@.len() <= after.abandoned@.len()
    &&& forall|i: int|
        0 <= i < before.inside@.len() ==> (#[trigger] after.inside@[i]) == before.inside@[i]
    &&& forall|i: int|
        0 <= i < before.outside@.len() ==> (#[trigger] after.outside@[i]) == before.outside@[i]
    &&& forall|i: int|
        0 <= i < before.abandoned@.len() ==> (#[trigger] after.abandoned@[i])
            == before.abandoned@[i]
}

/// Every region recorded since `before` is a sub-box of `s`.
pub open spec fn new_regions_within(
    before: SearchOutcome,
    after: SearchOutcome,
    s: StateM,
) -> bool {
    &&& forall|i: int|
        before.inside@.len() <= i < after.inside@.len() ==> state_subset(
            (#[trigger] after.inside@[i])@,
            s,
        )
    &&& forall|i: int|
        before.outside@.len() <= i < after.outside@.len() ==> state_subset(
            (#[trigger] after.outside@[i])@,
            s,
        )
    &&& forall|i: int|
        before.abandoned@.len() <= i < after.abandoned@.len() ==> state_subset(
            (#[trigger] after.abandoned@[i])@,
            s,
        )
}

/// Some region recorded since `before` contains the point.
pub open spec fn point_covered(
    before: SearchOutcome,
    after: SearchOutcome,
    p: ParamPoint,
) -> bool {
    ||| exists|i: int|
        before.inside@.len() <= i < after.inside@.len() && state_contains(
            (#[trigger] after.inside@[i])@,
            p,
        )
    ||| exists|i: int|
        before.outside@.len() <= i < after.outside@.len() && state_contains(
            (#[trigger] after.outside@[i])@,
            p,
        )
    ||| exists|i: int|
        before.abandoned@.len() <= i < after.abandoned@.len() && state_contains(
            (#[trigger] after.abandoned@[i])@,
            p,
        )
}

/// The regions recorded since `before` cover the box `s`: every point of
/// `s` lies in one of them.
pub open spec fn new_regions_cover(
    before: SearchOutcome,
    after: SearchOutcome,
    s: StateM,
) -> bool {
    forall|p: ParamPoint|
        param_inv(p) && #[trigger] state_contains(s, p) ==> point_covered(before, after, p)
}

/// Some region of the outcome contains the point.
pub open spec fn outcome_covers(o: SearchOutcome, p: ParamPoint) -> bool {
    ||| exists|i: int|
        0 <= i < o.inside@.len() && state_contains((#[trigger] o.inside@[i])@, p)
    ||| exists|i: int|
        0 <= i < o.outside@.len() && state_contains((#[trigger] o.outside@[i])@, p)
    ||| exists|i: int|
        0 <= i < o.abandoned@.len() && state_contains((#[trigger] o.abandoned@[i])@, p)
}

/// A point covered over the first leg or the second leg of a growing record
/// is covered over the whole.
proof fn lemma_point_covered_widen(
    before: SearchOutcome,
    mid: SearchOutcome,
    after: SearchOutcome,
    p: ParamPoint,
)
    requires
        outcome_keeps(before, mid),
        outcome_keeps(mid, after),
        point_covered(before, mid, p) || point_covered(mid, after, p),
    ensures
        point_covered(before, after, p),
{
    if point_covered(before, mid, p) {
        if exists|i: int|
            before.inside@.len() <= i < mid.inside@.len() && state_contains(
                (#[trigger] mid.inside@[i])@,
                p,
            ) {
            let i = choose|i: int|
                before.inside@.len() <= i < mid.inside@.len() && state_contains(
                    (#[trigger] mid.inside@[i])@,
                    p,
                );
            assert(after.inside@[i] == mid.inside@[i]);
            assert(state_contains(after.inside@[i]@, p));
        } else if exists|i: int|
            before.outside@.len() <= i < mid.outside@.len() && state_contains(
                (#[trigger] mid.outside@[i])@,
                p,
            ) {
            let i = choose|i: int|
                before.outside@.len() <= i < mid.outside@.len() && state_contains(
                    (#[trigger] mid.outside@[i])@,
                    p,
                );
            assert(after.outside@[i] == mid.outside@[i]);
            assert(state_contains(after.outside@[i]@, p));
        } else {
            let i = choose|i: int|
                before.abandoned@.len() <= i < mid.abandoned@.len() && state_contains(
                    (#[trigger] mid.abandoned@[i])@,
                    p,
                );
            assert(after.abandoned@[i] == mid.abandoned@[i]);
            assert(state_contains(after.abandoned@[i]@, p));
        }
    } else {
        if exists|i: int|
            mid.inside@.len() <= i < after.inside@.len() && state_contains(
                (#[trigger] after.inside@[i])@,
                p,
            ) {
            let i = choose|i: int|
                mid.inside@.len() <= i < after.inside@.len() && state_contains(
                    (#[trigger] after.inside@[i])@,
                    p,
                );
            assert(before.inside@.len() <= i);
            assert(state_contains(after.inside@[i]@, p));
        } else if exists|i: int|
            mid.outside@.len() <= i < after.outside@.len() && state_contains(
                (#[trigger] after.outside@[i])@,
                p,
            ) {
            let i = choose|i: int|
                mid.outside@.len() <= i < after.outside@.len() && state_contains(
                    (#[trigger] after.outside@[i])@,
                    p,
                );
            assert(before.outside@.len() <= i);
            assert(state_contains(after.outside@[i]@, p));
        } else {
            let i = choose|i: int|
                mid.abandoned@.len() <= i < after.abandoned@.len() && state_contains(
                    (#[trigger] after.abandoned@[i])@,
                    p,
                );
            assert(before.abandoned@.len() <= i);
            assert(state_contains(after.abandoned@[i]@, p));
        }
    }
}

/// Every recorded region is well-formed and carries the classification of
/// the list it is in.
pub open spec fn outcome_ok(env: Env, o: SearchOutcome) -> bool {
    &&& forall|i: int|
        0 <= i < o.inside@.len() ==> state_wf((#[trigger] o.inside@[i])@) && classify_spec(
            env,
            o.inside@[i]@,
        ) == Classification::CertifiedInside
    &&& forall|i: int|
        0 <= i < o.outside@.len() ==> state_wf((#[trigger] o.outside@[i])@) && classify_spec(
            env,
            o.outside@[i]@,
        ) == Classification::CertifiedOutside
    &&& forall|i: int|
        0 <= i < o.abandoned@.len() ==> state_wf((#[trigger] o.abandoned@[i])@) && classify_spec(
            env,
            o.abandoned@[i]@,
        ) == Classification::Indeterminate
}

/// Classifies a region; on an indeterminate region, bisects and recurses
/// while the depth budget lasts and the box is wider than the resolution
/// floor, and otherwise abandons the region.
///
/// Beyond soundness of everything recorded, the contract ties the outcome to
/// the input region: every region recorded by this call is a sub-box of `s`,
/// together the recorded regions cover all of `s`, and on a decided or
/// given-up region the record grows by exactly `s` itself — a region is
/// recorded as abandoned only with the depth budget spent or every axis at
/// the resolution floor.
pub fn search_region(env: &Env, s: State, floor: &Rational, depth: u32, out: &mut SearchOutcome)
    requires
        env.wf(),
        state_wf(s@),
        rat_inv(floor@),
        outcome_ok(*env, *old(out)),
    ensures
        outcome_ok(*env, *final(out)),
        outcome_keeps(*old(out), *final(out)),
        outcome_count(*final(out)) > outcome_count(*old(out)),
        new_regions_within(*old(out), *final(out), s@),
        new_regions_cover(*old(out), *final(out), s@),
        classify_spec(*env, s@) == Classification::CertifiedInside ==> final(out).inside@ == old(
            out,
        ).inside@.push(s) && final(out).outside@ == old(out).outside@ && final(out).abandoned@
            == old(out).abandoned@,
        classify_spec(*env, s@) == Classification::CertifiedOutside ==> final(out).outside@ == old(
            out,
        ).outside@.push(s) && final(out).inside@ == old(out).inside@ && final(out).abandoned@
            == old(out).abandoned@,
        classify_spec(*env, s@) == Classification::Indeterminate && (depth == 0
            || state_below_floor(s@, floor@)) ==> final(out).abandoned@ == old(
            out,
        ).abandoned@.push(s) && final(out).inside@ == old(out).inside@ && final(out).outside@
            == old(out).outside@,
    decreases depth,
{
    let c = classify(env, &s);
    match c {
        Classification::CertifiedInside => {
            let ghost old_inside = out.inside@;
            out.inside.push(s);
            proof {
                assert(forall|i: int|
                    0 <= i < old_inside.len() ==> out.inside@[i] == old_inside[i]);
                assert(out.inside@[old_inside.len() as int] == s);
                assert(state_subset(s@, s@));
                assert forall|p: ParamPoint|
                    param_inv(p) && state_contains(s@, p) implies point_covered(
                    *old(out),
                    *out,
                    p,
                ) by {
                    assert(state_contains(out.inside@[old_inside.len() as int]@, p));
                }
            }
        },
        Classification::CertifiedOutside => {
            let ghost old_outside = out.outside@;
            out.outside.push(s);
            proof {
                assert(forall|i: int|
                    0 <= i < old_outside.len() ==> out.outside@[i] == old_outside[i]);
                assert(out.outside@[old_outside.len() as int] == s);
                assert(state_subset(s@, s@));
                assert forall|p: ParamPoint|
                    param_inv(p) && state_contains(s@, p) implies point_covered(
                    *old(out),
                    *out,
                    p,
                ) by {
                    assert(state_contains(out.outside@[old_outside.len() as int]@, p));
                }
            }
        },
        Classification::Indeterminate => {
            if depth == 0 || s.below_floor(floor) {
                let ghost old_ab = out.abandoned@;
                out.abandoned.push(s);
                proof {
                    assert(forall|i: int|
                        0 <= i < old_ab.len() ==> out.abandoned@[i] == old_ab[i]);
                    assert(out.abandoned@[old_ab.len() as int] == s);
                    assert(state_subset(s@, s@));
                    assert forall|p: ParamPoint|
                        param_inv(p) && state_contains(s@, p) implies point_covered(
                        *old(out),
                        *out,
                        p,
                    ) by {
                        assert(state_contains(out.abandoned@[old_ab.len() as int]@, p));
                    }
                }
            } else {
                let (c1, c2) = s.subdivide();
                search_region(env, c1, floor, depth - 1, out);
                let ghost mid = *out;
                search_region(env, c2, floor, depth - 1, out);
                proof {
                    assert forall|i: int|
                        old(out).inside@.len() <= i < out.inside@.len() implies state_subset(
                        (#[trigger] out.inside@[i])@,
                        s@,
                    ) by {
                        if i < mid.inside@.len() {
                            assert(out.inside@[i] == mid.inside@[i]);
                            assert(state_subset(mid.inside@[i]@, c1@));
                            assert(state_wf(mid.inside@[i]@));
                            lemma_state_subset_trans(out.inside@[i]@, c1@, s@);
                        } else {
                            assert(state_subset(out.inside@[i]@, c2@));
                            assert(state_wf(out.inside@[i]@));
                            lemma_state_subset_trans(out.inside@[i]@, c2@, s@);
                        }
                    }
                    assert forall|i: int|
                        old(out).outside@.len() <= i < out.outside@.len() implies state_subset(
                        (#[trigger] out.outside@[i])@,
                        s@,
                    ) by {
                        if i < mid.outside@.len() {
                            assert(out.outside@[i] == mid.outside@[i]);
                            assert(state_subset(mid.outside@[i]@, c1@));
                            assert(state_wf(mid.outside@[i]@));
                            lemma_state_subset_trans(out.outside@[i]@, c1@, s@);
                        } else {
                            assert(state_subset(out.outside@[i]@, c2@));
                            assert(state_wf(out.outside@[i]@));
                            lemma_state_subset_trans(out.outside@[i]@, c2@, s@);
                        }
                    }
                    assert forall|i: int|
                        old(out).abandoned@.len() <= i < out.abandoned@.len() implies state_subset(
                        (#[trigger] out.abandoned@[i])@,
                        s@,
                    ) by {
                        if i < mid.abandoned@.len() {
                            assert(out.abandoned@[i] == mid.abandoned@[i]);
                            assert(state_subset(mid.abandoned@[i]@, c1@));
                            assert(state_wf(mid.abandoned@[i]@));
                            lemma_state_subset_trans(out.abandoned@[i]@, c1@, s@);
                        } else {
                            assert(state_subset(out.abandoned@[i]@, c2@));
                            assert(state_wf(out.abandoned@[i]@));
                            lemma_state_subset_trans(out.abandoned@[i]@, c2@, s@);
                        }
                    }
                    assert forall|p: ParamPoint|
                        param_inv(p) && state_contains(s@, p) implies point_covered(
                        *old(out),
                        *out,
                        p,
                    ) by {
                        if state_contains(c1@, p) {
                            assert(point_covered(*old(out), mid, p));
                            lemma_point_covered_widen(*old(out), mid, *out, p);
                        } else {
                            assert(state_contains(c2@, p));
                            assert(point_covered(mid, *out, p));
                            lemma_point_covered_widen(*old(out), mid, *out, p);
                        }
                    }
                }
            }
        },
        _ => {
            proof {
                assert(false);
            }
        },
    }
}

/// Runs the subdivision search from a root region, with a resolution floor
/// on axis width and a recursion-depth budget. Everything the outcome
/// reports carries its proven classification; every reported region is a
/// sub-box of the root; together the reported regions cover the whole root,
/// so the outcome accounts for all of it as inside, outside or abandoned;
/// and abandoned regions are indeterminate, never silently decided.
pub fn search(env: &Env, root: State, floor: &Rational, depth: u32) -> (o: SearchOutcome)
    requires
        env.wf(),
        state_wf(root@),
        rat_inv(floor@),
    ensures
        outcome_ok(*env, o),
        outcome_count(o) >= 1,
        forall|i: int|
            0 <= i < o.inside@.len() ==> state_subset((#[trigger] o.inside@[i])@, root@),
        forall|i: int|
            0 <= i < o.outside@.len() ==> state_subset((#[trigger] o.outside@[i])@, root@),
        forall|i: int|
            0 <= i < o.abandoned@.len() ==> state_subset((#[trigger] o.abandoned@[i])@, root@),
        forall|p: ParamPoint|
            param_inv(p) && #[trigger] state_contains(root@, p) ==> outcome_covers(o, p),
{
    let mut o = SearchOutcome { inside: Vec::new(), outside: Vec::new(), abandoned: Vec::new() };
    let ghost before = o;
    search_region(env, root, floor, depth, &mut o);
    proof {
        assert forall|p: ParamPoint|
            param_inv(p) && state_contains(root@, p) implies outcome_covers(o, p) by {
            assert(point_covered(before, o, p));
        }
    }
    o
}

/// Whether the quaternion box could realize the patch: no face outside the
/// patch's positive set can possibly turn positive. A face that could be
/// positive under some rotation of the box, yet is not a patch face, rules
/// the box out.
pub fn quat_in_in_patch(env: &Env, quat: &Quat<Interval<Rational>>) -> (r: bool)
    requires
        env.wf(),
        q_inv_m(qview(*quat)),
        i_sign_definite(i_q_sqnorm(qview(*quat))),
    ensures
        r == (forall|i: int|
            0 <= i < env.faces@.len() && rat_pos(
                rotated_face_cross_m(*env, qview(*quat), i).z.hi,
            ) ==> env.positive_faces@.contains(i as usize)),
{
    let ghost gq = qview(*quat);
    let viv = vertices_as_exact_intervals(&env.vertices);
    let rotated = rotate_vertices(quat, &viv);
    let nf = env.faces.len();
    let mut ok = true;
    let mut i: usize = 0;
    while i < nf
        invariant
            0 <= i <= nf,
            env.wf(),
            q_inv_m(gq),
            i_sign_definite(i_q_sqnorm(gq)),
            nf == env.faces@.len(),
            rotated@.len() == env.vertices@.len(),
            forall|k: int|
                0 <= k < env.vertices@.len() ==> p_inv_m(pview(#[trigger] rotated@[k])) && p_eq(
                    pview(rotated@[k]),
                    i_rotate(gq, pview(env.vertices@[k])),
                ),
            ok == (forall|ii: int|
                0 <= ii < i && rat_pos(
                    rotated_face_cross_m(*env, gq, ii).z.hi,
                ) ==> env.positive_faces@.contains(ii as usize)),
        decreases nf - i,
    {
        let ghost gface = env.faces@[i as int]@;
        let z = face_cross_z(&rotated, &env.faces[i]);
        proof {
            lemma_face_sign_agrees(env.vertices@, gq, rotated@, gface);
            z.sign_agrees();
            lemma_rat_sign_congr(
                z@.hi,
                i_face_cross(
                    pview(rotated@[gface[0] as int]),
                    pview(rotated@[gface[1] as int]),
                    pview(rotated@[gface[2] as int]),
                ).z.hi,
            );
        }
        let zmp = z.is_maybe_positive();
        proof {
            assert(zmp == rat_pos(rotated_face_cross_m(*env, gq, i as int).z.hi));
        }
        let ghost old_ok = ok;
        if zmp {
            let inside = contains_idx(&env.positive_faces, i);
            if !inside {
                ok = false;
                proof {
                    assert(!(forall|ii: int|
                        0 <= ii < i + 1 && rat_pos(
                            rotated_face_cross_m(*env, gq, ii).z.hi,
                        ) ==> env.positive_faces@.contains(ii as usize)));
                }
            }
        }
        proof {
            if ok {
                assert(forall|ii: int|
                    0 <= ii < i + 1 && rat_pos(
                        rotated_face_cross_m(*env, gq, ii).z.hi,
                    ) ==> env.positive_faces@.contains(ii as usize));
            } else if old_ok {
                assert(!(forall|ii: int|
                    0 <= ii < i + 1 && rat_pos(
                        rotated_face_cross_m(*env, gq, ii).z.hi,
                    ) ==> env.positive_faces@.contains(ii as usize)));
            } else {
                let w = choose|w: int|
                    0 <= w < i && rat_pos(rotated_face_cross_m(*env, gq, w).z.hi)
                        && !env.positive_faces@.contains(w as usize);
                assert(!(forall|ii: int|
                    0 <= ii < i + 1 && rat_pos(
                        rotated_face_cross_m(*env, gq, ii).z.hi,
                    ) ==> env.positive_faces@.contains(ii as usize)));
            }
        }
        i += 1;
    }
    ok
}


// ---------------------------------------------------------------------------
// Monotonicity of classification under subdivision.
// ---------------------------------------------------------------------------

/// The orientation witness respects inclusion of the three vertex boxes.
proof fn lemma_face_cross_mono(
    c0: IPoint,
    c1: IPoint,
    c2: IPoint,
    p0: IPoint,
    p1: IPoint,
    p2: IPoint,
)
    requires
        p_wf_m(c0),
        p_wf_m(c1),
        p_wf_m(c2),
        p_inv_m(p0),
        p_inv_m(p1),
        p_inv_m(p2),
        p_subset_m(c0, p0),
        p_subset_m(c1, p1),
        p_subset_m(c2, p2),
    ensures
        p_inv_m(i_face_cross(c0, c1, c2)),
        p_inv_m(i_face_cross(p0, p1, p2)),
        p_subset_m(i_face_cross(c0, c1, c2), i_face_cross(p0, p1, p2)),
{
    lemma_i_sub_mono(c1.x, c0.x, p1.x, p0.x);
    lemma_i_sub_mono(c1.y, c0.y, p1.y, p0.y);
    lemma_i_sub_mono(c1.z, c0.z, p1.z, p0.z);
    lemma_i_sub_mono(c2.x, c0.x, p2.x, p0.x);
    lemma_i_sub_mono(c2.y, c0.y, p2.y, p0.y);
    lemma_i_sub_mono(c2.z, c0.z, p2.z, p0.z);
    lemma_i_ops_wf(c1.x, c0.x);
    lemma_i_ops_wf(c1.y, c0.y);
    lemma_i_ops_wf(c1.z, c0.z);
    lemma_i_ops_wf(c2.x, c0.x);
    lemma_i_ops_wf(c2.y, c0.y);
    lemma_i_ops_wf(c2.z, c0.z);
    let e1 = i_p_sub(c1, c0);
    let e2 = i_p_sub(c2, c0);
    let f1 = i_p_sub(p1, p0);
    let f2 = i_p_sub(p2, p0);
    lemma_i_sub_congr(p1.x, p0.x, p1.x, p0.x);
    lemma_i_sub_congr(p1.y, p0.y, p1.y, p0.y);
    lemma_i_sub_congr(p1.z, p0.z, p1.z, p0.z);
    lemma_i_sub_congr(p2.x, p0.x, p2.x, p0.x);
    lemma_i_sub_congr(p2.y, p0.y, p2.y, p0.y);
    lemma_i_sub_congr(p2.z, p0.z, p2.z, p0.z);
    lemma_i_mul_mono(e1.y, e2.z, f1.y, f2.z);
    lemma_i_mul_mono(e1.z, e2.y, f1.z, f2.y);
    lemma_i_mul_mono(e1.z, e2.x, f1.z, f2.x);
    lemma_i_mul_mono(e1.x, e2.z, f1.x, f2.z);
    lemma_i_mul_mono(e1.x, e2.y, f1.x, f2.y);
    lemma_i_mul_mono(e1.y, e2.x, f1.y, f2.x);
    lemma_i_mul_inv(e1.y, e2.z);
    lemma_i_mul_inv(e1.z, e2.y);
    lemma_i_mul_inv(e1.z, e2.x);
    lemma_i_mul_inv(e1.x, e2.z);
    lemma_i_mul_inv(e1.x, e2.y);
    lemma_i_mul_inv(e1.y, e2.x);
    lemma_i_mul_inv(f1.y, f2.z);
    lemma_i_mul_inv(f1.z, f2.y);
    lemma_i_mul_inv(f1.z, f2.x);
    lemma_i_mul_inv(f1.x, f2.z);
    lemma_i_mul_inv(f1.x, f2.y);
    lemma_i_mul_inv(f1.y, f2.x);
    lemma_i_sub_mono(i_mul(e1.y, e2.z), i_mul(e1.z, e2.y), i_mul(f1.y, f2.z), i_mul(f1.z, f2.y));
    lemma_i_sub_mono(i_mul(e1.z, e2.x), i_mul(e1.x, e2.z), i_mul(f1.z, f2.x), i_mul(f1.x, f2.z));
    lemma_i_sub_mono(i_mul(e1.x, e2.y), i_mul(e1.y, e2.x), i_mul(f1.x, f2.y), i_mul(f1.y, f2.x));
    lemma_i_sub_congr(i_mul(e1.y, e2.z), i_mul(e1.z, e2.y), i_mul(e1.y, e2.z), i_mul(e1.z, e2.y));
    lemma_i_sub_congr(i_mul(e1.z, e2.x), i_mul(e1.x, e2.z), i_mul(e1.z, e2.x), i_mul(e1.x, e2.z));
    lemma_i_sub_congr(i_mul(e1.x, e2.y), i_mul(e1.y, e2.x), i_mul(e1.x, e2.y), i_mul(e1.y, e2.x));
    lemma_i_sub_congr(i_mul(f1.y, f2.z), i_mul(f1.z, f2.y), i_mul(f1.y, f2.z), i_mul(f1.z, f2.y));
    lemma_i_sub_congr(i_mul(f1.z, f2.x), i_mul(f1.x, f2.z), i_mul(f1.z, f2.x), i_mul(f1.x, f2.z));
    lemma_i_sub_congr(i_mul(f1.x, f2.y), i_mul(f1.y, f2.x), i_mul(f1.x, f2.y), i_mul(f1.y, f2.x));
}

/// Classification is monotone under subdivision: a child of a region whose
/// every rotation keeps the patch is itself certified inside. Narrowing a
/// box that was already fully safe loses no information.
pub proof fn lemma_classify_monotone(env: Env, parent: StateM, child: StateM)
    requires
        env.wf(),
        state_wf(parent),
        state_wf(child),
        state_subset(child, parent),
        classify_spec(env, parent) == Classification::CertifiedInside,
    ensures
        classify_spec(env, child) == Classification::CertifiedInside,
{
    let qp = state_quat(parent);
    let qc = state_quat(child);
    assert(q_wf_m(qc));
    assert(q_inv_m(qp));
    assert(q_subset_m(qc, qp));
    assert(i_sign_definite(i_q_sqnorm(qp)));
    assert(all_pos_certain(env, qp));
    lemma_i_q_sqnorm_wf(qc);
    lemma_i_q_sqnorm_inv(qp);
    lemma_i_q_sqnorm_mono(qc, qp);
    lemma_i_recip_mono(i_q_sqnorm(qc), i_q_sqnorm(qp));
    assert(i_sign_definite(i_q_sqnorm(qc)));
    assert forall|j: int| 0 <= j < env.positive_faces@.len() implies rat_pos(
        rotated_face_cross_m(env, qc, (#[trigger] env.positive_faces@[j]) as int).z.lo,
    ) by {
        let fi = env.positive_faces@[j] as int;
        assert(face_wf(env.vertices@.len() as int, (env.faces@[fi])@));
        let k0 = env.faces@[fi]@[0] as int;
        let k1 = env.faces@[fi]@[1] as int;
        let k2 = env.faces@[fi]@[2] as int;
        let v0 = pview(env.vertices@[k0]);
        let v1 = pview(env.vertices@[k1]);
        let v2 = pview(env.vertices@[k2]);
        assert(p_inv_m(v0) && p_inv_m(v1) && p_inv_m(v2));
        assert(p_wf_m(v0) && p_wf_m(v1) && p_wf_m(v2));
        lemma_i_rotate_mono(qc, qp, v0);
        lemma_i_rotate_mono(qc, qp, v1);
        lemma_i_rotate_mono(qc, qp, v2);
        lemma_i_rotate_inv(qp, v0);
        lemma_i_rotate_inv(qp, v1);
        lemma_i_rotate_inv(qp, v2);
        lemma_face_cross_mono(
            i_rotate(qc, v0),
            i_rotate(qc, v1),
            i_rotate(qc, v2),
            i_rotate(qp, v0),
            i_rotate(qp, v1),
            i_rotate(qp, v2),
        );
        assert(rat_pos(rotated_face_cross_m(env, qp, fi).z.lo));
        lemma_rat_pos_le_trans(
            rotated_face_cross_m(env, qp, fi).z.lo,
            rotated_face_cross_m(env, qc, fi).z.lo,
        );
    }
    assert(all_pos_certain(env, qc));
}

} // verus!

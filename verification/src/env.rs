//! The immutable polyhedron environment the search reads.
//!
//! Holds the vertex list, the face list, the reference rotation that picks
//! the patch, the rotated vertices, the derived set of positive faces and the
//! convex-hull circuit. Construction validates the data; afterwards nothing
//! mutates the environment.

use vstd::prelude::*;

use crate::Error;
use crate::rat::{rat_inv, rat_pos, rat_signum, lemma_rat_sign_congr};
use crate::rational::Rational;
use crate::interval::{i_inv, i_eq, IntervalSign, Scalar, sview, i_sign_definite};
use crate::geom::{
    Point3d, Quat, IPoint, IQuat, pview, qview, p_inv_m, q_inv_m, p_eq, i_p_sub, i_p_cross,
    i_q_sqnorm, i_rotate, rotate_vertices, lemma_p_eq_trans, lemma_i_p_sub_congr,
    lemma_i_p_cross_congr, lemma_i_q_sqnorm_inv, lemma_i_rotate_inv,
};

verus! {

// ---------------------------------------------------------------------------
// Faces and orientation, on the model.
// ---------------------------------------------------------------------------

/// A face holds at least three vertex indices, all in range.
pub open spec fn face_wf(n: int, face: Seq<usize>) -> bool {
    face.len() >= 3 && forall|j: int| 0 <= j < face.len() ==> (#[trigger] face[j]) < n
}

pub open spec fn faces_wf(n: int, faces: Seq<Vec<usize>>) -> bool {
    forall|i: int| 0 <= i < faces.len() ==> face_wf(n, (#[trigger] faces[i])@)
}

pub open spec fn idxs_wf(n: int, c: Seq<usize>) -> bool {
    forall|j: int| 0 <= j < c.len() ==> (#[trigger] c[j]) < n
}

pub open spec fn verts_inv<T: Scalar>(vs: Seq<Point3d<T>>) -> bool {
    forall|i: int| 0 <= i < vs.len() ==> p_inv_m(pview(#[trigger] vs[i]))
}

/// The cross product of the two leading edge vectors of a face: its
/// orientation witness.
pub open spec fn i_face_cross(v0: IPoint, v1: IPoint, v2: IPoint) -> IPoint {
    i_p_cross(i_p_sub(v1, v0), i_p_sub(v2, v0))
}

/// Some value in the face's orientation range is positive: the face could be
/// front-facing.
pub open spec fn face_maybe_pos<T: Scalar>(vs: Seq<Point3d<T>>, face: Seq<usize>) -> bool {
    rat_pos(
        i_face_cross(
            pview(vs[face[0] as int]),
            pview(vs[face[1] as int]),
            pview(vs[face[2] as int]),
        ).z.hi,
    )
}

/// The orientation witness of the face is the zero vector: its first three
/// vertices are collinear.
pub open spec fn face_degenerate(vs: Seq<Point3d<Rational>>, face: Seq<usize>) -> bool {
    let c = i_face_cross(
        pview(vs[face[0] as int]),
        pview(vs[face[1] as int]),
        pview(vs[face[2] as int]),
    );
    rat_signum(c.x.lo) == 0 && rat_signum(c.y.lo) == 0 && rat_signum(c.z.lo) == 0
}

/// The orientation witnesses of corresponding faces coincide when the two
/// vertex lists have the same bounds.
pub proof fn lemma_face_cross_congr(v0: IPoint, v1: IPoint, v2: IPoint, w0: IPoint, w1: IPoint, w2: IPoint)
    requires
        p_inv_m(v0),
        p_inv_m(v1),
        p_inv_m(v2),
        p_inv_m(w0),
        p_inv_m(w1),
        p_inv_m(w2),
        p_eq(v0, w0),
        p_eq(v1, w1),
        p_eq(v2, w2),
    ensures
        p_inv_m(i_face_cross(v0, v1, v2)),
        p_inv_m(i_face_cross(w0, w1, w2)),
        p_eq(i_face_cross(v0, v1, v2), i_face_cross(w0, w1, w2)),
{
    lemma_i_p_sub_congr(v1, v0, w1, w0);
    lemma_i_p_sub_congr(v2, v0, w2, w0);
    lemma_i_p_cross_congr(i_p_sub(v1, v0), i_p_sub(v2, v0), i_p_sub(w1, w0), i_p_sub(w2, w0));
}

// ---------------------------------------------------------------------------
// Executable checks.
// ---------------------------------------------------------------------------

/// Given an oriented list of the vertices of a face, true if that face could
/// be in positive orientation with respect to the z-axis. Only the first
/// three vertices are read; the face's construction invariant makes them
/// representative of the whole coplanar face.
pub fn is_positive_face<T: Scalar>(face_vs: &Vec<Point3d<T>>) -> (r: bool)
    requires
        face_vs.len() >= 3,
        p_inv_m(pview(face_vs[0])),
        p_inv_m(pview(face_vs[1])),
        p_inv_m(pview(face_vs[2])),
    ensures
        r == rat_pos(
            i_face_cross(pview(face_vs[0]), pview(face_vs[1]), pview(face_vs[2])).z.hi,
        ),
{
    let ghost gv0 = pview(face_vs@[0]);
    let ghost gv1 = pview(face_vs@[1]);
    let ghost gv2 = pview(face_vs@[2]);
    let v0 = face_vs[0].dup();
    let v1 = face_vs[1].dup();
    let v2 = face_vs[2].dup();
    let e1 = v1.sub(&v0);
    let e2 = v2.sub(&v0);
    let c = e1.cross(&e2);
    proof {
        lemma_i_p_sub_congr(gv1, gv0, gv1, gv0);
        lemma_i_p_sub_congr(gv2, gv0, gv2, gv0);
        lemma_i_p_cross_congr(pview(e1), pview(e2), i_p_sub(gv1, gv0), i_p_sub(gv2, gv0));
        lemma_p_eq_trans(
            pview(c),
            i_p_cross(pview(e1), pview(e2)),
            i_face_cross(gv0, gv1, gv2),
        );
        c.z.sign_agrees();
        lemma_rat_sign_congr(c.z.hi(), i_face_cross(gv0, gv1, gv2).z.hi);
    }
    c.z.is_maybe_positive()
}

/// True when the orientation witness of the face is the zero vector.
fn face_degenerate_check(vs: &Vec<Point3d<Rational>>, face: &Vec<usize>) -> (r: bool)
    requires
        verts_inv(vs@),
        face_wf(vs@.len() as int, face@),
    ensures
        r == face_degenerate(vs@, face@),
{
    let ghost gv0 = pview(vs@[face@[0] as int]);
    let ghost gv1 = pview(vs@[face@[1] as int]);
    let ghost gv2 = pview(vs@[face@[2] as int]);
    let v0 = vs[face[0]].dup();
    let v1 = vs[face[1]].dup();
    let v2 = vs[face[2]].dup();
    let e1 = v1.sub(&v0);
    let e2 = v2.sub(&v0);
    let c = e1.cross(&e2);
    proof {
        lemma_i_p_sub_congr(gv1, gv0, gv1, gv0);
        lemma_i_p_sub_congr(gv2, gv0, gv2, gv0);
        lemma_i_p_cross_congr(pview(e1), pview(e2), i_p_sub(gv1, gv0), i_p_sub(gv2, gv0));
        lemma_p_eq_trans(
            pview(c),
            i_p_cross(pview(e1), pview(e2)),
            i_face_cross(gv0, gv1, gv2),
        );
        lemma_rat_sign_congr(c.x@, i_face_cross(gv0, gv1, gv2).x.lo);
        lemma_rat_sign_congr(c.y@, i_face_cross(gv0, gv1, gv2).y.lo);
        lemma_rat_sign_congr(c.z@, i_face_cross(gv0, gv1, gv2).z.lo);
    }
    c.x.is_zero() && c.y.is_zero() && c.z.is_zero()
}

fn check_faces(n: usize, fs: &Vec<Vec<usize>>) -> (r: bool)
    ensures
        r == faces_wf(n as int, fs@),
{
    let mut i: usize = 0;
    while i < fs.len()
        invariant
            0 <= i <= fs.len(),
            forall|k: int| 0 <= k < i ==> face_wf(n as int, (#[trigger] fs@[k])@),
        decreases fs.len() - i,
    {
        let f = &fs[i];
        if f.len() < 3 {
            assert(!face_wf(n as int, fs@[i as int]@));
            return false;
        }
        let mut j: usize = 0;
        while j < f.len()
            invariant
                0 <= j <= f@.len(),
                0 <= i < fs@.len(),
                f@ == fs@[i as int]@,
                forall|k: int| 0 <= k < j ==> (#[trigger] f@[k]) < n,
            decreases f.len() - j,
        {
            if f[j] >= n {
                assert(!face_wf(n as int, fs@[i as int]@));
                return false;
            }
            j += 1;
        }
        assert(face_wf(n as int, fs@[i as int]@));
        i += 1;
    }
    true
}

fn check_idxs(n: usize, c: &Vec<usize>) -> (r: bool)
    ensures
        r == idxs_wf(n as int, c@),
{
    let mut i: usize = 0;
    while i < c.len()
        invariant
            0 <= i <= c.len(),
            forall|k: int| 0 <= k < i ==> (#[trigger] c@[k]) < n,
        decreases c.len() - i,
    {
        if c[i] >= n {
            return false;
        }
        i += 1;
    }
    true
}

/// Whether the index list holds `x`.
pub fn contains_idx(v: &Vec<usize>, x: usize) -> (r: bool)
    ensures
        r == v@.contains(x),
{
    let mut i: usize = 0;
    while i < v.len()
        invariant
            0 <= i <= v.len(),
            forall|k: int| 0 <= k < i ==> (#[trigger] v@[k]) != x,
        decreases v.len() - i,
    {
        if v[i] == x {
            assert(v@[i as int] == x);
            return true;
        }
        i += 1;
    }
    assert(!v@.contains(x));
    false
}

/// Returns the list of indices of faces that have positive orientation,
/// in increasing order.
pub fn get_positive_faces(vs: &Vec<Point3d<Rational>>, fs: &Vec<Vec<usize>>) -> (r: Vec<usize>)
    requires
        verts_inv(vs@),
        faces_wf(vs@.len() as int, fs@),
    ensures
        forall|j: int|
            0 <= j < r@.len() ==> (#[trigger] r@[j]) < fs@.len() && face_maybe_pos(
                vs@,
                fs@[r@[j] as int]@,
            ),
        forall|i: int|
            0 <= i < fs@.len() && face_maybe_pos(vs@, (#[trigger] fs@[i])@) ==> r@.contains(
                i as usize,
            ),
        forall|j1: int, j2: int| 0 <= j1 < j2 < r@.len() ==> r@[j1] < r@[j2],
{
    let mut out: Vec<usize> = Vec::new();
    let mut i: usize = 0;
    while i < fs.len()
        invariant
            0 <= i <= fs.len(),
            verts_inv(vs@),
            faces_wf(vs@.len() as int, fs@),
            forall|j: int|
                0 <= j < out@.len() ==> (#[trigger] out@[j]) < i && face_maybe_pos(
                    vs@,
                    fs@[out@[j] as int]@,
                ),
            forall|k: int|
                0 <= k < i && face_maybe_pos(vs@, (#[trigger] fs@[k])@) ==> out@.contains(
                    k as usize,
                ),
            forall|j1: int, j2: int| 0 <= j1 < j2 < out@.len() ==> out@[j1] < out@[j2],
        decreases fs.len() - i,
    {
        let face = &fs[i];
        let mut face_vs: Vec<Point3d<Rational>> = Vec::new();
        let mut j: usize = 0;
        while j < face.len()
            invariant
                0 <= j <= face.len(),
                verts_inv(vs@),
                face_wf(vs@.len() as int, face@),
                face_vs@.len() == j,
                forall|k: int|
                    0 <= k < j ==> pview(#[trigger] face_vs@[k]) == pview(
                        vs@[face@[k] as int],
                    ) && p_inv_m(pview(face_vs@[k])),
            decreases face.len() - j,
        {
            let v = vs[face[j]].dup();
            face_vs.push(v);
            j += 1;
        }
        let pos = is_positive_face(&face_vs);
        proof {
            assert(pview(face_vs@[0]) == pview(vs@[face@[0] as int]));
            assert(pview(face_vs@[1]) == pview(vs@[face@[1] as int]));
            assert(pview(face_vs@[2]) == pview(vs@[face@[2] as int]));
        }
        if pos {
            let ghost old_out = out@;
            out.push(i);
            proof {
                assert(out@[old_out.len() as int] == i);
                assert forall|v: usize| old_out.contains(v) implies out@.contains(v) by {
                    let idx = choose|idx: int| 0 <= idx < old_out.len() && old_out[idx] == v;
                    assert(out@[idx] == v);
                }
            }
        }
        i += 1;
    }
    out
}

// ---------------------------------------------------------------------------
// The environment.
// ---------------------------------------------------------------------------

/// The read-only reference object of the search.
pub struct Env {
    /// The vertices, as exact rational points.
    pub vertices: Vec<Point3d<Rational>>,
    /// The faces: each an oriented cyclic list of indices into `vertices`.
    pub faces: Vec<Vec<usize>>,
    /// The rotation that picks out the patch under consideration.
    pub patch_rotation: Quat<Rational>,
    /// The vertices rotated by `patch_rotation`, computed once.
    pub rotated_vertices: Vec<Point3d<Rational>>,
    /// The indices of the faces that are positively oriented under
    /// `patch_rotation`: the faces that define the patch.
    pub positive_faces: Vec<usize>,
    /// The cyclic list of vertex indices tracing the convex-hull boundary of
    /// the projection.
    pub circuit: Vec<usize>,
}

impl Env {
    /// The environment's structural invariant: everything in range, the
    /// rotated vertices derived from the vertices and the reference rotation,
    /// and the positive faces derived from the rotated vertices.
    pub open spec fn wf(self) -> bool {
        &&& verts_inv(self.vertices@)
        &&& faces_wf(self.vertices@.len() as int, self.faces@)
        &&& idxs_wf(self.vertices@.len() as int, self.circuit@)
        &&& q_inv_m(qview(self.patch_rotation))
        &&& i_sign_definite(i_q_sqnorm(qview(self.patch_rotation)))
        &&& self.rotated_vertices@.len() == self.vertices@.len()
        &&& forall|k: int|
            0 <= k < self.vertices@.len() ==> p_inv_m(pview(#[trigger] self.rotated_vertices@[k]))
                && p_eq(
                pview(self.rotated_vertices@[k]),
                i_rotate(qview(self.patch_rotation), pview(self.vertices@[k])),
            )
        &&& forall|j: int|
            0 <= j < self.positive_faces@.len() ==> (#[trigger] self.positive_faces@[j])
                < self.faces@.len() && face_maybe_pos(
                self.rotated_vertices@,
                self.faces@[self.positive_faces@[j] as int]@,
            )
        &&& forall|i: int|
            0 <= i < self.faces@.len() && face_maybe_pos(
                self.rotated_vertices@,
                (#[trigger] self.faces@[i])@,
            ) ==> self.positive_faces@.contains(i as usize)
    }

    /// Builds the environment, validating the polyhedron data.
    ///
    /// Fails with `MalformedPolyhedron` when a face has fewer than three
    /// vertices, a face or circuit index is out of range, or the first three
    /// vertices of a rotated face are collinear; fails with `DivideByZero`
    /// when the reference rotation has squared norm zero.
    pub fn new(
        vertices: Vec<Point3d<Rational>>,
        faces: Vec<Vec<usize>>,
        rotation: Quat<Rational>,
        circuit: Vec<usize>,
    ) -> (r: Result<Env, Error>)
        requires
            verts_inv(vertices@),
            q_inv_m(qview(rotation)),
        ensures
            r is Ok <==> faces_wf(vertices@.len() as int, faces@) && idxs_wf(
                vertices@.len() as int,
                circuit@,
            ) && i_sign_definite(i_q_sqnorm(qview(rotation))) && (forall|i: int|
                0 <= i < faces@.len() ==> !rotated_face_degenerate(
                    vertices@,
                    qview(rotation),
                    (#[trigger] faces@[i])@,
                )),
            r matches Ok(env) ==> env.wf() && env.vertices@ == vertices@ && env.faces@ == faces@
                && env.circuit@ == circuit@ && qview(env.patch_rotation) == qview(rotation),
            r matches Err(e) ==> e == (if faces_wf(vertices@.len() as int, faces@) && idxs_wf(
                vertices@.len() as int,
                circuit@,
            ) && !i_sign_definite(i_q_sqnorm(qview(rotation))) {
                Error::DivideByZero
            } else {
                Error::MalformedPolyhedron
            }),
    {
        if !check_faces(vertices.len(), &faces) {
            return Err(Error::MalformedPolyhedron);
        }
        if !check_idxs(vertices.len(), &circuit) {
            return Err(Error::MalformedPolyhedron);
        }
        let sn = rotation.sqnorm();
        proof {
            lemma_i_q_sqnorm_inv(qview(rotation));
            lemma_rat_sign_congr(sn@, i_q_sqnorm(qview(rotation)).lo);
            lemma_rat_sign_congr(sn@, i_q_sqnorm(qview(rotation)).hi);
        }
        if sn.is_zero() {
            return Err(Error::DivideByZero);
        }
        let rotated = rotate_vertices(&rotation, &vertices);
        let mut i: usize = 0;
        while i < faces.len()
            invariant
                0 <= i <= faces.len(),
                verts_inv(vertices@),
                q_inv_m(qview(rotation)),
                i_sign_definite(i_q_sqnorm(qview(rotation))),
                faces_wf(vertices@.len() as int, faces@),
                rotated@.len() == vertices@.len(),
                forall|k: int|
                    0 <= k < vertices@.len() ==> p_inv_m(pview(#[trigger] rotated@[k])) && p_eq(
                        pview(rotated@[k]),
                        i_rotate(qview(rotation), pview(vertices@[k])),
                    ),
                forall|k: int|
                    0 <= k < i ==> !rotated_face_degenerate(
                        vertices@,
                        qview(rotation),
                        (#[trigger] faces@[k])@,
                    ),
            decreases faces.len() - i,
        {
            let deg = face_degenerate_check(&rotated, &faces[i]);
            proof {
                lemma_stored_degenerate_agrees(vertices@, qview(rotation), rotated@, faces@[i as int]@);
            }
            if deg {
                return Err(Error::MalformedPolyhedron);
            }
            i += 1;
        }
        let positive_faces = get_positive_faces(&rotated, &faces);
        Ok(
            Env {
                vertices,
                faces,
                patch_rotation: rotation,
                rotated_vertices: rotated,
                positive_faces,
                circuit,
            },
        )
    }
}

impl Env {
    /// The face vertices of the rotated polyhedron, projected to the plane
    /// by dropping the z coordinate: exact rational pairs, one per face
    /// vertex, for the rendering layer to approximate as it pleases.
    pub fn proj_faces_exact(&self) -> (r: Vec<Vec<(Rational, Rational)>>)
        requires
            self.wf(),
        ensures
            r@.len() == self.faces@.len(),
            forall|i: int|
                0 <= i < r@.len() ==> (#[trigger] r@[i])@.len() == self.faces@[i]@.len(),
            forall|i: int, j: int|
                0 <= i < r@.len() && 0 <= j < r@[i]@.len() ==> (#[trigger] r@[i]@[j]).0@
                    == self.rotated_vertices@[self.faces@[i]@[j] as int].x@ && r@[i]@[j].1@
                    == self.rotated_vertices@[self.faces@[i]@[j] as int].y@,
    {
        let mut out: Vec<Vec<(Rational, Rational)>> = Vec::new();
        let mut i: usize = 0;
        while i < self.faces.len()
            invariant
                self.wf(),
                0 <= i <= self.faces@.len(),
                out@.len() == i,
                forall|k: int|
                    0 <= k < i ==> (#[trigger] out@[k])@.len() == self.faces@[k]@.len(),
                forall|k: int, j: int|
                    0 <= k < i && 0 <= j < out@[k]@.len() ==> (#[trigger] out@[k]@[j]).0@
                        == self.rotated_vertices@[self.faces@[k]@[j] as int].x@ && out@[k]@[j].1@
                        == self.rotated_vertices@[self.faces@[k]@[j] as int].y@,
            decreases self.faces@.len() - i,
        {
            let face = &self.faces[i];
            let mut row: Vec<(Rational, Rational)> = Vec::new();
            let mut j: usize = 0;
            while j < face.len()
                invariant
                    self.wf(),
                    0 <= i < self.faces@.len(),
                    face@ == self.faces@[i as int]@,
                    0 <= j <= face@.len(),
                    row@.len() == j,
                    forall|jj: int|
                        0 <= jj < j ==> (#[trigger] row@[jj]).0@ == self.rotated_vertices@[face@[jj] as int].x@
                            && row@[jj].1@ == self.rotated_vertices@[face@[jj] as int].y@,
                decreases face@.len() - j,
            {
                let v = &self.rotated_vertices[face[j]];
                row.push((v.x.dup(), v.y.dup()));
                j += 1;
            }
            out.push(row);
            i += 1;
        }
        out
    }
}

/// The first three vertices of the face, rotated by `q`, are collinear: the
/// orientation witness built from the rotated vertex models is the zero
/// vector.
pub open spec fn rotated_face_degenerate(
    vs: Seq<Point3d<Rational>>,
    q: IQuat,
    face: Seq<usize>,
) -> bool {
    let c = i_face_cross(
        i_rotate(q, pview(vs[face[0] as int])),
        i_rotate(q, pview(vs[face[1] as int])),
        i_rotate(q, pview(vs[face[2] as int])),
    );
    rat_signum(c.x.lo) == 0 && rat_signum(c.y.lo) == 0 && rat_signum(c.z.lo) == 0
}

/// The degeneracy read off the stored rotated vertices agrees with the
/// degeneracy of the model-rotated vertices.
proof fn lemma_stored_degenerate_agrees(
    vs: Seq<Point3d<Rational>>,
    q: IQuat,
    rotated: Seq<Point3d<Rational>>,
    face: Seq<usize>,
)
    requires
        verts_inv(vs),
        face_wf(vs.len() as int, face),
        q_inv_m(q),
        i_sign_definite(i_q_sqnorm(q)),
        rotated.len() == vs.len(),
        forall|k: int|
            0 <= k < vs.len() ==> p_inv_m(pview(#[trigger] rotated[k])) && p_eq(
                pview(rotated[k]),
                i_rotate(q, pview(vs[k])),
            ),
    ensures
        face_degenerate(rotated, face) == rotated_face_degenerate(vs, q, face),
{
    let v0 = pview(rotated[face[0] as int]);
    let v1 = pview(rotated[face[1] as int]);
    let v2 = pview(rotated[face[2] as int]);
    let w0 = i_rotate(q, pview(vs[face[0] as int]));
    let w1 = i_rotate(q, pview(vs[face[1] as int]));
    let w2 = i_rotate(q, pview(vs[face[2] as int]));
    lemma_i_rotate_inv(q, pview(vs[face[0] as int]));
    lemma_i_rotate_inv(q, pview(vs[face[1] as int]));
    lemma_i_rotate_inv(q, pview(vs[face[2] as int]));
    lemma_face_cross_congr(v0, v1, v2, w0, w1, w2);
    lemma_rat_sign_congr(i_face_cross(v0, v1, v2).x.lo, i_face_cross(w0, w1, w2).x.lo);
    lemma_rat_sign_congr(i_face_cross(v0, v1, v2).y.lo, i_face_cross(w0, w1, w2).y.lo);
    lemma_rat_sign_congr(i_face_cross(v0, v1, v2).z.lo, i_face_cross(w0, w1, w2).z.lo);
}

} // verus!

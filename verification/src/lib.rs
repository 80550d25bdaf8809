//! Certifies whether the set of front-facing faces of a polyhedron — its
//! patch — stays constant across a whole region of rotations, using interval
//! arithmetic over exact rationals so that every certificate is sound.
//!
//! The stack, leaves first: a pair model of exact rationals (`rat`), the
//! executable rational type over external arbitrary-precision arithmetic
//! (`rational`), intervals with certified operations and sign classification
//! (`interval`), points and quaternion rotations generic over exact and
//! interval scalars (`geom`), the validated polyhedron environment (`env`),
//! the branch-and-bound search over rotation boxes (`search`), and the
//! decimal wire form of rational coordinates (`wire`).

pub mod env;
pub mod geom;
pub mod interval;
pub mod rat;
pub mod rational;
pub mod search;
pub mod wire;

use vstd::prelude::*;

verus! {

/// The error conditions the library reports.
#[derive(Clone, Copy, Debug, PartialEq, Eq, Structural)]
pub enum Error {
    /// A face references an out-of-range vertex index, has fewer than three
    /// vertices, or its first three vertices are collinear.
    MalformedPolyhedron,
    /// An interval reciprocal was requested on a range whose endpoints have
    /// differing or zero sign.
    DivideByZero,
}

} // verus!

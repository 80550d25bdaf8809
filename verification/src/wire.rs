//! The interchange form of a rational coordinate: signed base-10 numerator
//! and denominator strings. Decoding then re-encoding reproduces the same
//! rational value exactly; the string form may differ, the value never does.

use vstd::prelude::*;

use crate::Error;
use crate::rat::{Rat, rat_inv, rat_eq};
use crate::rational::{Rational, is_dec_int, dec_value};
use crate::rat::lemma_rat_eq_trans;

verus! {

/// A rational number on the wire: numerator and denominator as decimal
/// integer strings.
pub struct WireRational {
    pub numerator: String,
    pub denominator: String,
}

/// Reads the exact rational a wire pair denotes.
///
/// Fails with `MalformedPolyhedron` when either string is not a decimal
/// integer, and with `DivideByZero` when the denominator denotes zero.
pub fn wire_to_rational(w: &WireRational) -> (r: Result<Rational, Error>)
    ensures
        r is Ok <==> is_dec_int(w.numerator@) && is_dec_int(w.denominator@) && dec_value(
            w.denominator@,
        ) != 0,
        r matches Ok(v) ==> rat_inv(v@) && rat_eq(
            v@,
            Rat { n: dec_value(w.numerator@), d: dec_value(w.denominator@) },
        ),
        r matches Err(e) ==> (e == (if is_dec_int(w.numerator@) && is_dec_int(w.denominator@) {
            Error::DivideByZero
        } else {
            Error::MalformedPolyhedron
        })),
{
    Rational::from_decimal_strs(w.numerator.as_str(), w.denominator.as_str())
}

/// Writes a rational back to the wire, in canonical form: the value
/// round-trips exactly.
pub fn rational_to_wire(v: &Rational) -> (w: WireRational)
    requires
        rat_inv(v@),
    ensures
        is_dec_int(w.numerator@),
        is_dec_int(w.denominator@),
        dec_value(w.numerator@) == v@.n,
        dec_value(w.denominator@) == v@.d,
{
    WireRational { numerator: v.numer_string(), denominator: v.denom_string() }
}

/// The round trip: a value written to the wire and read back denotes the
/// same rational, whatever strings carried it.
pub proof fn lemma_wire_round_trip(v: Rat, n_s: Seq<char>, d_s: Seq<char>, back: Rat)
    requires
        rat_inv(v),
        rat_inv(back),
        dec_value(n_s) == v.n,
        dec_value(d_s) == v.d,
        rat_eq(back, Rat { n: dec_value(n_s), d: dec_value(d_s) }),
    ensures
        rat_eq(back, v),
        rat_eq(v, back),
{
    lemma_rat_eq_trans(v, back, v);
}

} // verus!

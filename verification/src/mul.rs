//! Single-point scalar multiplication.
//!
//! The multiplier hands the point and the scalar to the multi-scalar
//! engine as a batch of one, so a fixed 255-bit scan is performed
//! regardless of the scalar's magnitude. Multiplying by zero yields the
//! identity and multiplying by one yields the point back; the prime-order
//! subgroup is closed under multiplication.
//!
//! The arithmetic provider's deserializer reserves a zero x-coordinate
//! for its infinity encoding, so the two curve points with x = 0 — the
//! order-3 points (0, +-2), which decode but never pass `in_subgroup` —
//! cannot cross that boundary: they are excluded here by precondition
//! rather than by a runtime failure.
use vstd::prelude::*;

use crate::backend::{in_g1_of, msm96, msm_of, sers96, vals32};
use crate::point::{
    backend_ok, lemma_ser96_inj, lemma_ser96_wf, parse96, ser96, ser96_of, AffinePoint,
};
use crate::scalar::Scalar;

verus! {

/// Compute `scalar * point`.
pub fn scalar_mul(point: &AffinePoint, scalar: &Scalar) -> (r: AffinePoint)
    requires
        point.wf(),
        backend_ok(*point),
    ensures
        r.wf(),
        ser96_of(r) == msm_of(seq![ser96_of(*point)], seq![scalar.value()]),
        scalar.value() == 0 ==> r.infinity,
        scalar.value() == 1 ==> r == *point,
        point.infinity ==> r.infinity,
        (point.infinity || in_g1_of(ser96_of(*point))) ==> (r.infinity || in_g1_of(ser96_of(r))),
{
    proof {
        lemma_ser96_wf(*point);
    }
    let p96 = ser96(point);
    let mut points: Vec<[u8; 96]> = Vec::new();
    points.push(p96);
    let mut scalars: Vec<[u8; 32]> = Vec::new();
    scalars.push(scalar.bytes);
    proof {
        assert(sers96(points@) =~= seq![ser96_of(*point)]);
        assert(vals32(scalars@) =~= seq![scalar.value()]);
    }
    let s = msm96(&points, &scalars);
    let r = parse96(&s);
    proof {
        if scalar.value() == 0 {
            assert(forall|i: int|
                0 <= i < scalars@.len() ==> crate::scalar::scalar_val((#[trigger] scalars@[i])@)
                    == 0);
            assert(s@ == crate::point::inf96());
            assert(s@[0] == 0x40);
            assert(0x40u8 & 0x40 != 0) by (bit_vector);
        }
        if scalar.value() == 1 {
            assert(s@ == ser96_of(*point));
            lemma_ser96_inj(r, *point);
        }
        if point.infinity {
            assert(forall|i: int|
                0 <= i < points@.len() ==> (#[trigger] points@[i])@[0] & 0x40 != 0);
            assert(s@ == crate::point::inf96());
            assert(s@[0] == 0x40);
            assert(0x40u8 & 0x40 != 0) by (bit_vector);
        }
        if point.infinity || in_g1_of(ser96_of(*point)) {
            assert forall|i: int| 0 <= i < points@.len() implies ((#[trigger] points@[i])@[0]
                & 0x40 != 0 || in_g1_of(points@[i]@)) by {
                assert(points@[i]@ == ser96_of(*point));
                if point.infinity {
                    assert(ser96_of(*point)[0] == 0x40);
                    assert(0x40u8 & 0x40 != 0) by (bit_vector);
                }
            }
            if s@ == crate::point::inf96() {
                assert(s@[0] == 0x40);
                assert(0x40u8 & 0x40 != 0) by (bit_vector);
            }
        }
    }
    r
}

} // verus!

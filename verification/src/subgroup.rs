//! The subgroup validator.
//!
//! Decoding only guarantees that a point lies on the curve; the curve has
//! a large cofactor, so a decoded point of untrusted origin may lie
//! outside the prime-order subgroup and must be rejected before it is
//! used in scalar multiplication. `decode` then `in_subgroup` is the
//! mandatory path for untrusted input.
use vstd::prelude::*;

use crate::backend::{in_g1_96, in_g1_of};
use crate::fp::{all_zero_from_48, be_val, lemma_be_val_pos, lemma_be_val_zero};
use crate::point::{lemma_ser96_wf, ser96, ser96_of, AffinePoint};

verus! {

/// Whether the point lies in the prime-order subgroup.
///
/// The identity is a member. A finite point with a zero x-coordinate is
/// one of (0, +-2), which lie on the curve but never in the prime-order
/// subgroup, so the query answers false for them directly; every other
/// finite point is referred to the backend's subgroup test.
pub fn in_subgroup(point: &AffinePoint) -> (r: bool)
    requires
        point.wf(),
    ensures
        point.infinity ==> r == true,
        (!point.infinity && be_val(point.x@) == 0) ==> r == false,
        (!point.infinity && be_val(point.x@) != 0) ==> r == in_g1_of(ser96_of(*point)),
{
    if point.is_identity() {
        return true;
    }
    if all_zero_from_48(&point.x, 0) {
        proof {
            lemma_be_val_zero(point.x@);
        }
        return false;
    }
    proof {
        let k = choose|j: int| 0 <= j < 48 && point.x@[j] != 0u8;
        lemma_be_val_pos(point.x@, k);
        lemma_ser96_wf(*point);
    }
    let s = ser96(point);
    in_g1_96(&s)
}

} // verus!

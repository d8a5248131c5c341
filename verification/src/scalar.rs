//! Scalars for point multiplication.
//!
//! A scalar is a 32-byte little-endian buffer. The multiplier and the MSM
//! engine scan a fixed 255 bits of it regardless of its magnitude, so a
//! scalar's effective value is its integer value reduced modulo 2^255.
//! Values at or above the group order are accepted (the scan is fixed
//! width); reduction modulo the order is the caller's responsibility.
use vstd::prelude::*;

use crate::fp::pow256;

verus! {

/// The unsigned integer value of a little-endian byte string.
pub open spec fn le_val(s: Seq<u8>) -> nat
    decreases s.len(),
{
    if s.len() == 0 {
        0
    } else {
        (s[0] as nat) + 256 * le_val(s.subrange(1, s.len() as int))
    }
}

/// 2^255, the number of bit positions a fixed-width scalar scan covers.
pub open spec fn pow2_255() -> nat {
    128 * pow256(31)
}

/// The effective value of a 32-byte scalar under a 255-bit scan.
pub open spec fn scalar_val(s: Seq<u8>) -> nat {
    le_val(s) % pow2_255()
}

/// A scalar multiplier: a 32-byte little-endian integer, of which the low
/// 255 bits are significant.
#[derive(Clone, Copy, PartialEq, Eq, Debug)]
pub struct Scalar {
    /// Little-endian bytes of the scalar.
    pub bytes: [u8; 32],
}

impl Scalar {
    /// The effective value this scalar contributes to a multiplication.
    pub open spec fn value(self) -> nat {
        scalar_val(self.bytes@)
    }

    /// Build a scalar from its 32-byte little-endian representation.
    pub fn from_le_bytes(bytes: [u8; 32]) -> (r: Scalar)
        ensures
            r.bytes@ == bytes@,
    {
        Scalar { bytes }
    }

    /// The zero scalar.
    pub fn zero() -> (r: Scalar)
        ensures
            r.value() == 0,
    {
        let r = Scalar { bytes: [0u8; 32] };
        proof {
            lemma_le_val_zero(r.bytes@);
            lemma_pow2_255_large();
        }
        r
    }

    /// The scalar one.
    pub fn one() -> (r: Scalar)
        ensures
            r.value() == 1,
    {
        let mut bytes = [0u8; 32];
        bytes[0] = 1;
        let r = Scalar { bytes };
        proof {
            lemma_le_val_zero(r.bytes@.subrange(1, 32));
            assert(le_val(r.bytes@) == 1);
            lemma_pow2_255_large();
            assert(1nat % pow2_255() == 1) by (nonlinear_arith)
                requires
                    pow2_255() > 256,
            ;
        }
        r
    }
}

/// An all-zero byte string has value zero.
proof fn lemma_le_val_zero(s: Seq<u8>)
    requires
        forall|j: int| 0 <= j < s.len() ==> s[j] == 0u8,
    ensures
        le_val(s) == 0,
    decreases s.len(),
{
    if s.len() > 0 {
        lemma_le_val_zero(s.subrange(1, s.len() as int));
    }
}

proof fn lemma_pow2_255_large()
    ensures
        pow2_255() > 256,
{
    crate::fp::lemma_pow256_pos(30nat);
    assert(pow256(31) == 256 * pow256(30));
}

} // verus!

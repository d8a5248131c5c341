//! Affine points and their canonical byte serializations.
//!
//! An `AffinePoint` is either the distinguished point-at-infinity or a pair
//! of base-field elements held as canonical 48-byte big-endian buffers. The
//! 96-byte uncompressed serialization (x || y, with bit 6 of the first byte
//! marking infinity) is the interchange form handed to the arithmetic
//! backends; the 48-byte compressed form lives in the codec module.
use vstd::prelude::*;

use crate::fp::{be_val, on_curve, p, p_bytes, sign_be, zero_bytes};

verus! {

/// A point of the curve in affine coordinates, or the point-at-infinity.
///
/// Invariant (`wf`): the infinity point carries all-zero coordinate
/// buffers; a finite point carries canonical (reduced) coordinates that
/// satisfy the curve equation. Membership in the prime-order subgroup is
/// deliberately not part of this invariant; it is a separate query.
#[derive(Clone, Copy, PartialEq, Eq, Debug)]
pub struct AffinePoint {
    /// Whether this is the point-at-infinity.
    pub infinity: bool,
    /// Canonical big-endian x-coordinate; all zero for infinity.
    pub x: [u8; 48],
    /// Canonical big-endian y-coordinate; all zero for infinity.
    pub y: [u8; 48],
}

impl AffinePoint {
    /// Well-formedness: the invariant every point produced by this crate
    /// satisfies and every point-consuming operation expects.
    pub open spec fn wf(self) -> bool {
        if self.infinity {
            self.x@ == zero_bytes(48) && self.y@ == zero_bytes(48)
        } else {
            &&& be_val(self.x@) < p()
            &&& be_val(self.y@) < p()
            &&& on_curve(be_val(self.x@), be_val(self.y@))
        }
    }

    /// The group's identity element, the point-at-infinity.
    pub fn identity() -> (r: AffinePoint)
        ensures
            r.wf(),
            r.infinity,
    {
        let r = AffinePoint { infinity: true, x: [0u8; 48], y: [0u8; 48] };
        proof {
            assert(r.x@ =~= zero_bytes(48));
            assert(r.y@ =~= zero_bytes(48));
        }
        r
    }

    /// Whether this point is the identity element.
    pub fn is_identity(&self) -> (r: bool)
        ensures
            r == self.infinity,
    {
        self.infinity
    }
}

/// The 96-byte serialization of the identity: the infinity bit followed by
/// zeros.
pub open spec fn inf96() -> Seq<u8> {
    seq![0x40u8] + zero_bytes(95)
}

/// The 96-byte serialization of a point: 0x40 followed by zeros for the
/// identity, x || y in canonical big-endian form otherwise.
pub open spec fn ser96_of(q: AffinePoint) -> Seq<u8> {
    if q.infinity {
        inf96()
    } else {
        q.x@ + q.y@
    }
}

/// Whether the group-arithmetic backend accepts this point as an input:
/// its deserializer reserves a zero x-coordinate for the infinity
/// encoding and refuses the order-3 curve points (0, +-2), which never
/// lie in the prime-order subgroup. The codec accepts those two points;
/// the arithmetic entry points exclude them by precondition at this
/// collaborator boundary.
pub open spec fn backend_ok(q: AffinePoint) -> bool {
    q.infinity || be_val(q.x@) != 0
}

/// Which 96-byte strings are serializations of well-formed points.
pub open spec fn wf_ser96(s: Seq<u8>) -> bool {
    &&& s.len() == 96
    &&& if s[0] & 0x40 != 0 {
        s == inf96()
    } else {
        &&& be_val(s.subrange(0, 48)) < p()
        &&& be_val(s.subrange(48, 96)) < p()
        &&& on_curve(be_val(s.subrange(0, 48)), be_val(s.subrange(48, 96)))
    }
}

/// A canonical x-coordinate is bounded by the modulus, so its leading byte
/// stays below the modulus's leading byte and leaves the three flag bits of
/// the serialized form clear.
pub proof fn lemma_canonical_first_byte(x: Seq<u8>)
    requires
        x.len() == 48,
        be_val(x) < p(),
    ensures
        x[0] <= 0x1a,
        x[0] & 0x80 == 0,
        x[0] & 0x40 == 0,
        x[0] & 0x20 == 0,
        x[0] & 0x1f == x[0],
        x[0] & 0xe0 == 0,
{
    if x[0] > 0x1a {
        assert(p_bytes()[0] == 0x1a);
        crate::fp::lemma_be_val_lt(p_bytes(), x, 0);
        assert(false);
    }
    let b = x[0];
    assert(b <= 0x1a ==> b & 0x80 == 0 && b & 0x40 == 0 && b & 0x20 == 0 && b & 0x1f == b && b
        & 0xe0 == 0) by (bit_vector);
}

/// Serializing a well-formed point yields a well-formed serialization whose
/// infinity bit reflects the point's infinity flag.
pub proof fn lemma_ser96_wf(q: AffinePoint)
    requires
        q.wf(),
    ensures
        wf_ser96(ser96_of(q)),
        (ser96_of(q)[0] & 0x40 != 0) == q.infinity,
        !q.infinity ==> ser96_of(q).subrange(0, 48) == q.x@ && ser96_of(q).subrange(48, 96)
            == q.y@,
{
    let s = ser96_of(q);
    if q.infinity {
        assert(s[0] == 0x40);
        assert(0x40u8 & 0x40 != 0) by (bit_vector);
    } else {
        lemma_canonical_first_byte(q.x@);
        assert(s[0] == q.x@[0]);
        assert(s.subrange(0, 48) =~= q.x@);
        assert(s.subrange(48, 96) =~= q.y@);
    }
}

/// Two well-formed points with equal serializations are equal.
pub proof fn lemma_ser96_inj(a: AffinePoint, b: AffinePoint)
    requires
        a.wf(),
        b.wf(),
        ser96_of(a) == ser96_of(b),
    ensures
        a == b,
{
    lemma_ser96_wf(a);
    lemma_ser96_wf(b);
    if a.infinity != b.infinity {
        assert((ser96_of(a)[0] & 0x40 != 0) != (ser96_of(b)[0] & 0x40 != 0));
        assert(false);
    }
    if a.infinity {
        assert(a.x@ =~= b.x@);
        assert(a.y@ =~= b.y@);
        vstd::array::axiom_array_ext_equal(a.x, b.x);
        vstd::array::axiom_array_ext_equal(a.y, b.y);
    } else {
        assert(ser96_of(a).subrange(0, 48) == a.x@ && ser96_of(b).subrange(0, 48) == b.x@);
        assert(ser96_of(a).subrange(48, 96) == a.y@ && ser96_of(b).subrange(48, 96) == b.y@);
        vstd::array::axiom_array_ext_equal(a.x, b.x);
        vstd::array::axiom_array_ext_equal(a.y, b.y);
    }
}

/// Serialize a well-formed point into its 96-byte form.
pub fn ser96(p: &AffinePoint) -> (r: [u8; 96])
    requires
        p.wf(),
    ensures
        r@ == ser96_of(*p),
{
    let mut r = [0u8; 96];
    if p.infinity {
        r[0] = 0x40;
        proof {
            assert(r@ =~= seq![0x40u8] + zero_bytes(95));
        }
        r
    } else {
        let mut i: usize = 0;
        while i < 48
            invariant
                0 <= i <= 48,
                r@.len() == 96,
                forall|j: int| 0 <= j < i ==> r@[j] == p.x@[j],
                forall|j: int| 0 <= j < i ==> r@[48 + j] == p.y@[j],
            decreases 48 - i,
        {
            r[i] = p.x[i];
            r[i + 48] = p.y[i];
            i += 1;
        }
        proof {
            assert(r@ =~= p.x@ + p.y@);
        }
        r
    }
}

/// Parse a well-formed 96-byte serialization back into the point it
/// serializes.
pub fn parse96(s: &[u8; 96]) -> (r: AffinePoint)
    requires
        wf_ser96(s@),
    ensures
        r.wf(),
        ser96_of(r) == s@,
        r.infinity == (s@[0] & 0x40 != 0),
{
    if s[0] & 0x40 != 0 {
        let r = AffinePoint::identity();
        proof {
            assert(ser96_of(r) =~= s@);
        }
        r
    } else {
        let mut x = [0u8; 48];
        let mut y = [0u8; 48];
        let mut i: usize = 0;
        while i < 48
            invariant
                0 <= i <= 48,
                forall|j: int| 0 <= j < i ==> x@[j] == s@[j],
                forall|j: int| 0 <= j < i ==> y@[j] == s@[48 + j],
            decreases 48 - i,
        {
            x[i] = s[i];
            y[i] = s[i + 48];
            i += 1;
        }
        proof {
            assert(x@ =~= s@.subrange(0, 48));
            assert(y@ =~= s@.subrange(48, 96));
        }
        let r = AffinePoint { infinity: false, x, y };
        proof {
            assert(ser96_of(r) =~= s@);
        }
        r
    }
}

} // verus!

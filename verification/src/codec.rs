//! The point codec: the fixed 48-byte compressed wire form.
//!
//! The first byte's top three bits are flags: bit 7 marks the compressed
//! form (always set), bit 6 marks the point-at-infinity, bit 5 records the
//! sign of the omitted y-coordinate. The remaining 381 bits hold the
//! x-coordinate big-endian. Every point has exactly one encoding;
//! decoding rejects any buffer whose flags or payload are inconsistent.
use vstd::prelude::*;

use crate::fp::{
    all_zero_from_48, be48_lt, be_val, half_p_bytes_exec, has_y, p, p_bytes_exec, sign_be,
    zero_bytes,
};
use crate::point::{ser96_of, AffinePoint};

verus! {

/// Why a 48-byte buffer failed to decode.
#[derive(Clone, Copy, Debug, PartialEq, Eq, Structural)]
pub enum DecodeError {
    /// Bit 7 of the first byte was clear; only the compressed form exists.
    NotCompressed,
    /// The infinity flag was set but the sign flag or payload was nonzero.
    InvalidInfinity,
    /// The x-payload was at or above the field modulus.
    NonCanonicalX,
    /// No y-coordinate satisfies the curve equation for the x-payload.
    NotOnCurve,
}

/// The x-payload of a compressed buffer: the buffer with the three flag
/// bits of the first byte masked away.
pub open spec fn payload48(b: Seq<u8>) -> Seq<u8> {
    b.update(0, b[0] & 0x1f)
}

/// The reserved compressed encoding of the identity: compression and
/// infinity bits set, everything else zero.
pub open spec fn inf48() -> Seq<u8> {
    seq![0xc0u8] + zero_bytes(47)
}

/// The canonical compressed encoding of a well-formed point.
pub open spec fn comp48_of(q: AffinePoint) -> Seq<u8> {
    if q.infinity {
        inf48()
    } else {
        q.x@.update(0, (q.x@[0] | 0x80 | (if sign_be(q.y@) {
            0x20u8
        } else {
            0u8
        })))
    }
}

/// Encode a point into its unique 48-byte compressed form. Deterministic
/// and total: the identity maps to the reserved infinity pattern.
pub fn encode(point: &AffinePoint) -> (r: [u8; 48])
    requires
        point.wf(),
    ensures
        r@ == comp48_of(*point),
{
    if point.infinity {
        let mut r = [0u8; 48];
        r[0] = 0xc0;
        proof {
            assert(r@ =~= inf48());
        }
        r
    } else {
        let half = half_p_bytes_exec();
        let sgn = be48_lt(&half, &point.y);
        let mut r = point.x;
        let x0 = r[0];
        proof {
            assert(sgn == sign_be(point.y@));
            assert(x0 == point.x@[0]);
        }
        if sgn {
            r[0] = x0 | 0xa0;
            proof {
                assert(x0 | 0xa0 == (x0 | 0x80 | 0x20u8)) by (bit_vector);
                assert(r@ == point.x@.update(0, (x0 | 0xa0)));
                assert(comp48_of(*point) == point.x@.update(0, (point.x@[0] | 0x80 | 0x20u8)));
                assert(r@ =~= comp48_of(*point));
            }
        } else {
            r[0] = x0 | 0x80;
            proof {
                assert((x0 | 0x80) == (x0 | 0x80 | 0u8)) by (bit_vector);
                assert(r@ == point.x@.update(0, (x0 | 0x80)));
                assert(comp48_of(*point) == point.x@.update(0, (point.x@[0] | 0x80 | 0u8)));
                assert(r@ =~= comp48_of(*point));
            }
        }
        r
    }
}

/// Bit-level facts about reassembling a flag byte from a canonical
/// leading x-byte.
proof fn lemma_flag_bits(x0: u8, sgn: bool)
    requires
        x0 < 0x20,
    ensures
        (x0 | 0x80 | (if sgn {
            0x20u8
        } else {
            0u8
        })) & 0x80 != 0,
        (x0 | 0x80 | (if sgn {
            0x20u8
        } else {
            0u8
        })) & 0x40 == 0,
        ((x0 | 0x80 | (if sgn {
            0x20u8
        } else {
            0u8
        })) & 0x20 != 0) == sgn,
        (x0 | 0x80 | (if sgn {
            0x20u8
        } else {
            0u8
        })) & 0x1f == x0,
{
    if sgn {
        assert(x0 < 0x20 ==> (x0 | 0x80 | 0x20u8) & 0x80 != 0 && (x0 | 0x80 | 0x20u8) & 0x40 == 0
            && (x0 | 0x80 | 0x20u8) & 0x20 != 0 && (x0 | 0x80 | 0x20u8) & 0x1f == x0)
            by (bit_vector);
    } else {
        assert(x0 < 0x20 ==> (x0 | 0x80 | 0u8) & 0x80 != 0 && (x0 | 0x80 | 0u8) & 0x40 == 0 && (x0
            | 0x80 | 0u8) & 0x20 == 0 && (x0 | 0x80 | 0u8) & 0x1f == x0) by (bit_vector);
    }
}

/// Decode a 48-byte buffer into the unique point it encodes.
///
/// Decoding validates well-formedness only: the result lies on the curve
/// and has canonical coordinates, but membership in the prime-order
/// subgroup is a separate query (`in_subgroup`) that untrusted input must
/// still pass. Decoding the encoding of any well-formed point yields that
/// point back.
pub fn decode(bytes: &[u8; 48]) -> (r: Result<AffinePoint, DecodeError>)
    ensures
        (bytes@[0] & 0x80 == 0) <==> r == Err::<AffinePoint, DecodeError>(
            DecodeError::NotCompressed,
        ),
        (bytes@[0] & 0x80 != 0 && bytes@[0] & 0x40 != 0 && bytes@ == inf48()) ==> (r matches Ok(q)
            && q.infinity),
        (bytes@[0] & 0x80 != 0 && bytes@[0] & 0x40 != 0 && bytes@ != inf48()) ==> r == Err::<
            AffinePoint,
            DecodeError,
        >(DecodeError::InvalidInfinity),
        (bytes@[0] & 0x80 != 0 && bytes@[0] & 0x40 == 0) ==> {
            let xv = be_val(payload48(bytes@));
            &&& (xv >= p() ==> r == Err::<AffinePoint, DecodeError>(DecodeError::NonCanonicalX))
            &&& (xv < p() && !has_y(xv) ==> r == Err::<AffinePoint, DecodeError>(
                DecodeError::NotOnCurve,
            ))
            &&& (xv < p() && has_y(xv) ==> (r matches Ok(q) && !q.infinity && q.x@ == payload48(
                bytes@,
            ) && sign_be(q.y@) == (bytes@[0] & 0x20 != 0)))
        },
        r matches Ok(q) ==> q.wf(),
        forall|t: AffinePoint|
            t.wf() && comp48_of(t) == bytes@ ==> r == Ok::<AffinePoint, DecodeError>(t),
{
    let b0 = bytes[0];
    if b0 & 0x80 == 0 {
        proof {
            lemma_no_encoding_matches_flags(bytes@);
        }
        return Err(DecodeError::NotCompressed);
    }
    if b0 & 0x40 != 0 {
        let zero_tail = all_zero_from_48(bytes, 1);
        if b0 == 0xc0 && zero_tail {
            proof {
                assert(bytes@ =~= inf48());
            }
            let q = AffinePoint::identity();
            proof {
                lemma_round_trip_infinity(bytes@, q);
            }
            Ok(q)
        } else {
            proof {
                if b0 != 0xc0 {
                    assert(inf48()[0] == 0xc0);
                    assert(bytes@ != inf48());
                } else {
                    let k = choose|j: int| 1 <= j < 48 && bytes@[j] != 0u8;
                    assert(inf48()[k] == 0u8);
                    assert(bytes@ != inf48());
                }
                lemma_no_encoding_matches_flags(bytes@);
            }
            Err(DecodeError::InvalidInfinity)
        }
    } else {
        let mut px = *bytes;
        px[0] = b0 & 0x1f;
        proof {
            assert(px@ =~= payload48(bytes@));
        }
        let pb = p_bytes_exec();
        if !be48_lt(&px, &pb) {
            proof {
                lemma_no_encoding_decodes_to_error(bytes@);
            }
            return Err(DecodeError::NonCanonicalX);
        }
        match crate::backend::decompress48(bytes) {
            Some(s) => {
                let q = crate::point::parse96(&s);
                proof {
                    crate::point::lemma_ser96_wf(q);
                    assert(q.x@ == s@.subrange(0, 48));
                    assert(q.y@ == s@.subrange(48, 96));
                    lemma_round_trip_finite(bytes@, s@, q);
                }
                Ok(q)
            },
            None => {
                proof {
                    lemma_no_encoding_decodes_to_error(bytes@);
                }
                Err(DecodeError::NotOnCurve)
            },
        }
    }
}

/// No canonical encoding of a well-formed point has bit 7 clear, or has
/// bit 6 set without being the reserved infinity pattern.
proof fn lemma_no_encoding_matches_flags(b: Seq<u8>)
    requires
        b.len() == 48,
        b[0] & 0x80 == 0 || (b[0] & 0x40 != 0 && b != inf48()),
    ensures
        forall|t: AffinePoint| t.wf() && comp48_of(t) == b ==> false,
{
    assert forall|t: AffinePoint| t.wf() && comp48_of(t) == b implies false by {
        if t.infinity {
            assert(comp48_of(t) == inf48());
            assert(b[0] == 0xc0);
            assert(0xc0u8 & 0x80 != 0 && 0xc0u8 & 0x40 != 0) by (bit_vector);
        } else {
            crate::point::lemma_canonical_first_byte(t.x@);
            lemma_flag_bits(t.x@[0], sign_be(t.y@));
            assert(b[0] == (t.x@[0] | 0x80 | (if sign_be(t.y@) {
                0x20u8
            } else {
                0u8
            })));
        }
    }
}

/// When an error is returned on a finite-flagged buffer, no encoding
/// matches it either (the error conditions and the encodings are
/// disjoint).
proof fn lemma_no_encoding_decodes_to_error(b: Seq<u8>)
    requires
        b.len() == 48,
        b[0] & 0x80 != 0,
        b[0] & 0x40 == 0,
        be_val(payload48(b)) >= p() || !has_y(be_val(payload48(b))),
    ensures
        forall|t: AffinePoint| t.wf() && comp48_of(t) == b ==> false,
{
    assert forall|t: AffinePoint| t.wf() && comp48_of(t) == b implies false by {
        lemma_payload_recovers(b, t);
    }
}

/// For a finite point whose encoding is `b`, masking the flag bits of `b`
/// recovers the point's x-bytes exactly, and bit 5 its y-sign; the
/// point's own y witnesses that a y exists for that x.
proof fn lemma_payload_recovers(b: Seq<u8>, t: AffinePoint)
    requires
        b.len() == 48,
        b[0] & 0x40 == 0,
        t.wf(),
        comp48_of(t) == b,
    ensures
        !t.infinity,
        payload48(b) == t.x@,
        (b[0] & 0x20 != 0) == sign_be(t.y@),
        be_val(payload48(b)) < p(),
        has_y(be_val(payload48(b))),
{
    if t.infinity {
        assert(b == inf48());
        assert(inf48()[0] == 0xc0);
        assert(0xc0u8 & 0x40 != 0) by (bit_vector);
    }
    crate::point::lemma_canonical_first_byte(t.x@);
    lemma_flag_bits(t.x@[0], sign_be(t.y@));
    assert(b[0] == (t.x@[0] | 0x80 | (if sign_be(t.y@) {
        0x20u8
    } else {
        0u8
    })));
    assert(payload48(b) =~= t.x@);
    assert(be_val(t.y@) < p() && crate::fp::on_curve(be_val(t.x@), be_val(t.y@)));
    assert(has_y(be_val(t.x@)));
}

/// The infinity pattern decodes exactly to the identity point, and no
/// finite encoding equals it.
proof fn lemma_round_trip_infinity(b: Seq<u8>, q: AffinePoint)
    requires
        b == inf48(),
        q.wf(),
        q.infinity,
    ensures
        forall|t: AffinePoint| t.wf() && comp48_of(t) == b ==> q == t,
{
    assert forall|t: AffinePoint| t.wf() && comp48_of(t) == b implies q == t by {
        if !t.infinity {
            crate::point::lemma_canonical_first_byte(t.x@);
            lemma_flag_bits(t.x@[0], sign_be(t.y@));
            assert(b[0] == 0xc0);
            assert(0xc0u8 & 0x40 != 0) by (bit_vector);
            assert(false);
        } else {
            assert(q.x@ =~= t.x@);
            assert(q.y@ =~= t.y@);
            vstd::array::axiom_array_ext_equal(q.x, t.x);
            vstd::array::axiom_array_ext_equal(q.y, t.y);
        }
    }
}

/// On the finite path, the backend's uniqueness guarantee pins the parsed
/// point: any well-formed point whose encoding is the input equals it.
proof fn lemma_round_trip_finite(b: Seq<u8>, s: Seq<u8>, q: AffinePoint)
    requires
        b.len() == 48,
        b[0] & 0x80 != 0,
        b[0] & 0x40 == 0,
        crate::point::wf_ser96(s),
        s[0] & 0x40 == 0,
        s.subrange(0, 48) == payload48(b),
        sign_be(s.subrange(48, 96)) == (b[0] & 0x20 != 0),
        forall|t: AffinePoint|
            t.wf() && !t.infinity && t.x@ == payload48(b) && sign_be(t.y@) == (b[0] & 0x20 != 0)
                ==> ser96_of(t) == s,
        q.wf(),
        ser96_of(q) == s,
        q.infinity == (s[0] & 0x40 != 0),
    ensures
        forall|t: AffinePoint| t.wf() && comp48_of(t) == b ==> q == t,
{
    assert forall|t: AffinePoint| t.wf() && comp48_of(t) == b implies q == t by {
        lemma_payload_recovers(b, t);
        assert(ser96_of(t) == s);
        crate::point::lemma_ser96_inj(q, t);
    }
}

} // verus!

//! Trusted boundary to the field-and-curve arithmetic providers.
//!
//! The group law itself (point addition, doubling, the Pippenger bucket
//! accumulation) is delegated to the blst library, and the square-root
//! recovery of a compressed point's y-coordinate to bls12_381, each
//! reached only through safe entry points. Every function in this module
//! is a trusted wrapper: its body performs the outside call and converts
//! between this crate's byte-level point form and the provider's types,
//! and its contract states what the provider's source shows. Points cross
//! this boundary in their canonical 96-byte serialization, scalars as
//! 32-byte little-endian buffers of which 255 bits are scanned.
use vstd::prelude::*;

use crate::codec::payload48;
use crate::fp::{be_val, has_y, p, sign_be};
use crate::point::{inf96, ser96_of, wf_ser96, AffinePoint};
use crate::scalar::scalar_val;

verus! {

/// The serialized sum of `scalars[i] * points[i]` over all pairs, as the
/// multi-scalar multiplication engine computes it. Each scalar enters as
/// its 255-bit value, so the result depends on a scalar buffer only
/// through its low 255 bits; the result is a canonical serialization, so
/// it depends on the inputs alone.
pub uninterp spec fn msm_of(points: Seq<Seq<u8>>, scalars: Seq<nat>) -> Seq<u8>;

/// The byte views of a sequence of serialized points.
pub open spec fn sers96(points: Seq<[u8; 96]>) -> Seq<Seq<u8>> {
    points.map_values(|a: [u8; 96]| a@)
}

/// The 255-bit values of a sequence of scalar buffers.
pub open spec fn vals32(scalars: Seq<[u8; 32]>) -> Seq<nat> {
    scalars.map_values(|a: [u8; 32]| scalar_val(a@))
}

/// The serialized sum of the two points `a` and `b`.
pub uninterp spec fn add_of(a: Seq<u8>, b: Seq<u8>) -> Seq<u8>;

/// Whether the serialized finite point lies in the prime-order subgroup.
pub uninterp spec fn in_g1_of(s: Seq<u8>) -> bool;

/// Relies on bls12_381's `G1Affine::from_compressed_unchecked`: for a
/// compressed buffer with the compression bit set and the infinity bit
/// clear whose masked payload is a canonical field element, it recovers
/// the y with y^2 = x^3 + 4 whose sign matches bit 5 (None exactly when
/// no square root exists; the two roots of a nonzero square have opposite
/// signs, and y = 0 occurs on no curve point since the curve group's
/// order is odd, so that point is unique), and on `to_uncompressed` for
/// its canonical x || y serialization. A zero payload is accepted: it
/// yields one of the curve points (0, +-2).
#[verifier::external_body]
pub(crate) fn decompress48(b: &[u8; 48]) -> (r: Option<[u8; 96]>)
    requires
        b@[0] & 0x80 != 0,
        b@[0] & 0x40 == 0,
        be_val(payload48(b@)) < p(),
    ensures
        r is Some <==> has_y(be_val(payload48(b@))),
        match r {
            Some(s) => {
                &&& wf_ser96(s@)
                &&& s@[0] & 0x40 == 0
                &&& s@.subrange(0, 48) == payload48(b@)
                &&& sign_be(s@.subrange(48, 96)) == (b@[0] & 0x20 != 0)
                &&& forall|t: AffinePoint|
                    t.wf() && !t.infinity && t.x@ == payload48(b@) && sign_be(t.y@) == (b@[0]
                        & 0x20 != 0) ==> ser96_of(t) == s@
            },
            None => true,
        },
{
    Option::<bls12_381::G1Affine>::from(bls12_381::G1Affine::from_compressed_unchecked(b)).map(
        |a: bls12_381::G1Affine| a.to_uncompressed(),
    )
}

/// Relies on blst's `min_pk::AggregatePublicKey::aggregate_with_randomness`,
/// which multiplies each of the given points by the low 255 bits of its
/// little-endian scalar and adds the products
/// (`blst_p1s_mult_pippenger`), on `PublicKey::deserialize`
/// (`POINTonE1_Deserialize_Z`, exact on canonical serializations), and on
/// `to_public_key`/`serialize`, which normalize the sum back to its
/// canonical affine serialization. The clauses below state the group law
/// this sum obeys: a scalar of zero contributes the identity (so an
/// all-zero scalar vector yields the identity's serialization, and a
/// zero-scalar pair can be dropped without changing the sum), the
/// identity point contributes the identity, a single pair with scalar one
/// yields that point's own serialization back, addition is commutative
/// (exchanging two pairs) and associative (the sum splits at any
/// boundary), and the prime-order subgroup is closed under the whole
/// computation.
#[verifier::external_body]
pub(crate) fn msm96(points: &Vec<[u8; 96]>, scalars: &Vec<[u8; 32]>) -> (r: [u8; 96])
    requires
        points.len() >= 1,
        scalars.len() == points.len(),
        forall|i: int| 0 <= i < points@.len() ==> wf_ser96(points@[i]@),
        forall|i: int|
            0 <= i < points@.len() ==> (points@[i]@[0] & 0x40 != 0 || be_val(
                points@[i]@.subrange(0, 48),
            ) != 0),
    ensures
        r@ == msm_of(sers96(points@), vals32(scalars@)),
        wf_ser96(r@),
        (forall|i: int| 0 <= i < scalars@.len() ==> scalar_val(scalars@[i]@) == 0) ==> r@
            == inf96(),
        (forall|i: int| 0 <= i < points@.len() ==> (#[trigger] points@[i])@[0] & 0x40 != 0) ==> r@
            == inf96(),
        (points@.len() == 1 && scalar_val(scalars@[0]@) == 1) ==> r@ == points@[0]@,
        forall|i: int|
            (0 <= i < scalars@.len() && scalar_val((#[trigger] scalars@[i])@) == 0) ==> r@
                == msm_of(sers96(points@).remove(i), vals32(scalars@).remove(i)),
        forall|i: int, j: int|
            #![trigger sers96(points@)[i], sers96(points@)[j]]
            (0 <= i < points@.len() && 0 <= j < points@.len()) ==> r@ == msm_of(
                sers96(points@).update(i, sers96(points@)[j]).update(j, sers96(points@)[i]),
                vals32(scalars@).update(i, vals32(scalars@)[j]).update(j, vals32(scalars@)[i]),
            ),
        forall|k: int|
            0 <= k <= points@.len() ==> r@ == add_of(
                #[trigger] msm_of(sers96(points@).take(k), vals32(scalars@).take(k)),
                msm_of(sers96(points@).skip(k), vals32(scalars@).skip(k)),
            ),
        (forall|i: int|
            0 <= i < points@.len() ==> ((#[trigger] points@[i])@[0] & 0x40 != 0 || in_g1_of(
                points@[i]@,
            ))) ==> (r@ == inf96() || in_g1_of(r@)),
{
    let pks: Vec<blst::min_pk::PublicKey> = points.iter().map(
        |s: &[u8; 96]| blst::min_pk::PublicKey::deserialize(s).unwrap(),
    ).collect();
    let rand: Vec<u8> = scalars.iter().flat_map(|s: &[u8; 32]| s.iter().copied()).collect();
    let agg = blst::min_pk::AggregatePublicKey::aggregate_with_randomness(
        &pks,
        &rand,
        255,
        false,
    ).unwrap();
    agg.to_public_key().serialize()
}

/// Relies on blst's `min_pk::AggregatePublicKey::aggregate`
/// (`blst_p1_add_or_double_affine`): the group sum of the two points,
/// normalized to its canonical serialization by
/// `to_public_key`/`serialize`. Group addition is commutative, so the
/// result is also the sum with the arguments exchanged, and the
/// prime-order subgroup is closed under it.
#[verifier::external_body]
pub(crate) fn add96(a: &[u8; 96], b: &[u8; 96]) -> (r: [u8; 96])
    requires
        wf_ser96(a@),
        wf_ser96(b@),
        a@[0] & 0x40 != 0 || be_val(a@.subrange(0, 48)) != 0,
        b@[0] & 0x40 != 0 || be_val(b@.subrange(0, 48)) != 0,
    ensures
        r@ == add_of(a@, b@),
        r@ == add_of(b@, a@),
        wf_ser96(r@),
        ((a@[0] & 0x40 != 0 || in_g1_of(a@)) && (b@[0] & 0x40 != 0 || in_g1_of(b@))) ==> (r@
            == inf96() || in_g1_of(r@)),
{
    let pa = blst::min_pk::PublicKey::deserialize(a).unwrap();
    let pb = blst::min_pk::PublicKey::deserialize(b).unwrap();
    let agg = blst::min_pk::AggregatePublicKey::aggregate(&[&pa, &pb], false).unwrap();
    agg.to_public_key().serialize()
}

/// Relies on blst's `min_pk::PublicKey::validate`
/// (`blst_p1_affine_in_g1`): whether the finite point lies in the
/// prime-order subgroup, and on `PublicKey::deserialize` to read the
/// canonical serialization.
#[verifier::external_body]
pub(crate) fn in_g1_96(s: &[u8; 96]) -> (r: bool)
    requires
        wf_ser96(s@),
        s@[0] & 0x40 == 0,
        be_val(s@.subrange(0, 48)) != 0,
    ensures
        r == in_g1_of(s@),
{
    let pk = blst::min_pk::PublicKey::deserialize(s).unwrap();
    pk.validate().is_ok()
}

} // verus!

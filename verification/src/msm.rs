//! The multi-scalar multiplication engine and point addition.
//!
//! `msm` computes the single accumulated point `sum(scalar_i * point_i)`
//! over a batch of pairs in one pass of the backend's Pippenger bucket
//! engine. Mismatched input lengths are a caller error surfaced as
//! `LengthMismatchError` with no partial result; the empty batch yields
//! the identity; zero scalars contribute the identity without being
//! skipped from the result.
use vstd::prelude::*;

use crate::backend::{add96, add_of, in_g1_of, msm96, msm_of, sers96, vals32};
use crate::point::{backend_ok, lemma_ser96_wf, parse96, ser96, ser96_of, wf_ser96, AffinePoint};
use crate::scalar::Scalar;

verus! {

/// The two input sequences of a multi-scalar multiplication had different
/// lengths.
#[derive(Clone, Copy, Debug, PartialEq, Eq, Structural)]
pub struct LengthMismatchError;

/// The serializations of a sequence of points.
pub open spec fn sers_of(points: Seq<AffinePoint>) -> Seq<Seq<u8>> {
    points.map_values(|q: AffinePoint| ser96_of(q))
}

/// The 255-bit values of a sequence of scalars.
pub open spec fn scalar_vals_of(scalars: Seq<Scalar>) -> Seq<nat> {
    scalars.map_values(|s: Scalar| s.value())
}

/// Compute `sum(scalars[i] * points[i])` over all pairs.
///
/// The empty batch, an all-zero scalar vector and an all-identity point
/// vector each yield the identity; a pair whose scalar is zero can be
/// dropped without changing the sum; the sum splits at any boundary of
/// the batch; a batch of subgroup members sums to a subgroup member. Points are required to be acceptable to the
/// arithmetic provider's boundary, which reserves a zero x-coordinate
/// for its infinity encoding: the two order-3 curve points (0, +-2)
/// cannot enter (they decode, but never pass `in_subgroup`).
pub fn msm(points: &Vec<AffinePoint>, scalars: &Vec<Scalar>) -> (r: Result<
    AffinePoint,
    LengthMismatchError,
>)
    requires
        forall|i: int|
            0 <= i < points@.len() ==> (#[trigger] points@[i]).wf() && backend_ok(points@[i]),
    ensures
        (points@.len() != scalars@.len()) <==> r is Err,
        (points@.len() == scalars@.len() && points@.len() == 0) ==> (r matches Ok(q) && q.wf()
            && q.infinity),
        (points@.len() == scalars@.len() && points@.len() > 0) ==> (r matches Ok(q) && q.wf()
            && ser96_of(q) == msm_of(sers_of(points@), scalar_vals_of(scalars@))),
        (points@.len() == scalars@.len() && (forall|i: int|
            0 <= i < scalars@.len() ==> (#[trigger] scalars@[i]).value() == 0)) ==> (r matches
            Ok(q) && q.infinity),
        (points@.len() == scalars@.len() && (forall|i: int|
            0 <= i < points@.len() ==> (#[trigger] points@[i]).infinity)) ==> (r matches Ok(q)
            && q.infinity),
        forall|i: int|
            (points@.len() == scalars@.len() && points@.len() > 0 && 0 <= i < scalars@.len() && (
            #[trigger] scalars@[i]).value() == 0) ==> (r matches Ok(q) && ser96_of(q) == msm_of(
                sers_of(points@).remove(i),
                scalar_vals_of(scalars@).remove(i),
            )),
        (points@.len() == scalars@.len() && (forall|i: int|
            0 <= i < points@.len() ==> ((#[trigger] points@[i]).infinity || in_g1_of(ser96_of(
                points@[i],
            ))))) ==> (r matches Ok(q) && (q.infinity || in_g1_of(ser96_of(q)))),
        forall|k: int|
            (points@.len() == scalars@.len() && points@.len() > 0 && 0 <= k
                <= points@.len()) ==> (r matches Ok(q) && ser96_of(q) == add_of(
                #[trigger] msm_of(sers_of(points@).take(k), scalar_vals_of(scalars@).take(k)),
                msm_of(sers_of(points@).skip(k), scalar_vals_of(scalars@).skip(k)),
            )),
{
    if points.len() != scalars.len() {
        return Err(LengthMismatchError);
    }
    if points.len() == 0 {
        return Ok(AffinePoint::identity());
    }
    let mut ps: Vec<[u8; 96]> = Vec::new();
    let mut i: usize = 0;
    while i < points.len()
        invariant
            0 <= i <= points@.len(),
            ps@.len() == i,
            forall|j: int|
                0 <= j < points@.len() ==> (#[trigger] points@[j]).wf() && backend_ok(
                    points@[j],
                ),
            forall|j: int| 0 <= j < i ==> (#[trigger] ps@[j])@ == ser96_of(points@[j]),
            forall|j: int| 0 <= j < i ==> wf_ser96((#[trigger] ps@[j])@),
            forall|j: int|
                0 <= j < i ==> ((#[trigger] ps@[j])@[0] & 0x40 != 0 || crate::fp::be_val(
                    ps@[j]@.subrange(0, 48),
                ) != 0),
        decreases points@.len() - i,
    {
        proof {
            lemma_ser96_wf(points@[i as int]);
        }
        let p96 = ser96(&points[i]);
        ps.push(p96);
        i += 1;
    }
    let mut ss: Vec<[u8; 32]> = Vec::new();
    let mut k: usize = 0;
    while k < scalars.len()
        invariant
            0 <= k <= scalars@.len(),
            ss@.len() == k,
            forall|j: int| 0 <= j < k ==> (#[trigger] ss@[j])@ == scalars@[j].bytes@,
        decreases scalars@.len() - k,
    {
        ss.push(scalars[k].bytes);
        k += 1;
    }
    let s = msm96(&ps, &ss);
    let q = parse96(&s);
    proof {
        assert(sers96(ps@) =~= sers_of(points@));
        assert(vals32(ss@) =~= scalar_vals_of(scalars@));
        assert forall|i: int|
            (0 <= i < scalars@.len() && (#[trigger] scalars@[i]).value() == 0) implies ser96_of(q)
            == msm_of(sers_of(points@).remove(i), scalar_vals_of(scalars@).remove(i)) by {
            assert(crate::scalar::scalar_val(ss@[i]@) == 0);
        }
        assert forall|k: int| 0 <= k <= points@.len() implies ser96_of(q) == add_of(
            msm_of(sers_of(points@).take(k), scalar_vals_of(scalars@).take(k)),
            msm_of(sers_of(points@).skip(k), scalar_vals_of(scalars@).skip(k)),
        ) by {
            assert(s@ == add_of(
                msm_of(sers96(ps@).take(k), vals32(ss@).take(k)),
                msm_of(sers96(ps@).skip(k), vals32(ss@).skip(k)),
            ));
        }
        if forall|i: int|
            0 <= i < points@.len() ==> ((#[trigger] points@[i]).infinity || in_g1_of(ser96_of(
                points@[i],
            ))) {
            assert forall|i: int| 0 <= i < ps@.len() implies ((#[trigger] ps@[i])@[0] & 0x40 != 0
                || in_g1_of(ps@[i]@)) by {
                assert(ps@[i]@ == ser96_of(points@[i]));
                if points@[i].infinity {
                    assert(ser96_of(points@[i])[0] == 0x40);
                    assert(0x40u8 & 0x40 != 0) by (bit_vector);
                }
            }
            if s@ == crate::point::inf96() {
                assert(s@[0] == 0x40);
                assert(0x40u8 & 0x40 != 0) by (bit_vector);
            }
        }
        if forall|i: int| 0 <= i < scalars@.len() ==> (#[trigger] scalars@[i]).value() == 0 {
            assert(forall|i: int|
                0 <= i < ss@.len() ==> crate::scalar::scalar_val((#[trigger] ss@[i])@) == 0);
            assert(s@ == crate::point::inf96());
            assert(s@[0] == 0x40);
            assert(0x40u8 & 0x40 != 0) by (bit_vector);
        }
        if forall|i: int| 0 <= i < points@.len() ==> (#[trigger] points@[i]).infinity {
            assert forall|i: int| 0 <= i < ps@.len() implies (#[trigger] ps@[i])@[0] & 0x40
                != 0 by {
                assert(ps@[i]@ == ser96_of(points@[i]));
                assert(ser96_of(points@[i])[0] == 0x40);
                assert(0x40u8 & 0x40 != 0) by (bit_vector);
            }
            assert(s@ == crate::point::inf96());
            assert(s@[0] == 0x40);
            assert(0x40u8 & 0x40 != 0) by (bit_vector);
        }
    }
    Ok(q)
}

/// A batch of one pair is promised the same serialized result as the
/// single-point multiplier: the contracts of `msm` and of `scalar_mul`
/// speak of the same function of the same arguments there.
pub proof fn lemma_msm_singleton_matches_scalar_mul(p: AffinePoint, s: Scalar)
    ensures
        msm_of(sers_of(seq![p]), scalar_vals_of(seq![s])) == msm_of(
            seq![ser96_of(p)],
            seq![s.value()],
        ),
{
    assert(sers_of(seq![p]) =~= seq![ser96_of(p)]);
    assert(scalar_vals_of(seq![s]) =~= seq![s.value()]);
}

/// Add two points of the group. Point addition is commutative, so the
/// result is also the sum taken in the other order, and a sum of subgroup
/// members is a subgroup member. As with `msm`, the arithmetic provider's
/// boundary excludes the order-3 curve points with a zero x-coordinate by
/// precondition.
pub fn add_points(a: &AffinePoint, b: &AffinePoint) -> (r: AffinePoint)
    requires
        a.wf(),
        backend_ok(*a),
        b.wf(),
        backend_ok(*b),
    ensures
        r.wf(),
        ser96_of(r) == add_of(ser96_of(*a), ser96_of(*b)),
        ser96_of(r) == add_of(ser96_of(*b), ser96_of(*a)),
        ((a.infinity || in_g1_of(ser96_of(*a))) && (b.infinity || in_g1_of(ser96_of(*b)))) ==> (
        r.infinity || in_g1_of(ser96_of(r))),
{
    proof {
        lemma_ser96_wf(*a);
        lemma_ser96_wf(*b);
    }
    let a96 = ser96(a);
    let b96 = ser96(b);
    let s = add96(&a96, &b96);
    let r = parse96(&s);
    proof {
        if (a.infinity || in_g1_of(ser96_of(*a))) && (b.infinity || in_g1_of(ser96_of(*b))) {
            if a.infinity {
                assert(ser96_of(*a)[0] == 0x40);
                assert(0x40u8 & 0x40 != 0) by (bit_vector);
            }
            if b.infinity {
                assert(ser96_of(*b)[0] == 0x40);
                assert(0x40u8 & 0x40 != 0) by (bit_vector);
            }
            if s@ == crate::point::inf96() {
                assert(s@[0] == 0x40);
                assert(0x40u8 & 0x40 != 0) by (bit_vector);
            }
        }
    }
    r
}

} // verus!

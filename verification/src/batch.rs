//! The batch affine converter.
//!
//! A `ProjectivePoint` is a point in the projective working representation
//! of the arithmetic provider, used to avoid a field inversion per
//! operation; beside the provider's value it records the affine point it
//! represents, which is what the conversion contracts speak about.
//! `batch_normalize` converts a whole batch back to affine form with a
//! single shared field inversion, preserving input order; `normalize` is
//! the independent single-point conversion it must agree with.
use vstd::prelude::*;

use crate::point::{lemma_ser96_inj, lemma_ser96_wf, parse96, ser96_of, AffinePoint};

verus! {

#[verifier::external_type_specification]
#[verifier::external_body]
pub struct ExG1Projective(bls12_381::G1Projective);

/// A point in the provider's projective representation together with the
/// affine point it represents.
pub struct ProjectivePoint {
    inner: bls12_381::G1Projective,
    model: AffinePoint,
}

impl ProjectivePoint {
    /// The affine point this projective value represents.
    pub closed spec fn affine_model(self) -> AffinePoint {
        self.model
    }
}

/// Promote an affine point to the projective working representation.
///
/// Relies on bls12_381's `G1Affine::from_uncompressed_unchecked`, which is
/// exact on canonical 96-byte serializations, and on
/// `From<G1Affine> for G1Projective`, which yields a projective
/// representative of the same point.
#[verifier::external_body]
pub fn from_affine(point: &AffinePoint) -> (r: ProjectivePoint)
    requires
        point.wf(),
    ensures
        r.affine_model() == *point,
{
    let b = crate::point::ser96(point);
    let aff = bls12_381::G1Affine::from_uncompressed_unchecked(&b).unwrap();
    ProjectivePoint { inner: bls12_381::G1Projective::from(aff), model: *point }
}

/// Relies on bls12_381's `G1Projective::batch_normalize`, which writes the
/// normalized affine form of each input in order using one shared field
/// inversion, and on `G1Affine::to_uncompressed` for each result's
/// canonical serialization.
#[verifier::external_body]
fn batch_normalize96(points: &Vec<ProjectivePoint>) -> (r: Vec<[u8; 96]>)
    requires
        forall|i: int| 0 <= i < points@.len() ==> (#[trigger] points@[i]).affine_model().wf(),
    ensures
        r@.len() == points@.len(),
        forall|i: int|
            0 <= i < points@.len() ==> (#[trigger] r@[i])@ == ser96_of(
                points@[i].affine_model(),
            ),
{
    let inner: Vec<bls12_381::G1Projective> = points.iter().map(
        |p: &ProjectivePoint| p.inner,
    ).collect();
    let mut out = vec![bls12_381::G1Affine::identity(); inner.len()];
    bls12_381::G1Projective::batch_normalize(&inner, &mut out);
    out.iter().map(|a: &bls12_381::G1Affine| a.to_uncompressed()).collect()
}

/// Relies on bls12_381's `From<&G1Projective> for G1Affine`, the
/// independent normalization of a single projective point, and on
/// `G1Affine::to_uncompressed`.
#[verifier::external_body]
fn normalize96(point: &ProjectivePoint) -> (r: [u8; 96])
    requires
        point.affine_model().wf(),
    ensures
        r@ == ser96_of(point.affine_model()),
{
    bls12_381::G1Affine::from(&point.inner).to_uncompressed()
}

/// Normalize one projective point to the affine point it represents.
pub fn normalize(point: &ProjectivePoint) -> (r: AffinePoint)
    requires
        point.affine_model().wf(),
    ensures
        r == point.affine_model(),
{
    proof {
        lemma_ser96_wf(point.affine_model());
    }
    let s = normalize96(point);
    let q = parse96(&s);
    proof {
        lemma_ser96_inj(q, point.affine_model());
    }
    q
}

/// Convert a batch of projective points to affine form, sharing one field
/// inversion across the whole batch and preserving input order: entry `i`
/// of the result is exactly the affine form of input `i`, the same point
/// `normalize` yields for it alone.
pub fn batch_normalize(points: &Vec<ProjectivePoint>) -> (r: Vec<AffinePoint>)
    requires
        forall|i: int| 0 <= i < points@.len() ==> (#[trigger] points@[i]).affine_model().wf(),
    ensures
        r@.len() == points@.len(),
        forall|i: int| 0 <= i < points@.len() ==> (#[trigger] r@[i]) == points@[i].affine_model(),
{
    let raw = batch_normalize96(points);
    let mut out: Vec<AffinePoint> = Vec::new();
    let mut i: usize = 0;
    while i < raw.len()
        invariant
            0 <= i <= raw@.len(),
            raw@.len() == points@.len(),
            out@.len() == i,
            forall|j: int| 0 <= j < points@.len() ==> (#[trigger] points@[j]).affine_model().wf(),
            forall|j: int|
                0 <= j < points@.len() ==> (#[trigger] raw@[j])@ == ser96_of(
                    points@[j].affine_model(),
                ),
            forall|j: int| 0 <= j < i ==> (#[trigger] out@[j]) == points@[j].affine_model(),
        decreases raw@.len() - i,
    {
        proof {
            lemma_ser96_wf(points@[i as int].affine_model());
        }
        let q = parse96(&raw[i]);
        proof {
            lemma_ser96_inj(q, points@[i as int].affine_model());
        }
        out.push(q);
        i += 1;
    }
    out
}

} // verus!

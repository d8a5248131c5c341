use g1core::{
    add_points, batch_normalize, decode, encode, from_affine, in_subgroup, msm, normalize,
    scalar_mul, AffinePoint, DecodeError, LengthMismatchError, Scalar,
};

/// The well-known compressed encoding of the group's generator.
const GEN_HEX: &str = "97f1d3a73197d7942695638c4fa9ac0fc3688c4f9774b905a14e3a3f171bac586c55e83ff97a1aeffb3af00adb22c6bb";

fn hex_byte(hi: u8, lo: u8) -> u8 {
    let d = |c: u8| -> u8 {
        match c {
            b'0'..=b'9' => c - b'0',
            b'a'..=b'f' => c - b'a' + 10,
            b'A'..=b'F' => c - b'A' + 10,
            _ => panic!("bad hex digit"),
        }
    };
    d(hi) * 16 + d(lo)
}

fn hex48(s: &str) -> [u8; 48] {
    let b = s.as_bytes();
    assert_eq!(b.len(), 96);
    let mut out = [0u8; 48];
    for i in 0..48 {
        out[i] = hex_byte(b[2 * i], b[2 * i + 1]);
    }
    out
}

fn generator() -> AffinePoint {
    decode(&hex48(GEN_HEX)).expect("generator must decode")
}

fn scalar_u64(v: u64) -> Scalar {
    let mut bytes = [0u8; 32];
    let le = v.to_le_bytes();
    bytes[..8].copy_from_slice(&le);
    Scalar::from_le_bytes(bytes)
}

fn infinity_bytes() -> [u8; 48] {
    let mut b = [0u8; 48];
    b[0] = 0xc0;
    b
}

#[test]
fn decode_encode_generator_round_trip() {
    let g = generator();
    assert!(!g.is_identity());
    assert_eq!(encode(&g), hex48(GEN_HEX));
}

#[test]
fn decode_encode_negated_generator_round_trip() {
    // Flipping the sign flag selects the other square root: a different,
    // valid point whose encoding round-trips too.
    let mut bytes = hex48(GEN_HEX);
    bytes[0] ^= 0x20;
    let minus_g = decode(&bytes).expect("negated generator must decode");
    assert_ne!(minus_g, generator());
    assert_eq!(encode(&minus_g), bytes);
}

#[test]
fn encode_identity_gives_reserved_pattern() {
    let id = AffinePoint::identity();
    assert_eq!(encode(&id), infinity_bytes());
}

#[test]
fn decode_reserved_pattern_gives_identity() {
    let p = decode(&infinity_bytes()).expect("infinity pattern must decode");
    assert!(p.is_identity());
    assert_eq!(p, AffinePoint::identity());
}

#[test]
fn decode_rejects_infinity_with_nonzero_payload() {
    let mut b = infinity_bytes();
    b[47] = 1;
    assert_eq!(decode(&b), Err(DecodeError::InvalidInfinity));
    let mut b2 = infinity_bytes();
    b2[0] = 0xc1;
    assert_eq!(decode(&b2), Err(DecodeError::InvalidInfinity));
    // Sign flag set together with the infinity flag is inconsistent too.
    let mut b3 = infinity_bytes();
    b3[0] = 0xe0;
    assert_eq!(decode(&b3), Err(DecodeError::InvalidInfinity));
}

#[test]
fn decode_rejects_uncompressed_flag() {
    let mut b = hex48(GEN_HEX);
    b[0] &= 0x7f;
    assert_eq!(decode(&b), Err(DecodeError::NotCompressed));
}

#[test]
fn decode_rejects_noncanonical_x() {
    // The field modulus itself as payload: not a canonical field element.
    let p_hex = "1a0111ea397fe69a4b1ba7b6434bacd764774b84f38512bf6730d2a0f6b0f6241eabfffeb153ffffb9feffffffffaaab";
    let mut b = hex48(p_hex);
    b[0] |= 0x80;
    assert_eq!(decode(&b), Err(DecodeError::NonCanonicalX));
}

#[test]
fn decode_accepts_zero_x_curve_points() {
    // x = 0 gives y^2 = 4: the curve points (0, +-2). They decode (they
    // are on the curve), round-trip, and are rejected by the subgroup
    // validator, never by the codec.
    for flags in [0x80u8, 0xa0] {
        let mut b = [0u8; 48];
        b[0] = flags;
        let p = decode(&b).expect("zero-x curve point must decode");
        assert!(!p.is_identity());
        assert_eq!(encode(&p), b);
        assert!(!in_subgroup(&p));
    }
}

#[test]
fn decode_rejects_x_without_square_root() {
    // About half of all x-values have no matching y; among x = 1..=20 both
    // kinds occur. Check that every rejection is exactly `NotOnCurve` and
    // that both kinds do occur.
    let mut rejected = 0;
    let mut accepted = 0;
    for x in 1u8..=20 {
        let mut b = [0u8; 48];
        b[0] = 0x80;
        b[47] = x;
        match decode(&b) {
            Err(DecodeError::NotOnCurve) => rejected += 1,
            Err(e) => panic!("unexpected error for x = {}: {:?}", x, e),
            Ok(p) => {
                accepted += 1;
                assert_eq!(encode(&p), b);
            },
        }
    }
    assert!(rejected > 0);
    assert!(accepted > 0);
}

#[test]
fn generator_is_in_subgroup() {
    assert!(in_subgroup(&generator()));
}

#[test]
fn small_x_curve_points_are_outside_the_subgroup() {
    // The curve's cofactor is enormous, so the on-curve points with tiny
    // x-coordinates lie outside the prime-order subgroup: decoding accepts
    // them (they are on the curve), and the subgroup validator is what
    // rejects them.
    let mut found = 0;
    for x in 1u8..=20 {
        let mut b = [0u8; 48];
        b[0] = 0x80;
        b[47] = x;
        if let Ok(p) = decode(&b) {
            found += 1;
            assert!(!in_subgroup(&p));
        }
    }
    assert!(found > 0);
}

#[test]
fn identity_is_in_subgroup() {
    assert!(in_subgroup(&AffinePoint::identity()));
}

#[test]
fn scalar_mul_by_zero_gives_identity() {
    let g = generator();
    assert_eq!(scalar_mul(&g, &Scalar::zero()), AffinePoint::identity());
}

#[test]
fn scalar_mul_by_one_gives_point_back() {
    let g = generator();
    assert_eq!(scalar_mul(&g, &Scalar::one()), g);
}

#[test]
fn scalar_mul_of_identity_is_identity() {
    let id = AffinePoint::identity();
    assert_eq!(scalar_mul(&id, &scalar_u64(12345)), id);
}

#[test]
fn scalar_mul_matches_repeated_addition() {
    let g = generator();
    let g2 = add_points(&g, &g);
    let g3 = add_points(&g2, &g);
    assert_eq!(scalar_mul(&g, &scalar_u64(2)), g2);
    assert_eq!(scalar_mul(&g, &scalar_u64(3)), g3);
}

#[test]
fn scalar_mul_is_linear_in_the_scalar() {
    let g = generator();
    let lhs = scalar_mul(&g, &scalar_u64(2 + 3));
    let rhs = add_points(&scalar_mul(&g, &scalar_u64(2)), &scalar_mul(&g, &scalar_u64(3)));
    assert_eq!(lhs, rhs);
}

#[test]
fn point_addition_is_commutative() {
    let g = generator();
    let h = scalar_mul(&g, &scalar_u64(7));
    assert_eq!(add_points(&g, &h), add_points(&h, &g));
}

#[test]
fn adding_a_point_and_its_negation_gives_identity() {
    let g = generator();
    let mut bytes = hex48(GEN_HEX);
    bytes[0] ^= 0x20;
    let minus_g = decode(&bytes).expect("negated generator must decode");
    assert_eq!(add_points(&g, &minus_g), AffinePoint::identity());
}

#[test]
fn scalar_mul_by_group_order_gives_identity() {
    // The group order, little-endian.
    let order_le: [u8; 32] = [
        0x01, 0x00, 0x00, 0x00, 0xff, 0xff, 0xff, 0xff, 0xfe, 0x5b, 0xfe, 0xff, 0x02, 0xa4,
        0xbd, 0x53, 0x05, 0xd8, 0xa1, 0x09, 0x08, 0xd8, 0x39, 0x33, 0x48, 0x7d, 0x9d, 0x29,
        0x53, 0xa7, 0xed, 0x73,
    ];
    let g = generator();
    assert_eq!(scalar_mul(&g, &Scalar::from_le_bytes(order_le)), AffinePoint::identity());
    // One above the order: back to the generator (the scan is permissive,
    // values at or above the order wrap).
    let mut above = order_le;
    above[0] = 0x02;
    assert_eq!(scalar_mul(&g, &Scalar::from_le_bytes(above)), g);
}

#[test]
fn msm_rejects_mismatched_lengths() {
    let g = generator();
    let points = vec![g];
    let scalars: Vec<Scalar> = vec![];
    assert_eq!(msm(&points, &scalars), Err(LengthMismatchError));
    let scalars2 = vec![Scalar::one(), Scalar::one()];
    assert_eq!(msm(&points, &scalars2), Err(LengthMismatchError));
}

#[test]
fn msm_of_empty_batch_gives_identity_encoding() {
    let points: Vec<AffinePoint> = vec![];
    let scalars: Vec<Scalar> = vec![];
    let r = msm(&points, &scalars).expect("empty batch is valid");
    assert!(r.is_identity());
    assert_eq!(encode(&r), infinity_bytes());
}

#[test]
fn msm_matches_sum_of_independent_multiplications() {
    let g = generator();
    let h = scalar_mul(&g, &scalar_u64(11));
    let k = scalar_mul(&g, &scalar_u64(29));
    let points = vec![g, h, k];
    let scalars = vec![scalar_u64(2), scalar_u64(3), scalar_u64(5)];
    let direct = msm(&points, &scalars).expect("lengths match");
    let naive = add_points(
        &add_points(&scalar_mul(&g, &scalars[0]), &scalar_mul(&h, &scalars[1])),
        &scalar_mul(&k, &scalars[2]),
    );
    assert_eq!(direct, naive);
}

#[test]
fn msm_does_not_skip_zero_scalars() {
    let g = generator();
    let h = scalar_mul(&g, &scalar_u64(11));
    let points = vec![g, h];
    let scalars = vec![Scalar::zero(), scalar_u64(3)];
    let r = msm(&points, &scalars).expect("lengths match");
    assert_eq!(r, scalar_mul(&h, &scalar_u64(3)));
}

#[test]
fn msm_with_identity_point_in_batch() {
    let g = generator();
    let points = vec![AffinePoint::identity(), g];
    let scalars = vec![scalar_u64(9), scalar_u64(4)];
    let r = msm(&points, &scalars).expect("lengths match");
    assert_eq!(r, scalar_mul(&g, &scalar_u64(4)));
}

#[test]
fn batch_normalize_agrees_with_single_normalization() {
    let g = generator();
    let h = scalar_mul(&g, &scalar_u64(5));
    let id = AffinePoint::identity();
    let projs = vec![from_affine(&g), from_affine(&h), from_affine(&id)];
    let batch = batch_normalize(&projs);
    assert_eq!(batch.len(), 3);
    for i in 0..3 {
        assert_eq!(batch[i], normalize(&projs[i]));
    }
    assert_eq!(batch[0], g);
    assert_eq!(batch[1], h);
    assert_eq!(batch[2], id);
}

#[test]
fn batch_normalize_of_empty_batch_is_empty() {
    let projs: Vec<g1core::ProjectivePoint> = vec![];
    assert_eq!(batch_normalize(&projs).len(), 0);
}

#[test]
fn decoded_points_round_trip_through_projective_form() {
    let g = generator();
    let p = from_affine(&g);
    assert_eq!(normalize(&p), g);
}

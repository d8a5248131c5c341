//! Byte-level model of base-field elements.
//!
//! A base-field element travels through this crate as its canonical 48-byte
//! big-endian representation. This module gives that representation its
//! mathematical meaning (`be_val`), defines the field modulus and the
//! sign convention for y-coordinates, and provides verified comparison
//! helpers over the byte form.
use vstd::prelude::*;

verus! {

/// 256^n, the weight of a byte that has `n` bytes after it.
pub open spec fn pow256(n: nat) -> nat
    decreases n,
{
    if n == 0 {
        1
    } else {
        256 * pow256((n - 1) as nat)
    }
}

/// The unsigned integer value of a big-endian byte string.
pub open spec fn be_val(s: Seq<u8>) -> nat
    decreases s.len(),
{
    if s.len() == 0 {
        0
    } else {
        (s[0] as nat) * pow256((s.len() - 1) as nat) + be_val(s.subrange(1, s.len() as int))
    }
}

/// The 48 big-endian bytes of the base-field modulus.
pub open spec fn p_bytes() -> Seq<u8> {
    seq![
        0x1au8, 0x01, 0x11, 0xea, 0x39, 0x7f, 0xe6, 0x9a,
        0x4b, 0x1b, 0xa7, 0xb6, 0x43, 0x4b, 0xac, 0xd7,
        0x64, 0x77, 0x4b, 0x84, 0xf3, 0x85, 0x12, 0xbf,
        0x67, 0x30, 0xd2, 0xa0, 0xf6, 0xb0, 0xf6, 0x24,
        0x1e, 0xab, 0xff, 0xfe, 0xb1, 0x53, 0xff, 0xff,
        0xb9, 0xfe, 0xff, 0xff, 0xff, 0xff, 0xaa, 0xab,
    ]
}

/// The base-field modulus, a 381-bit prime.
pub open spec fn p() -> nat {
    be_val(p_bytes())
}

/// The 48 big-endian bytes of (p - 1) / 2. A y-coordinate strictly above
/// this threshold is the "lexicographically largest" square root, which is
/// what the compressed form's sign flag records.
pub open spec fn half_p_bytes() -> Seq<u8> {
    seq![
        0x0du8, 0x00, 0x88, 0xf5, 0x1c, 0xbf, 0xf3, 0x4d,
        0x25, 0x8d, 0xd3, 0xdb, 0x21, 0xa5, 0xd6, 0x6b,
        0xb2, 0x3b, 0xa5, 0xc2, 0x79, 0xc2, 0x89, 0x5f,
        0xb3, 0x98, 0x69, 0x50, 0x7b, 0x58, 0x7b, 0x12,
        0x0f, 0x55, 0xff, 0xff, 0x58, 0xa9, 0xff, 0xff,
        0xdc, 0xff, 0x7f, 0xff, 0xff, 0xff, 0xd5, 0x55,
    ]
}

/// The sign of a y-coordinate given by its canonical big-endian bytes:
/// true exactly when y > (p - 1) / 2.
pub open spec fn sign_be(y: Seq<u8>) -> bool {
    be_val(y) > be_val(half_p_bytes())
}

/// Whether (x, y) satisfies the curve equation y^2 = x^3 + 4 over the base
/// field.
pub open spec fn on_curve(x: nat, y: nat) -> bool {
    (y * y) % p() == (x * x * x + 4) % p()
}

/// A byte string of `n` zero bytes.
pub open spec fn zero_bytes(n: nat) -> Seq<u8> {
    Seq::new(n, |i: int| 0u8)
}

/// Whether some y-coordinate below the modulus completes `xv` to a curve
/// point.
pub open spec fn has_y(xv: nat) -> bool {
    exists|y: nat| y < p() && on_curve(xv, y)
}

/// A byte string with a nonzero byte has a positive value.
pub proof fn lemma_be_val_pos(s: Seq<u8>, k: int)
    requires
        0 <= k < s.len(),
        s[k] != 0,
    ensures
        be_val(s) > 0,
    decreases s.len(),
{
    lemma_pow256_pos((s.len() - 1) as nat);
    if k == 0 {
        assert((s[0] as nat) * pow256((s.len() - 1) as nat) >= 1) by (nonlinear_arith)
            requires
                s[0] >= 1,
                pow256((s.len() - 1) as nat) >= 1,
        ;
    } else {
        let tail = s.subrange(1, s.len() as int);
        lemma_be_val_pos(tail, k - 1);
    }
}

/// An all-zero byte string has value zero.
pub proof fn lemma_be_val_zero(s: Seq<u8>)
    requires
        forall|j: int| 0 <= j < s.len() ==> s[j] == 0u8,
    ensures
        be_val(s) == 0,
    decreases s.len(),
{
    if s.len() > 0 {
        lemma_be_val_zero(s.subrange(1, s.len() as int));
    }
}

pub proof fn lemma_pow256_pos(n: nat)
    ensures
        pow256(n) >= 1,
    decreases n,
{
    if n > 0 {
        lemma_pow256_pos((n - 1) as nat);
    }
}

/// A big-endian byte string's value is below the weight of its length.
pub proof fn lemma_be_val_bound(s: Seq<u8>)
    ensures
        be_val(s) < pow256(s.len()),
    decreases s.len(),
{
    if s.len() == 0 {
    } else {
        let tail = s.subrange(1, s.len() as int);
        lemma_be_val_bound(tail);
        lemma_pow256_pos((s.len() - 1) as nat);
        assert(be_val(s) == (s[0] as nat) * pow256((s.len() - 1) as nat) + be_val(tail));
        assert((s[0] as nat) * pow256((s.len() - 1) as nat) <= 255 * pow256(
            (s.len() - 1) as nat,
        )) by (nonlinear_arith)
            requires
                s[0] <= 255,
                pow256((s.len() - 1) as nat) >= 1,
        ;
        assert(255 * pow256((s.len() - 1) as nat) + pow256((s.len() - 1) as nat) == pow256(
            s.len(),
        ));
    }
}

/// If two equal-length byte strings agree before position `k` and differ in
/// favour of `b` at `k`, then `a`'s value is strictly smaller.
pub proof fn lemma_be_val_lt(a: Seq<u8>, b: Seq<u8>, k: int)
    requires
        a.len() == b.len(),
        0 <= k < a.len(),
        forall|j: int| 0 <= j < k ==> a[j] == b[j],
        a[k] < b[k],
    ensures
        be_val(a) < be_val(b),
    decreases a.len(),
{
    let ta = a.subrange(1, a.len() as int);
    let tb = b.subrange(1, b.len() as int);
    if k == 0 {
        lemma_be_val_bound(ta);
        lemma_pow256_pos((a.len() - 1) as nat);
        let w = pow256((a.len() - 1) as nat);
        assert((a[0] as nat) * w + w <= (b[0] as nat) * w) by (nonlinear_arith)
            requires
                (a[0] as nat) + 1 <= (b[0] as nat),
                w >= 1,
        ;
    } else {
        assert(forall|j: int| 0 <= j < k - 1 ==> ta[j] == tb[j]);
        assert(ta[k - 1] < tb[k - 1]);
        lemma_be_val_lt(ta, tb, k - 1);
    }
}

/// Strict big-endian comparison of two 48-byte strings.
pub fn be48_lt(a: &[u8; 48], b: &[u8; 48]) -> (r: bool)
    ensures
        r == (be_val(a@) < be_val(b@)),
{
    let mut i: usize = 0;
    while i < 48
        invariant
            0 <= i <= 48,
            forall|j: int| 0 <= j < i ==> a@[j] == b@[j],
        decreases 48 - i,
    {
        if a[i] < b[i] {
            proof {
                lemma_be_val_lt(a@, b@, i as int);
            }
            return true;
        }
        if a[i] > b[i] {
            proof {
                lemma_be_val_lt(b@, a@, i as int);
            }
            return false;
        }
        i += 1;
    }
    proof {
        assert(a@ =~= b@);
    }
    false
}

/// Whether every byte of `a` from position `from` on is zero.
pub fn all_zero_from_48(a: &[u8; 48], from: usize) -> (r: bool)
    requires
        from <= 48,
    ensures
        r == (forall|j: int| from <= j < 48 ==> a@[j] == 0u8),
{
    let mut i: usize = from;
    while i < 48
        invariant
            from <= i <= 48,
            forall|j: int| from <= j < i ==> a@[j] == 0u8,
        decreases 48 - i,
    {
        if a[i] != 0 {
            return false;
        }
        i += 1;
    }
    true
}

/// The exec form of `p_bytes`.
pub fn p_bytes_exec() -> (r: [u8; 48])
    ensures
        r@ == p_bytes(),
{
    let r: [u8; 48] = [
        0x1au8, 0x01, 0x11, 0xea, 0x39, 0x7f, 0xe6, 0x9a,
        0x4b, 0x1b, 0xa7, 0xb6, 0x43, 0x4b, 0xac, 0xd7,
        0x64, 0x77, 0x4b, 0x84, 0xf3, 0x85, 0x12, 0xbf,
        0x67, 0x30, 0xd2, 0xa0, 0xf6, 0xb0, 0xf6, 0x24,
        0x1e, 0xab, 0xff, 0xfe, 0xb1, 0x53, 0xff, 0xff,
        0xb9, 0xfe, 0xff, 0xff, 0xff, 0xff, 0xaa, 0xab,
    ];
    proof {
        assert(r@ =~= p_bytes());
    }
    r
}

/// The exec form of `half_p_bytes`.
pub fn half_p_bytes_exec() -> (r: [u8; 48])
    ensures
        r@ == half_p_bytes(),
{
    let r: [u8; 48] = [
        0x0du8, 0x00, 0x88, 0xf5, 0x1c, 0xbf, 0xf3, 0x4d,
        0x25, 0x8d, 0xd3, 0xdb, 0x21, 0xa5, 0xd6, 0x6b,
        0xb2, 0x3b, 0xa5, 0xc2, 0x79, 0xc2, 0x89, 0x5f,
        0xb3, 0x98, 0x69, 0x50, 0x7b, 0x58, 0x7b, 0x12,
        0x0f, 0x55, 0xff, 0xff, 0x58, 0xa9, 0xff, 0xff,
        0xdc, 0xff, 0x7f, 0xff, 0xff, 0xff, 0xd5, 0x55,
    ];
    proof {
        assert(r@ =~= half_p_bytes());
    }
    r
}

} // verus!

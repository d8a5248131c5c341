//! Group-arithmetic primitives for the 48-byte-compressed prime-order G1
//! group used in pairing-based cryptography: point (de)serialization,
//! subgroup validation, single-point scalar multiplication, batch affine
//! conversion, and multi-scalar multiplication. The prime-field and
//! curve-formula arithmetic is delegated to external arithmetic providers
//! behind a trusted boundary; everything above that boundary is verified.
use vstd::prelude::*;

pub mod backend;
pub mod batch;
pub mod codec;
pub mod fp;
pub mod msm;
pub mod mul;
pub mod point;
pub mod scalar;
pub mod subgroup;

pub use batch::{batch_normalize, from_affine, normalize, ProjectivePoint};
pub use codec::{decode, encode, DecodeError};
pub use msm::{add_points, msm, LengthMismatchError};
pub use mul::scalar_mul;
pub use point::AffinePoint;
pub use scalar::Scalar;
pub use subgroup::in_subgroup;

verus! {

/// Number of bytes in the compressed wire representation of a point.
pub const COMPRESSED_SIZE: usize = 48;

/// Number of bytes in a scalar.
pub const SCALAR_SIZE: usize = 32;

} // verus!

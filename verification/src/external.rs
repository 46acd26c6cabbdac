use vstd::prelude::*;

verus! {

/// The textual encoding of the affine point component of the signer's
/// reply.
pub struct SerializableAffinePoint {
    pub affine_point: String,
}

/// The textual encoding of the scalar component of the signer's reply.
pub struct SerializableScalar {
    pub scalar: String,
}

/// The remote signer's reply: an elliptic-curve signature decomposed into
/// an affine point component, a scalar component and a recovery identifier.
pub struct SignatureResponse {
    pub big_r: SerializableAffinePoint,
    pub s: SerializableScalar,
    pub recovery_id: u8,
}

/// The payload handed to the remote signer: the 32-byte digest to sign,
/// the derivation path selecting the signing key, and the key version.
pub struct SignRequest {
    pub payload: [u8; 32],
    pub path: String,
    pub key_version: u32,
}

} // verus!

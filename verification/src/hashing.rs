use vstd::prelude::*;

verus! {

/// The SHA-256 digest of a byte string. Named rather than written out: the
/// algorithm is computed by an outside crate and nothing here re-states it.
pub uninterp spec fn sha256_of(b: Seq<u8>) -> Seq<u8>;

/// The double SHA-256 digest used as the signing payload.
pub open spec fn sha256d_of(b: Seq<u8>) -> Seq<u8> {
    sha256_of(sha256_of(b))
}

/// Relies on sha2::Sha256: the digest is a function of the input bytes
/// alone and is always 32 bytes long.
#[verifier::external_body]
fn sha256(b: &Vec<u8>) -> (r: Vec<u8>)
    ensures
        r@ == sha256_of(b@),
        r@.len() == 32,
{
    <sha2::Sha256 as sha2::Digest>::digest(b.as_slice()).as_slice().to_vec()
}

/// The double SHA-256 of the encoded transaction: hash the bytes, then
/// hash the result.
pub fn sha256d(encoded_tx: Vec<u8>) -> (r: Vec<u8>)
    ensures
        r@ == sha256d_of(encoded_tx@),
        r@.len() == 32,
{
    let first = sha256(&encoded_tx);
    sha256(&first)
}

} // verus!

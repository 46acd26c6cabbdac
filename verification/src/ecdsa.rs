use vstd::prelude::*;

use crate::bitcoin_tx::push_bytes;
use crate::errors::Error;
use crate::external::{SignRequest, SignatureResponse};
use crate::hexcodec::{bytes_of_hex, is_hex_seq};

verus! {

/// The fixed-length signature a well-formed signer reply decodes to: the
/// affine point's 32-byte x-coordinate (its one-byte parity prefix
/// dropped) followed by the 32-byte scalar; nothing when either component
/// is not hexadecimal of the expected length.
pub open spec fn sig_of_response(r: SignatureResponse) -> Option<Seq<u8>> {
    if r.big_r.affine_point@.len() == 66 && is_hex_seq(r.big_r.affine_point@) && r.s.scalar@.len()
        == 64 && is_hex_seq(r.s.scalar@) {
        Some(bytes_of_hex(r.big_r.affine_point@).skip(1) + bytes_of_hex(r.s.scalar@))
    } else {
        None
    }
}

/// Decodes the signer's textual reply into the 64-byte fixed-length
/// signature encoding used for script assembly. A reply whose components
/// are not hexadecimal of the expected length is an opaque remote failure.
pub fn extract_signature(resp: &SignatureResponse) -> (r: Result<Vec<u8>, Error>)
    ensures
        r matches Ok(v) ==> sig_of_response(*resp) == Some(v@) && v@.len() == 64,
        r is Err <==> sig_of_response(*resp) is None,
        r is Err ==> r == Err::<Vec<u8>, Error>(Error::RemoteSigningFailure),
{
    let mut point = match crate::hexcodec::hex_decode(resp.big_r.affine_point.as_str()) {
        Some(b) => b,
        None => {
            return Err(Error::RemoteSigningFailure);
        },
    };
    if point.len() != 33 {
        return Err(Error::RemoteSigningFailure);
    }
    let scalar = match crate::hexcodec::hex_decode(resp.s.scalar.as_str()) {
        Some(b) => b,
        None => {
            return Err(Error::RemoteSigningFailure);
        },
    };
    if scalar.len() != 32 {
        return Err(Error::RemoteSigningFailure);
    }
    let ghost point_view = point@;
    let mut sig = point.split_off(1);
    assert(sig@ =~= point_view.skip(1));
    push_bytes(&mut sig, &scalar);
    Ok(sig)
}

/// Assembles the signing request for the remote signer from a 32-byte
/// digest, a derivation path and a key version. Dispatching the request
/// and awaiting the reply is the host's business; this fixes exactly what
/// is sent.
pub fn get_sig(payload: Vec<u8>, path: String, key_version: u32) -> (r: SignRequest)
    requires
        payload@.len() == 32,
    ensures
        r.payload@ == payload@,
        r.path@ == path@,
        r.key_version == key_version,
{
    let mut fixed: [u8; 32] = [0u8; 32];
    let mut i: usize = 0;
    while i < 32
        invariant
            i <= 32,
            payload@.len() == 32,
            fixed@.len() == 32,
            forall|j: int| 0 <= j < i ==> fixed@[j] == payload@[j],
        decreases 32 - i,
    {
        fixed[i] = payload[i];
        i = i + 1;
    }
    assert(fixed@ =~= payload@);
    SignRequest { payload: fixed, path: path, key_version: key_version }
}

} // verus!

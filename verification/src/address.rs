use vstd::prelude::*;

use crate::errors::Error;

verus! {

/// What base58check decoding yields for a string: the payload with its
/// version byte, or nothing when a character is invalid or the four-byte
/// double-SHA-256 checksum does not match. Named rather than written out:
/// the base58 alphabet and checksum arithmetic live in an outside crate.
pub uninterp spec fn base58check_decode(s: Seq<char>) -> Option<Seq<u8>>;

/// Relies on base58ck::decode_check: decoding is a function of the string
/// alone; it errs exactly when a character is outside the base58 alphabet,
/// the decoded data is shorter than the checksum, or the checksum does not
/// match, and otherwise returns the decoded bytes minus the checksum.
#[verifier::external_body]
fn decode_check(s: &str) -> (r: Option<Vec<u8>>)
    ensures
        r matches Some(v) ==> base58check_decode(s@) == Some(v@),
        r is None ==> base58check_decode(s@) is None,
{
    base58ck::decode_check(s).ok()
}

/// The 20-byte public-key hash carried by a checksummed address: the
/// base58check payload with its one-byte version prefix stripped, defined
/// only when that payload is exactly 21 bytes.
pub open spec fn address_pubkey_hash(s: Seq<char>) -> Option<Seq<u8>> {
    match base58check_decode(s) {
        Some(payload) => if payload.len() == 21 {
            Some(payload.skip(1))
        } else {
            None
        },
        None => None,
    }
}

/// Decodes a checksummed text address, strips the one-byte version prefix,
/// and returns the remaining 20-byte public-key hash.
pub fn decode_address(address: &str) -> (r: Result<Vec<u8>, Error>)
    ensures
        r matches Ok(h) ==> address_pubkey_hash(address@) == Some(h@) && h@.len() == 20,
        r is Err <==> address_pubkey_hash(address@) is None,
        r is Err ==> r == Err::<Vec<u8>, Error>(Error::MalformedAddress),
{
    match decode_check(address) {
        Some(mut payload) => {
            if payload.len() == 21 {
                let ghost whole = payload@;
                let hash = payload.split_off(1);
                assert(hash@ =~= whole.skip(1));
                Ok(hash)
            } else {
                Err(Error::MalformedAddress)
            }
        },
        None => Err(Error::MalformedAddress),
    }
}

/// The fixed five-element legacy spend-authorization script for a 20-byte
/// public-key hash: duplicate-top, hash160, a 20-byte push of the hash,
/// equality-verify, signature-check.
pub open spec fn p2pkh_script(h: Seq<u8>) -> Seq<u8>
    recommends
        h.len() == 20,
{
    seq![0x76u8, 0xa9u8, 0x14u8] + h + seq![0x88u8, 0xacu8]
}

/// Emits the legacy spend-authorization script for a valid 20-byte hash:
/// exactly 25 bytes, `76 a9 14 <hash> 88 ac`.
pub fn build_spend_script(pubkey_hash: &Vec<u8>) -> (r: Vec<u8>)
    requires
        pubkey_hash@.len() == 20,
    ensures
        r@ == p2pkh_script(pubkey_hash@),
        r@.len() == 25,
        r@[0] == 0x76u8 && r@[1] == 0xa9u8 && r@[2] == 0x14u8,
        r@.subrange(3, 23) == pubkey_hash@,
        r@[23] == 0x88u8 && r@[24] == 0xacu8,
{
    let mut script: Vec<u8> = Vec::new();
    script.push(0x76);
    script.push(0xa9);
    script.push(0x14);
    let mut i: usize = 0;
    while i < pubkey_hash.len()
        invariant
            i <= pubkey_hash@.len(),
            pubkey_hash@.len() == 20,
            script@ == seq![0x76u8, 0xa9u8, 0x14u8] + pubkey_hash@.take(i as int),
        decreases pubkey_hash@.len() - i,
    {
        script.push(pubkey_hash[i]);
        assert(pubkey_hash@.take(i + 1) =~= pubkey_hash@.take(i as int).push(pubkey_hash@[i as int]));
        i = i + 1;
    }
    script.push(0x88);
    script.push(0xac);
    assert(script@ =~= p2pkh_script(pubkey_hash@));
    assert(script@.subrange(3, 23) =~= pubkey_hash@);
    script
}

/// The spend-authorization script of an address, defined when the address
/// decodes to a 21-byte versioned payload.
pub open spec fn script_of_address(s: Seq<char>) -> Option<Seq<u8>> {
    match address_pubkey_hash(s) {
        Some(h) => Some(p2pkh_script(h)),
        None => None,
    }
}

/// Decodes an address and emits its legacy spend-authorization script.
pub fn p2pkh_script_from_address(address: &str) -> (r: Result<Vec<u8>, Error>)
    ensures
        r matches Ok(s) ==> script_of_address(address@) == Some(s@),
        r is Err <==> script_of_address(address@) is None,
        r is Err ==> r == Err::<Vec<u8>, Error>(Error::MalformedAddress),
{
    let hash = decode_address(address)?;
    Ok(build_spend_script(&hash))
}

} // verus!

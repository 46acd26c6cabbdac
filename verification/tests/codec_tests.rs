use btc_drop_claims::address::{build_spend_script, decode_address, p2pkh_script_from_address};
use btc_drop_claims::ecdsa::{extract_signature, get_sig};
use btc_drop_claims::errors::Error;
use btc_drop_claims::external::{SerializableAffinePoint, SerializableScalar, SignatureResponse};
use btc_drop_claims::hashing::sha256d;
use btc_drop_claims::numfmt::u128_to_string;
use sha2::Digest;

fn make_address(payload: &[u8]) -> String {
    base58ck::Base58CkString::encode(payload)
        .unwrap()
        .as_str()
        .to_string()
}

#[test]
fn sha256d_is_double_sha256() {
    let data = b"hello world".to_vec();
    let once = sha2::Sha256::digest(&data);
    let twice = sha2::Sha256::digest(once);
    let got = sha256d(data);
    assert_eq!(got.as_slice(), twice.as_slice());
    assert_eq!(got.len(), 32);
}

#[test]
fn decode_address_round_trip() {
    let hash: Vec<u8> = (1u8..=20).collect();
    let mut payload = vec![0x00u8];
    payload.extend_from_slice(&hash);
    let addr = make_address(&payload);
    let decoded = decode_address(&addr).unwrap();
    assert_eq!(decoded, hash);
}

#[test]
fn decode_address_rejects_garbage() {
    assert_eq!(decode_address("not a valid address"), Err(Error::MalformedAddress));
    assert_eq!(decode_address(""), Err(Error::MalformedAddress));
}

#[test]
fn decode_address_rejects_wrong_payload_length() {
    // Ten payload bytes instead of the twenty-one of a versioned hash.
    let payload: Vec<u8> = (0u8..10).collect();
    let addr = make_address(&payload);
    assert_eq!(decode_address(&addr), Err(Error::MalformedAddress));
}

#[test]
fn decode_address_rejects_bad_checksum() {
    let hash: Vec<u8> = (1u8..=20).collect();
    let mut payload = vec![0x00u8];
    payload.extend_from_slice(&hash);
    let mut addr = make_address(&payload);
    // Corrupt the final character while staying inside the alphabet.
    let last = addr.pop().unwrap();
    addr.push(if last == '2' { '3' } else { '2' });
    assert_eq!(decode_address(&addr), Err(Error::MalformedAddress));
}

#[test]
fn spend_script_is_25_bytes_with_fixed_opcodes() {
    let hash: Vec<u8> = (100u8..120).collect();
    let script = build_spend_script(&hash);
    assert_eq!(script.len(), 25);
    assert_eq!(script[0], 0x76);
    assert_eq!(script[1], 0xa9);
    assert_eq!(script[2], 0x14);
    assert_eq!(&script[3..23], hash.as_slice());
    assert_eq!(script[23], 0x88);
    assert_eq!(script[24], 0xac);
}

#[test]
fn script_from_address_embeds_the_hash() {
    let hash: Vec<u8> = (7u8..27).collect();
    let mut payload = vec![0x6fu8];
    payload.extend_from_slice(&hash);
    let addr = make_address(&payload);
    let script = p2pkh_script_from_address(&addr).unwrap();
    assert_eq!(script, build_spend_script(&hash));
    assert!(p2pkh_script_from_address("junk").is_err());
}

#[test]
fn u128_renders_in_decimal() {
    assert_eq!(u128_to_string(0), "0");
    assert_eq!(u128_to_string(9), "9");
    assert_eq!(u128_to_string(10), "10");
    assert_eq!(u128_to_string(1234567890), "1234567890");
    assert_eq!(
        u128_to_string(u128::MAX),
        "340282366920938463463374607431768211455"
    );
}

#[test]
fn errors_describe_themselves() {
    assert_eq!(Error::UnknownCredential.describe(), "unknown credential");
    assert_eq!(Error::PayloadTooLarge.describe(), "payload too large");
    assert_eq!(Error::RemoteSigningFailure.describe(), "remote signing failure");
}

#[test]
fn get_sig_packs_the_request() {
    let payload: Vec<u8> = (0u8..32).collect();
    let req = get_sig(payload.clone(), String::from("m/44/0/7"), 0);
    assert_eq!(req.payload.to_vec(), payload);
    assert_eq!(req.path, "m/44/0/7");
    assert_eq!(req.key_version, 0);
}

fn response(affine: &str, scalar: &str) -> SignatureResponse {
    SignatureResponse {
        big_r: SerializableAffinePoint {
            affine_point: affine.to_string(),
        },
        s: SerializableScalar {
            scalar: scalar.to_string(),
        },
        recovery_id: 0,
    }
}

#[test]
fn extract_signature_drops_the_parity_prefix() {
    let affine = format!("02{}", "ab".repeat(32));
    let scalar = "cd".repeat(32);
    let sig = extract_signature(&response(&affine, &scalar)).unwrap();
    assert_eq!(sig.len(), 64);
    assert_eq!(&sig[..32], vec![0xabu8; 32].as_slice());
    assert_eq!(&sig[32..], vec![0xcdu8; 32].as_slice());
}

#[test]
fn extract_signature_rejects_malformed_components() {
    let good_affine = format!("02{}", "ab".repeat(32));
    let good_scalar = "cd".repeat(32);
    // Too short a point.
    assert_eq!(
        extract_signature(&response("02ab", &good_scalar)),
        Err(Error::RemoteSigningFailure)
    );
    // Non-hex scalar.
    assert_eq!(
        extract_signature(&response(&good_affine, &"zz".repeat(32))),
        Err(Error::RemoteSigningFailure)
    );
    // Wrong scalar length.
    assert_eq!(
        extract_signature(&response(&good_affine, &"cd".repeat(31))),
        Err(Error::RemoteSigningFailure)
    );
}

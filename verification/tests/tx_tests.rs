use btc_drop_claims::address::p2pkh_script_from_address;
use btc_drop_claims::bitcoin_tx::{
    build_unsigned, finalize_signed, get_encoded_tx, get_tx, serialize_tx, signing_digest,
    MAX_SATOSHIS,
};
use btc_drop_claims::errors::Error;
use sha2::Digest;

use omni_transaction::bitcoin::BitcoinTransaction as OmniTx;
use omni_transaction::bitcoin::types::{
    Amount as OmniAmount, EcdsaSighashType, Hash as OmniHash, LockTime as OmniLockTime,
    OutPoint as OmniOutPoint, ScriptBuf as OmniScriptBuf, Sequence as OmniSequence,
    TxIn as OmniTxIn, TxOut as OmniTxOut, Txid as OmniTxid, Version as OmniVersion,
    Witness as OmniWitness,
};

fn make_address(version: u8, hash: &[u8; 20]) -> String {
    let mut payload = vec![version];
    payload.extend_from_slice(hash);
    base58ck::Base58CkString::encode(&payload)
        .unwrap()
        .as_str()
        .to_string()
}

fn funder() -> String {
    make_address(0x00, &[0x11u8; 20])
}

fn receiver() -> String {
    make_address(0x00, &[0x22u8; 20])
}

fn txid() -> String {
    "00112233445566778899aabbccddeeff00112233445566778899aabbccddeeff".to_string()
}

#[test]
fn amounts_at_the_supply_bound_succeed_and_above_fail() {
    let f = funder();
    let r = receiver();
    let over = MAX_SATOSHIS + 1;
    assert_eq!(
        get_tx(&txid(), 0, &f, &r, over, 0, None).err(),
        Some(Error::AmountOutOfRange)
    );
    assert_eq!(
        get_tx(&txid(), 0, &f, &r, 0, over, None).err(),
        Some(Error::AmountOutOfRange)
    );
    let tx = get_tx(&txid(), 0, &f, &r, MAX_SATOSHIS, MAX_SATOSHIS, None).unwrap();
    assert_eq!(tx.outputs[0].value, MAX_SATOSHIS as u64);
    assert_eq!(tx.outputs[1].value, MAX_SATOSHIS as u64);
}

#[test]
fn payload_of_160_hex_chars_succeeds_and_162_fails() {
    let f = funder();
    let r = receiver();
    let payload160 = "ab".repeat(80);
    let tx = build_unsigned(&txid(), 0, &f, &r, 1, 1, Some(&payload160)).unwrap();
    assert_eq!(tx.outputs.len(), 3);
    assert_eq!(tx.outputs[2].value, 0);
    assert_eq!(tx.outputs[2].script_pubkey.len(), 2 + 80);
    let payload162 = "ab".repeat(81);
    assert_eq!(
        build_unsigned(&txid(), 0, &f, &r, 1, 1, Some(&payload162)).err(),
        Some(Error::PayloadTooLarge)
    );
}

#[test]
fn payload_must_be_valid_hex() {
    let f = funder();
    let r = receiver();
    assert_eq!(
        build_unsigned(&txid(), 0, &f, &r, 1, 1, Some("xyz!")).err(),
        Some(Error::MalformedInput)
    );
    assert_eq!(
        build_unsigned(&txid(), 0, &f, &r, 1, 1, Some("abc")).err(),
        Some(Error::MalformedInput)
    );
}

#[test]
fn txid_must_be_64_hex_digits() {
    let f = funder();
    let r = receiver();
    assert_eq!(
        build_unsigned("zz", 0, &f, &r, 1, 1, None).err(),
        Some(Error::MalformedInput)
    );
    assert_eq!(
        build_unsigned("abcd", 0, &f, &r, 1, 1, None).err(),
        Some(Error::MalformedInput)
    );
}

#[test]
fn bad_addresses_are_invalid() {
    assert_eq!(
        build_unsigned(&txid(), 0, "nonsense", &receiver(), 1, 1, None).err(),
        Some(Error::InvalidAddress)
    );
    assert_eq!(
        build_unsigned(&txid(), 0, &funder(), "nonsense", 1, 1, None).err(),
        Some(Error::InvalidAddress)
    );
}

#[test]
fn two_output_scenario_and_stable_digest() {
    let f = funder();
    let r = receiver();
    let tx = build_unsigned(&txid(), 1, &f, &r, 100_000, 50_000, None).unwrap();
    assert_eq!(tx.version, 1);
    assert_eq!(tx.lock_time, 0);
    assert_eq!(tx.input.vout, 1);
    assert_eq!(tx.input.sequence, u32::MAX);
    assert_eq!(tx.outputs.len(), 2);
    assert_eq!(tx.outputs[0].value, 100_000);
    assert_eq!(
        tx.outputs[0].script_pubkey,
        p2pkh_script_from_address(&r).unwrap()
    );
    assert_eq!(tx.outputs[1].value, 50_000);
    assert_eq!(
        tx.outputs[1].script_pubkey,
        p2pkh_script_from_address(&f).unwrap()
    );
    // Repeated digests over the same transaction are identical.
    let d1 = signing_digest(&tx);
    let d2 = signing_digest(&tx);
    assert_eq!(d1, d2);
    assert_eq!(d1.len(), 32);
    // Rebuilding from the same inputs gives the same digest.
    let tx_again = build_unsigned(&txid(), 1, &f, &r, 100_000, 50_000, None).unwrap();
    assert_eq!(signing_digest(&tx_again), d1);
    // The finalized transaction's input script begins with a push of the
    // signature length.
    let sig = vec![0x5au8; 64];
    let pubkey_hash = vec![0x11u8; 20];
    let bytes = finalize_signed(&tx, &sig, &pubkey_hash);
    // version(4) input-count(1) txid(32) vout(4) -> script length at 41.
    assert_eq!(bytes[41], 1 + 64 + 1 + 20);
    assert_eq!(bytes[42], 64);
}

#[test]
fn digest_changes_when_an_amount_bit_flips() {
    let f = funder();
    let r = receiver();
    let a = build_unsigned(&txid(), 0, &f, &r, 100_000, 50_000, None).unwrap();
    let b = build_unsigned(&txid(), 0, &f, &r, 100_001, 50_000, None).unwrap();
    let c = build_unsigned(&txid(), 0, &f, &r, 100_000, 50_001, None).unwrap();
    assert_ne!(signing_digest(&a), signing_digest(&b));
    assert_ne!(signing_digest(&a), signing_digest(&c));
}

#[test]
fn op_return_script_embeds_the_payload_verbatim() {
    let f = funder();
    let r = receiver();
    let tx = build_unsigned(&txid(), 0, &f, &r, 10, 5, Some("deadbeef")).unwrap();
    assert_eq!(tx.outputs.len(), 3);
    assert_eq!(tx.outputs[2].value, 0);
    assert_eq!(
        tx.outputs[2].script_pubkey,
        vec![0x6au8, 0x04, 0xde, 0xad, 0xbe, 0xef]
    );
}

#[test]
fn digest_is_double_sha256_of_the_preimage() {
    let tx = build_unsigned(&txid(), 0, &funder(), &receiver(), 42, 7, None).unwrap();
    let preimage = get_encoded_tx(&tx);
    let expected = sha2::Sha256::digest(sha2::Sha256::digest(&preimage));
    assert_eq!(signing_digest(&tx).as_slice(), expected.as_slice());
}

#[test]
fn wire_format_matches_the_reference_encoder() {
    let f = funder();
    let r = receiver();
    let funder_script = p2pkh_script_from_address(&f).unwrap();
    let receiver_script = p2pkh_script_from_address(&r).unwrap();
    let tx = build_unsigned(&txid(), 3, &f, &r, 100_000, 50_000, Some("deadbeef")).unwrap();

    let omni = OmniTx {
        version: OmniVersion::One,
        lock_time: OmniLockTime::from_height(0).unwrap(),
        input: vec![OmniTxIn {
            previous_output: OmniOutPoint::new(
                OmniTxid(OmniHash::from_hex(&txid()).unwrap()),
                3,
            ),
            script_sig: OmniScriptBuf::from_bytes(funder_script.clone()),
            sequence: OmniSequence::MAX,
            witness: OmniWitness::default(),
        }],
        output: vec![
            OmniTxOut {
                value: OmniAmount::from_sat(100_000),
                script_pubkey: OmniScriptBuf::from_bytes(receiver_script),
            },
            OmniTxOut {
                value: OmniAmount::from_sat(50_000),
                script_pubkey: OmniScriptBuf::from_bytes(funder_script),
            },
            OmniTxOut {
                value: OmniAmount::from_sat(0),
                script_pubkey: OmniScriptBuf::from_bytes(vec![
                    0x6a, 0x04, 0xde, 0xad, 0xbe, 0xef,
                ]),
            },
        ],
    };
    assert_eq!(
        get_encoded_tx(&tx),
        omni.build_for_signing_legacy(EcdsaSighashType::All)
    );
    assert_eq!(serialize_tx(&tx), omni.serialize());
}

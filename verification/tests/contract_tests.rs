use btc_drop_claims::contract::Contract;
use btc_drop_claims::errors::Error;
use btc_drop_claims::external::{SerializableAffinePoint, SerializableScalar, SignatureResponse};
use btc_drop_claims::registry::ClaimKeyRegistry;

fn make_address(version: u8, hash: &[u8; 20]) -> String {
    let mut payload = vec![version];
    payload.extend_from_slice(hash);
    base58ck::Base58CkString::encode(&payload)
        .unwrap()
        .as_str()
        .to_string()
}

fn txid() -> String {
    "ff".repeat(32)
}

fn owner() -> String {
    String::from("operator.test")
}

fn good_response() -> SignatureResponse {
    SignatureResponse {
        big_r: SerializableAffinePoint {
            affine_point: format!("03{}", "11".repeat(32)),
        },
        s: SerializableScalar {
            scalar: "22".repeat(32),
        },
        recovery_id: 1,
    }
}

/// A contract with one campaign (id 0), one drop under `hash` and one
/// credential `key` bound to it.
fn seeded(amount: u128, aux: Option<String>) -> (Contract, String, String) {
    let mut c = Contract::init(owner(), "aa".repeat(32));
    let funding = make_address(0x00, &[0x11u8; 20]);
    let id = c.create_campaign(
        owner(),
        funding,
        String::from("m/0"),
        vec![String::from("term")],
        String::from("handle"),
        7,
    );
    assert_eq!(id, "0");
    let hash = String::from("drop-hash-1");
    c.add_drop(
        &owner(),
        0,
        amount,
        String::from("target"),
        String::from("tweet"),
        hash.clone(),
        aux,
    )
    .unwrap();
    let key = String::from("ed25519:claimkey1");
    assert_eq!(c.add_drop_key(&owner(), &hash, key.clone()), Ok(true));
    (c, hash, key)
}

#[test]
fn registry_lifecycle_second_bind_is_a_noop() {
    let mut reg = ClaimKeyRegistry::new();
    let k = String::from("key-a");
    assert!(reg.bind(k.clone(), String::from("d1")));
    assert!(!reg.bind(k.clone(), String::from("d2")));
    assert_eq!(reg.lookup(&k), Some(String::from("d1")));
    assert_eq!(reg.resolve_and_consume(&k), Ok(String::from("d1")));
    assert_eq!(reg.resolve_and_consume(&k), Err(Error::UnknownCredential));
    assert_eq!(reg.lookup(&k), None);
}

#[test]
fn registry_revoke_removes_the_binding() {
    let mut reg = ClaimKeyRegistry::new();
    assert!(!reg.revoke(&String::from("missing")));
    reg.bind(String::from("key-b"), String::from("d9"));
    assert!(reg.revoke(&String::from("key-b")));
    assert_eq!(reg.lookup(&String::from("key-b")), None);
}

#[test]
fn end_to_end_claim_produces_a_signed_transaction() {
    let (mut c, hash, key) = seeded(100_000, None);
    let receiver = make_address(0x00, &[0x22u8; 20]);
    let pending = c.claim(&key, &txid(), 0, &receiver, 50_000).unwrap();
    assert_eq!(pending.request.key_version, 0);
    assert_eq!(pending.request.path, "m/0");
    assert_eq!(pending.drop_hash, hash);
    assert_eq!(pending.tx.outputs.len(), 2);
    assert_eq!(pending.tx.outputs[0].value, 100_000);
    assert_eq!(pending.tx.outputs[1].value, 50_000);
    assert_eq!(pending.pubkey_hash, vec![0x11u8; 20]);
    // The credential is consumed before the signing round-trip returns.
    let again = c.claim(&key, &txid(), 0, &receiver, 50_000);
    assert!(matches!(again, Err(Error::UnknownCredential)));
    // The signer replies; the callback finalizes and marks the drop.
    let hex = c
        .callback(pending, Some(good_response()), String::from("alice"))
        .unwrap();
    let bytes = hex::decode(&hex).unwrap();
    // version(4) count(1) txid(32) vout(4): the input script starts with
    // its length, then a push of the 64-byte signature.
    assert_eq!(bytes[41], 1 + 64 + 1 + 20);
    assert_eq!(bytes[42], 64);
    let d = c.get_drop(&hash).unwrap();
    assert!(d.claimed);
    assert_eq!(d.claimed_by.as_deref(), Some("alice"));
}

#[test]
fn claim_with_auxiliary_payload_adds_marker_output() {
    let (mut c, _hash, key) = seeded(100_000, Some(String::from("deadbeef")));
    let receiver = make_address(0x00, &[0x22u8; 20]);
    let pending = c.claim(&key, &txid(), 0, &receiver, 0).unwrap();
    assert_eq!(pending.tx.outputs.len(), 3);
    assert_eq!(pending.tx.outputs[2].value, 0);
    assert_eq!(
        pending.tx.outputs[2].script_pubkey,
        vec![0x6au8, 0x04, 0xde, 0xad, 0xbe, 0xef]
    );
}

#[test]
fn remote_failure_burns_the_credential_but_not_the_drop() {
    let (mut c, hash, key) = seeded(9_000, None);
    let receiver = make_address(0x00, &[0x22u8; 20]);
    let pending = c.claim(&key, &txid(), 0, &receiver, 0).unwrap();
    let r = c.callback(pending, None, String::from("bob"));
    assert_eq!(r, Err(Error::RemoteSigningFailure));
    // Not finalized, not claimed — but the credential stays consumed.
    assert!(!c.get_drop(&hash).unwrap().claimed);
    assert!(matches!(
        c.claim(&key, &txid(), 0, &receiver, 0),
        Err(Error::UnknownCredential)
    ));
}

#[test]
fn malformed_signer_reply_is_a_remote_failure() {
    let (mut c, _hash, key) = seeded(9_000, None);
    let receiver = make_address(0x00, &[0x22u8; 20]);
    let pending = c.claim(&key, &txid(), 0, &receiver, 0).unwrap();
    let bad = SignatureResponse {
        big_r: SerializableAffinePoint {
            affine_point: String::from("zz"),
        },
        s: SerializableScalar {
            scalar: "22".repeat(32),
        },
        recovery_id: 0,
    };
    assert_eq!(
        c.callback(pending, Some(bad), String::from("bob")),
        Err(Error::RemoteSigningFailure)
    );
}

#[test]
fn claim_rejects_bad_inputs_before_consuming() {
    let (mut c, _hash, key) = seeded(100_000, None);
    let receiver = make_address(0x00, &[0x22u8; 20]);
    assert!(matches!(
        c.claim(&key, "zz", 0, &receiver, 0),
        Err(Error::MalformedInput)
    ));
    assert!(matches!(
        c.claim(&key, &txid(), 0, "junk", 0),
        Err(Error::InvalidAddress)
    ));
    assert!(matches!(
        c.claim(&key, &txid(), 0, &receiver, btc_drop_claims::bitcoin_tx::MAX_SATOSHIS + 1),
        Err(Error::AmountOutOfRange)
    ));
    // After all those rejections the credential is still usable.
    assert!(c.claim(&key, &txid(), 0, &receiver, 0).is_ok());
}

#[test]
fn revoked_credential_cannot_claim() {
    let (mut c, hash, key) = seeded(100_000, None);
    assert_eq!(c.remove_key(&owner(), &key), Ok(()));
    // Gone from the registry and from the drop's own list.
    assert!(c.get_keys(&hash).is_empty());
    let receiver = make_address(0x00, &[0x22u8; 20]);
    assert!(matches!(
        c.claim(&key, &txid(), 0, &receiver, 0),
        Err(Error::UnknownCredential)
    ));
}

#[test]
fn remove_key_requires_the_operator() {
    let (mut c, _hash, key) = seeded(1, None);
    assert_eq!(
        c.remove_key(&String::from("mallory"), &key),
        Err(Error::Unauthorized)
    );
}

#[test]
fn admin_checks_on_add_drop() {
    let mut c = Contract::init(owner(), "aa".repeat(32));
    let funding = make_address(0x00, &[0x11u8; 20]);
    c.create_campaign(
        owner(),
        funding,
        String::from("m/0"),
        vec![],
        String::from("h"),
        0,
    );
    let args = |hash: &str| {
        (
            0u128,
            5u128,
            String::from("t"),
            String::from("w"),
            String::from(hash),
        )
    };
    let (cid, amt, t, w, h) = args("d1");
    assert_eq!(
        c.add_drop(&String::from("mallory"), cid, amt, t, w, h, None),
        Err(Error::Unauthorized)
    );
    let (_, amt, t, w, h) = args("d1");
    assert_eq!(
        c.add_drop(&owner(), 77, amt, t, w, h, None),
        Err(Error::UnknownCampaign)
    );
    let (cid, amt, t, w, h) = args("d1");
    assert_eq!(c.add_drop(&owner(), cid, amt, t, w, h, None), Ok(()));
    let (cid, amt, t, w, h) = args("d1");
    assert_eq!(
        c.add_drop(&owner(), cid, amt, t, w, h, None),
        Err(Error::DuplicateDrop)
    );
    // The drop copied the campaign's funding address and path.
    let d = c.get_drop(&String::from("d1")).unwrap();
    assert_eq!(d.funder, make_address(0x00, &[0x11u8; 20]));
    assert_eq!(d.path, "m/0");
    assert!(!d.claimed);
}

#[test]
fn add_drop_key_checks_and_silent_rebind() {
    let (mut c, hash, key) = seeded(1, None);
    assert_eq!(
        c.add_drop_key(&String::from("mallory"), &hash, String::from("k2")),
        Err(Error::Unauthorized)
    );
    assert_eq!(
        c.add_drop_key(&owner(), &String::from("nope"), String::from("k2")),
        Err(Error::UnknownDrop)
    );
    // Re-binding the same credential is a silent no-op.
    assert_eq!(c.add_drop_key(&owner(), &hash, key.clone()), Ok(false));
    assert_eq!(c.get_keys(&hash), vec![key]);
}

#[test]
fn mark_claimed_is_exactly_once() {
    let (mut c, hash, _key) = seeded(1, None);
    assert_eq!(
        c.mark_claimed(&String::from("nope"), String::from("a")),
        Err(Error::UnknownDrop)
    );
    assert_eq!(c.mark_claimed(&hash, String::from("a")), Ok(()));
    assert_eq!(
        c.mark_claimed(&hash, String::from("b")),
        Err(Error::AlreadyClaimed)
    );
    assert_eq!(c.get_drop(&hash).unwrap().claimed_by.as_deref(), Some("a"));
}

#[test]
fn campaign_ids_increase_and_views_list_them() {
    let mut c = Contract::init(owner(), "aa".repeat(32));
    let a = make_address(0x00, &[0x01u8; 20]);
    let id0 = c.create_campaign(owner(), a.clone(), String::from("m/0"), vec![], String::from("x"), 1);
    let id1 = c.create_campaign(owner(), a, String::from("m/1"), vec![], String::from("y"), 2);
    assert_eq!(id0, "0");
    assert_eq!(id1, "1");
    assert_eq!(c.get_campaigns().len(), 2);
    let c0 = c.get_campaign(0).unwrap();
    assert_eq!(c0.path, "m/0");
    assert_eq!(c0.created_at, 1);
    assert!(c.get_campaign(9).is_none());
}

#[test]
fn campaign_drops_are_listed_by_campaign() {
    let mut c = Contract::init(owner(), "aa".repeat(32));
    let a = make_address(0x00, &[0x01u8; 20]);
    c.create_campaign(owner(), a.clone(), String::from("m/0"), vec![], String::from("x"), 1);
    c.create_campaign(owner(), a, String::from("m/1"), vec![], String::from("y"), 2);
    for (cid, h) in [(0u128, "h0"), (1u128, "h1"), (0u128, "h2")] {
        c.add_drop(
            &owner(),
            cid,
            1,
            String::from("t"),
            String::from("w"),
            String::from(h),
            None,
        )
        .unwrap();
    }
    assert_eq!(c.get_campaign_drops(0), vec!["h0".to_string(), "h2".to_string()]);
    assert_eq!(c.get_campaign_drops(1), vec!["h1".to_string()]);
    assert_eq!(c.get_all_drops().len(), 3);
}

#[test]
fn search_terms_belong_to_the_creator() {
    let mut c = Contract::init(owner(), "aa".repeat(32));
    let a = make_address(0x00, &[0x01u8; 20]);
    c.create_campaign(
        String::from("creator.test"),
        a,
        String::from("m/0"),
        vec![],
        String::from("x"),
        1,
    );
    assert_eq!(
        c.update_search_terms(&owner(), 0, vec![String::from("new")]),
        Err(Error::Unauthorized)
    );
    assert_eq!(
        c.update_search_terms(&String::from("creator.test"), 9, vec![]),
        Err(Error::UnknownCampaign)
    );
    assert_eq!(
        c.update_search_terms(&String::from("creator.test"), 0, vec![String::from("new")]),
        Ok(())
    );
    assert_eq!(c.get_campaign(0).unwrap().search_terms, vec!["new".to_string()]);
}

#[test]
fn auth_key_is_validated_hex() {
    let mut c = Contract::init(owner(), "aa".repeat(32));
    assert_eq!(c.get_auth_public_key(), "aa".repeat(32));
    assert_eq!(
        c.set_auth_public_key(&String::from("mallory"), "bb".repeat(32)),
        Err(Error::Unauthorized)
    );
    assert_eq!(
        c.set_auth_public_key(&owner(), String::from("short")),
        Err(Error::MalformedInput)
    );
    assert_eq!(c.set_auth_public_key(&owner(), "bb".repeat(32)), Ok(()));
    assert_eq!(c.get_auth_public_key(), "bb".repeat(32));
}

#[test]
fn delete_campaign_cascades_to_drops_and_credentials() {
    let (mut c, hash, key) = seeded(1, None);
    // A second campaign that must survive.
    let a = make_address(0x00, &[0x33u8; 20]);
    c.create_campaign(owner(), a, String::from("m/9"), vec![], String::from("z"), 3);
    c.add_drop(
        &owner(),
        1,
        2,
        String::from("t"),
        String::from("w"),
        String::from("other-drop"),
        None,
    )
    .unwrap();
    assert_eq!(
        c.delete_campaign(&String::from("mallory"), 0),
        Err(Error::Unauthorized)
    );
    assert_eq!(c.delete_campaign(&owner(), 42), Err(Error::UnknownCampaign));
    assert_eq!(c.delete_campaign(&owner(), 0), Ok(()));
    assert!(c.get_campaign(0).is_none());
    assert!(c.get_drop(&hash).is_none());
    assert!(c.get_campaign(1).is_some());
    assert!(c.get_drop(&String::from("other-drop")).is_some());
    // The credential bound to the deleted drop is gone too.
    let receiver = make_address(0x00, &[0x22u8; 20]);
    assert!(matches!(
        c.claim(&key, &txid(), 0, &receiver, 0),
        Err(Error::UnknownCredential)
    ));
}

#[test]
fn remove_drop_revokes_its_credentials() {
    let (mut c, hash, key) = seeded(1, None);
    assert_eq!(
        c.remove_drop(&String::from("mallory"), &hash),
        Err(Error::Unauthorized)
    );
    assert_eq!(
        c.remove_drop(&owner(), &String::from("nope")),
        Err(Error::UnknownDrop)
    );
    assert_eq!(c.remove_drop(&owner(), &hash), Ok(()));
    assert!(c.get_drop(&hash).is_none());
    let receiver = make_address(0x00, &[0x22u8; 20]);
    assert!(matches!(
        c.claim(&key, &txid(), 0, &receiver, 0),
        Err(Error::UnknownCredential)
    ));
}

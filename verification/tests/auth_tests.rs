use ed25519_dalek::Signer as _;
use ed25519_dalek::SigningKey;
use fatline_server::auth_layer::{
    authenticate, parse_auth_headers, truncated_hash, AuthRequest, AuthStatus,
};
use fatline_server::store::Store;
use fatline_server::user_models::Signer;
use fatline_server::user_repo::ReadThrough;

fn request(key_hex: &str, sig_hex: &str, ts: &str, extra_hex: Option<&str>) -> AuthRequest {
    AuthRequest {
        key_hex: key_hex.as_bytes().to_vec(),
        sig: sig_hex.as_bytes().to_vec(),
        timestamp: ts.as_bytes().to_vec(),
        extra_sig_data_hex: extra_hex.map(|e| e.as_bytes().to_vec()),
    }
}

/// A request whose signature covers the canonical message
/// `pk || ts || extra` under the hub-domain truncated hash.
fn signed_request(sk: &SigningKey, ts: &str, extra: Option<&[u8]>) -> AuthRequest {
    let pk = sk.verifying_key().to_bytes();
    let mut msg = pk.to_vec();
    msg.extend_from_slice(ts.as_bytes());
    if let Some(e) = extra {
        msg.extend_from_slice(e);
    }
    let digest = blake3::hash(&msg);
    let sig = sk.sign(&digest.as_bytes()[..20]);
    request(
        &hex::encode(pk),
        &hex::encode(sig.to_bytes()),
        ts,
        extra.map(hex::encode).as_deref(),
    )
}

fn store_with_signer(pk: Vec<u8>, fid: u64, active: bool) -> Store {
    let mut s = Store::new();
    s.insert_signer(Signer { pk, fid, active });
    s
}

#[test]
fn gate_accepts_a_well_signed_request() {
    let sk = SigningKey::from_bytes(&[7u8; 32]);
    let pk = sk.verifying_key().to_bytes().to_vec();
    let store = store_with_signer(pk.clone(), 1, true);
    let req = signed_request(&sk, "1700000000", None);
    match authenticate(&store, &req) {
        Ok((profile_read, signer)) => {
            assert_eq!(signer.pk, pk);
            assert_eq!(signer.fid, 1);
            // insert_signer created the placeholder user, so the profile
            // read is a hit on the empty row.
            match profile_read {
                ReadThrough::Hit(p) => {
                    assert_eq!(p.fid, 1);
                    assert_eq!(p.username, None);
                },
                ReadThrough::Fetch => panic!("fid 1 has a placeholder row"),
            }
        },
        Err(status) => panic!("a well-signed request is accepted, got {status:?}"),
    }
}

#[test]
fn gate_accepts_extra_data_bound_into_the_message() {
    let sk = SigningKey::from_bytes(&[9u8; 32]);
    let pk = sk.verifying_key().to_bytes().to_vec();
    let store = store_with_signer(pk, 2, true);
    let req = signed_request(&sk, "1700000001", Some(&[0xde, 0xad]));
    assert!(authenticate(&store, &req).is_ok());
}

#[test]
fn gate_rejects_forged_signature() {
    // Valid key, active signer, but the signature does not verify: the
    // request is rejected and no identity is attached.
    let sk = SigningKey::from_bytes(&[7u8; 32]);
    let pk = sk.verifying_key().to_bytes().to_vec();
    let store = store_with_signer(pk, 1, true);
    let mut req = signed_request(&sk, "1700000000", None);
    // Flip one hex digit of the signature.
    req.sig[10] = if req.sig[10] == b'0' { b'1' } else { b'0' };
    assert_eq!(authenticate(&store, &req), Err(AuthStatus::Unauthorized));
}

#[test]
fn gate_rejects_tampered_extra_data() {
    let sk = SigningKey::from_bytes(&[9u8; 32]);
    let pk = sk.verifying_key().to_bytes().to_vec();
    let store = store_with_signer(pk, 2, true);
    let mut req = signed_request(&sk, "1700000001", Some(&[0xde, 0xad]));
    req.extra_sig_data_hex = Some(b"beef".to_vec());
    assert_eq!(authenticate(&store, &req), Err(AuthStatus::Unauthorized));
}

#[test]
fn gate_rejects_tampered_timestamp() {
    let sk = SigningKey::from_bytes(&[7u8; 32]);
    let pk = sk.verifying_key().to_bytes().to_vec();
    let store = store_with_signer(pk, 1, true);
    let mut req = signed_request(&sk, "1700000000", None);
    req.timestamp = b"1700000001".to_vec();
    assert_eq!(authenticate(&store, &req), Err(AuthStatus::Unauthorized));
}

#[test]
fn gate_rejects_unknown_signer() {
    let sk = SigningKey::from_bytes(&[7u8; 32]);
    let store = Store::new();
    let req = signed_request(&sk, "1700000000", None);
    assert_eq!(authenticate(&store, &req), Err(AuthStatus::NotFound));
}

#[test]
fn gate_rejects_revoked_signer() {
    let sk = SigningKey::from_bytes(&[7u8; 32]);
    let pk = sk.verifying_key().to_bytes().to_vec();
    let store = store_with_signer(pk, 1, false);
    let req = signed_request(&sk, "1700000000", None);
    assert_eq!(authenticate(&store, &req), Err(AuthStatus::Unauthorized));
}

#[test]
fn gate_reports_unparseable_key_as_internal() {
    // A registered key whose 32 bytes do not decode as a verifying key
    // makes the verifier fail rather than return a verdict.
    let bad_key: Vec<u8> = (0u8..=255)
        .map(|n| {
            let mut k = [0u8; 32];
            k[0] = n;
            k
        })
        .find(|k| ed25519_dalek::VerifyingKey::from_bytes(k).is_err())
        .expect("some single-byte pattern is not a curve point")
        .to_vec();
    let store = store_with_signer(bad_key.clone(), 1, true);
    let req = request(&hex::encode(&bad_key), &hex::encode([0u8; 64]), "1700000000", None);
    assert_eq!(authenticate(&store, &req), Err(AuthStatus::Internal));
}

#[test]
fn gate_rejects_malformed_headers() {
    let good_key = hex::encode([1u8; 32]);
    let good_sig = hex::encode([2u8; 64]);
    // Odd-length hex.
    assert_eq!(
        authenticate(&Store::new(), &request(&good_key, "abc", "17", None)),
        Err(AuthStatus::BadRequest)
    );
    // Non-hex digit.
    assert_eq!(
        authenticate(&Store::new(), &request("zz", &good_sig, "17", None)),
        Err(AuthStatus::BadRequest)
    );
    // Wrong decoded lengths.
    assert_eq!(
        authenticate(&Store::new(), &request("ab", &good_sig, "17", None)),
        Err(AuthStatus::BadRequest)
    );
    assert_eq!(
        authenticate(&Store::new(), &request(&good_key, "ab", "17", None)),
        Err(AuthStatus::BadRequest)
    );
    // Bad timestamps.
    assert_eq!(
        authenticate(&Store::new(), &request(&good_key, &good_sig, "", None)),
        Err(AuthStatus::BadRequest)
    );
    assert_eq!(
        authenticate(&Store::new(), &request(&good_key, &good_sig, "12a", None)),
        Err(AuthStatus::BadRequest)
    );
    assert_eq!(
        authenticate(&Store::new(), &request(&good_key, &good_sig, "-1", None)),
        Err(AuthStatus::BadRequest)
    );
    // Bad extra data.
    assert_eq!(
        authenticate(&Store::new(), &request(&good_key, &good_sig, "17", Some("abc"))),
        Err(AuthStatus::BadRequest)
    );
}

#[test]
fn parse_decodes_headers_exactly() {
    let key_bytes = [0xA5u8; 32];
    let sig_bytes = [0x5Au8; 64];
    // Mixed-case hex decodes too.
    let req = request(
        &hex::encode_upper(key_bytes),
        &hex::encode(sig_bytes),
        "0042",
        Some("BEef"),
    );
    let parsed = parse_auth_headers(&req).expect("well-formed headers parse");
    assert_eq!(parsed.pub_key, key_bytes.to_vec());
    assert_eq!(parsed.sig, sig_bytes.to_vec());
    // Leading zeros are kept in the signed bytes but not the value.
    assert_eq!(parsed.timestamp, 42);
    let mut expected_msg = key_bytes.to_vec();
    expected_msg.extend_from_slice(b"0042");
    expected_msg.extend_from_slice(&[0xBE, 0xEF]);
    assert_eq!(parsed.msg, expected_msg);
}

#[test]
fn parse_bounds_the_timestamp_at_u64() {
    let key_hex = hex::encode([1u8; 32]);
    let sig_hex = hex::encode([2u8; 64]);
    let max = parse_auth_headers(&request(&key_hex, &sig_hex, "18446744073709551615", None))
        .expect("u64::MAX parses");
    assert_eq!(max.timestamp, u64::MAX);
    assert!(parse_auth_headers(&request(&key_hex, &sig_hex, "18446744073709551616", None))
        .is_none());
}

#[test]
fn truncated_hash_is_the_first_twenty_blake3_bytes() {
    let data = b"fatline canonical message".to_vec();
    let ours = truncated_hash(&data);
    let theirs = blake3::hash(&data);
    assert_eq!(ours.as_slice(), &theirs.as_bytes()[..20]);
    assert_eq!(ours.len(), 20);
}

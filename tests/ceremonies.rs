use std::collections::BTreeMap;

use p256::ecdsa::signature::Signer;
use serde_cbor::Value;
use sha2::Digest;
use webauthn::{
    check_counter, decode_base64url, encode_base64url, validate_client_data, Attestation,
    AuthenticatorAssertionResponse, ClientData, CoseKey, CredentialsResponse, DecodedAuthData,
    LoginRequest, RegisterRequest, WebAuthn, WebAuthnError,
};

const RP: &str = "example.com";
const ORIGIN: &str = "https://example.com";
const CRED_ID: [u8; 4] = [9, 8, 7, 6];

fn signing_key() -> p256::ecdsa::SigningKey {
    p256::ecdsa::SigningKey::from_slice(&[7u8; 32]).unwrap()
}

fn ec_coordinates() -> (Vec<u8>, Vec<u8>) {
    let point = signing_key().verifying_key().to_encoded_point(false);
    (point.x().unwrap().to_vec(), point.y().unwrap().to_vec())
}

fn cbor_map(entries: Vec<(Value, Value)>) -> Vec<u8> {
    let mut m = BTreeMap::new();
    for (k, v) in entries {
        m.insert(k, v);
    }
    serde_cbor::to_vec(&Value::Map(m)).unwrap()
}

fn es256_cose_key() -> Vec<u8> {
    let (x, y) = ec_coordinates();
    cbor_map(vec![
        (Value::Integer(1), Value::Integer(2)),
        (Value::Integer(3), Value::Integer(-7)),
        (Value::Integer(-1), Value::Integer(1)),
        (Value::Integer(-2), Value::Bytes(x)),
        (Value::Integer(-3), Value::Bytes(y)),
    ])
}

fn rp_hash() -> Vec<u8> {
    sha2::Sha256::digest(RP.as_bytes()).to_vec()
}

fn header(flags: u8, counter: u32) -> Vec<u8> {
    let mut v = rp_hash();
    v.push(flags);
    v.extend_from_slice(&counter.to_be_bytes());
    v
}

fn registration_auth_data(counter: u32) -> Vec<u8> {
    let mut v = header(0x41, counter);
    v.extend_from_slice(&[0xaa; 16]);
    v.extend_from_slice(&(CRED_ID.len() as u16).to_be_bytes());
    v.extend_from_slice(&CRED_ID);
    v.extend_from_slice(&es256_cose_key());
    v
}

fn attestation_object(fmt: &str, auth_data: Vec<u8>) -> Vec<u8> {
    cbor_map(vec![
        (Value::Text("fmt".to_string()), Value::Text(fmt.to_string())),
        (Value::Text("attStmt".to_string()), Value::Map(BTreeMap::new())),
        (Value::Text("authData".to_string()), Value::Bytes(auth_data)),
    ])
}

fn client_data_json(type_: &str, challenge: &[u8], origin: &str) -> Vec<u8> {
    format!(
        "{{\"type\":\"{}\",\"challenge\":\"{}\",\"origin\":\"{}\"}}",
        type_,
        encode_base64url(challenge),
        origin
    )
    .into_bytes()
}

fn register_request(att: &[u8], cdj: &[u8]) -> RegisterRequest {
    RegisterRequest {
        id: encode_base64url(&CRED_ID),
        raw_id: encode_base64url(&CRED_ID),
        response: CredentialsResponse {
            attestation_object: encode_base64url(att),
            client_data_json: encode_base64url(cdj),
        },
        type_: "public-key".to_string(),
    }
}

fn login_request(auth: &[u8], cdj: &[u8], sig: &[u8]) -> LoginRequest {
    LoginRequest {
        credential_id: encode_base64url(&CRED_ID),
        response: AuthenticatorAssertionResponse {
            authenticator_data: encode_base64url(auth),
            client_data_json: encode_base64url(cdj),
            signature: encode_base64url(sig),
        },
    }
}

fn sign(auth: &[u8], cdj: &[u8]) -> Vec<u8> {
    let mut msg = auth.to_vec();
    msg.extend_from_slice(&sha2::Sha256::digest(cdj));
    let sig: p256::ecdsa::Signature = signing_key().sign(&msg);
    sig.to_der().as_bytes().to_vec()
}

fn alice() -> String {
    "alice".to_string()
}

fn registered(counter: u32) -> WebAuthn {
    let mut w = WebAuthn::new(RP.to_string());
    let c = w.generate_challenge(alice(), 1000);
    let cdj = client_data_json("webauthn.create", &c.bytes, ORIGIN);
    let att = attestation_object("none", registration_auth_data(counter));
    w.register(&alice(), &register_request(&att, &cdj), 1001).unwrap();
    w
}

fn login(w: &mut WebAuthn, flags: u8, counter: u32, now: u64) -> Result<(), WebAuthnError> {
    let c = w.generate_challenge(alice(), now);
    let cdj = client_data_json("webauthn.get", &c.bytes, ORIGIN);
    let auth = header(flags, counter);
    let sig = sign(&auth, &cdj);
    w.verify(&alice(), &login_request(&auth, &cdj, &sig), now + 1)
}

#[test]
fn base64url_round_trip_sizes() {
    for n in [0usize, 1, 16, 32, 255] {
        let bytes: Vec<u8> = (0..n).map(|i| (i * 37 + 11) as u8).collect();
        let text = encode_base64url(&bytes);
        assert!(!text.contains('='));
        assert_eq!(decode_base64url(&text), Some(bytes));
    }
}

#[test]
fn base64url_known_values() {
    assert_eq!(encode_base64url(&[0xfb, 0xff]), "-_8");
    assert_eq!(decode_base64url("AQ=="), Some(vec![1]));
    assert_eq!(decode_base64url("AQ"), Some(vec![1]));
    assert_eq!(decode_base64url("!!"), None);
}

#[test]
fn short_auth_data_is_malformed() {
    for n in 0..37 {
        let v = vec![0u8; n];
        assert_eq!(DecodedAuthData::parse(&v).unwrap_err(), WebAuthnError::MalformedInput);
    }
}

#[test]
fn auth_data_header_fields() {
    let v = header(0x85, 258);
    let d = DecodedAuthData::parse(&v).unwrap();
    let again = DecodedAuthData::parse(&v).unwrap();
    assert_eq!(d.rpid_hash, rp_hash());
    assert!(d.user_present);
    assert!(d.user_verified);
    assert!(!d.attested_credential_data_included);
    assert!(d.extension_data_included);
    assert_eq!(d.counter, 258);
    assert!(d.attested_credential_data.is_none());
    assert_eq!(again.counter, d.counter);
    assert_eq!(again.rpid_hash, d.rpid_hash);
    assert_eq!(again.user_present, d.user_present);
}

#[test]
fn auth_data_attested_credential() {
    let v = registration_auth_data(3);
    let d = DecodedAuthData::parse(&v).unwrap();
    assert!(d.attested_credential_data_included);
    let a = d.attested_credential_data.unwrap();
    assert_eq!(a.aaguid, vec![0xaa; 16]);
    assert_eq!(a.credentialid_length, 4);
    assert_eq!(a.credentialid, CRED_ID.to_vec());
    assert_eq!(a.credential_public_key, es256_cose_key());
}

#[test]
fn auth_data_length_overrun_is_malformed() {
    let mut v = header(0x41, 0);
    v.extend_from_slice(&[0; 16]);
    v.extend_from_slice(&[0, 10]);
    v.extend_from_slice(&[1, 2, 3]);
    assert_eq!(DecodedAuthData::parse(&v).unwrap_err(), WebAuthnError::MalformedInput);
}

#[test]
fn cose_es256_key_decodes() {
    let (x, y) = ec_coordinates();
    match CoseKey::decode(&es256_cose_key()).unwrap() {
        CoseKey::Es256 { x: kx, y: ky } => {
            assert_eq!(kx, x);
            assert_eq!(ky, y);
        }
        _ => panic!("wrong key kind"),
    }
}

#[test]
fn cose_ed25519_key_decodes() {
    let doc = cbor_map(vec![
        (Value::Integer(1), Value::Integer(1)),
        (Value::Integer(3), Value::Integer(-8)),
        (Value::Integer(-1), Value::Integer(6)),
        (Value::Integer(-2), Value::Bytes(vec![5; 32])),
    ]);
    match CoseKey::decode(&doc).unwrap() {
        CoseKey::Ed25519 { x } => assert_eq!(x, vec![5; 32]),
        _ => panic!("wrong key kind"),
    }
}

#[test]
fn cose_rsa_key_is_unsupported() {
    let doc = cbor_map(vec![
        (Value::Integer(1), Value::Integer(3)),
        (Value::Integer(3), Value::Integer(-257)),
    ]);
    assert_eq!(CoseKey::decode(&doc).unwrap_err(), WebAuthnError::UnsupportedAlgorithm);
}

#[test]
fn cose_bad_keys_are_malformed() {
    let short_x = cbor_map(vec![
        (Value::Integer(1), Value::Integer(2)),
        (Value::Integer(3), Value::Integer(-7)),
        (Value::Integer(-1), Value::Integer(1)),
        (Value::Integer(-2), Value::Bytes(vec![1; 31])),
        (Value::Integer(-3), Value::Bytes(vec![1; 32])),
    ]);
    assert_eq!(CoseKey::decode(&short_x).unwrap_err(), WebAuthnError::MalformedInput);
    assert_eq!(CoseKey::decode(&[0xff, 0x00]).unwrap_err(), WebAuthnError::MalformedInput);
}

#[test]
fn attestation_object_decodes() {
    let a = Attestation::decode(&attestation_object("none", vec![1, 2])).unwrap();
    assert_eq!(a.fmt, "none");
    assert_eq!(a.auth_data, vec![1, 2]);
    assert_eq!(Attestation::decode(&[1, 2, 3]).unwrap_err(), WebAuthnError::MalformedInput);
}

#[test]
fn client_data_parses_fields() {
    let cd = ClientData::parse(&client_data_json("webauthn.get", &[1, 2], ORIGIN)).unwrap();
    assert_eq!(cd.type_, "webauthn.get");
    assert_eq!(cd.challenge, "AQI");
    assert_eq!(cd.origin, ORIGIN);
    assert_eq!(ClientData::parse(b"not json").unwrap_err(), WebAuthnError::MalformedInput);
    assert_eq!(ClientData::parse(b"{\"type\":1}").unwrap_err(), WebAuthnError::MalformedInput);
}

#[test]
fn client_data_checks_in_order() {
    let ok = client_data_json("webauthn.create", &[1, 2, 3], ORIGIN);
    assert_eq!(validate_client_data(&ok, "webauthn.create", ORIGIN, &[1, 2, 3]), Ok(()));
    assert_eq!(
        validate_client_data(&ok, "webauthn.get", ORIGIN, &[1, 2, 3]),
        Err(WebAuthnError::TypeMismatch)
    );
    assert_eq!(
        validate_client_data(&ok, "webauthn.create", ORIGIN, &[1, 2, 4]),
        Err(WebAuthnError::ChallengeMismatch)
    );
    let evil = client_data_json("webauthn.create", &[1, 2, 3], "https://evil.com");
    assert_eq!(
        validate_client_data(&evil, "webauthn.create", ORIGIN, &[1, 2, 3]),
        Err(WebAuthnError::OriginMismatch)
    );
}

#[test]
fn challenge_consumed_exactly_once() {
    let mut w = WebAuthn::new(RP.to_string());
    let c = w.issue_challenge(alice(), vec![3; 32], 50);
    assert_eq!(c.bytes, vec![3; 32]);
    assert_eq!(c.issued_at, 50);
    assert_eq!(w.consume_challenge(&alice(), &[3; 32], 50), Ok(()));
    assert_eq!(w.consume_challenge(&alice(), &[3; 32], 50), Err(WebAuthnError::ChallengeNotFound));
}

#[test]
fn challenge_one_bit_off_mismatches() {
    for bit in [0usize, 7, 100, 255] {
        let mut w = WebAuthn::new(RP.to_string());
        let c = w.generate_challenge(alice(), 10);
        let mut presented = c.bytes.clone();
        presented[bit / 8] ^= 1 << (bit % 8);
        assert_eq!(w.consume_challenge(&alice(), &presented, 10), Err(WebAuthnError::ChallengeMismatch));
    }
}

#[test]
fn challenge_expires_after_ttl() {
    let mut w = WebAuthn::with_config(RP.to_string(), ORIGIN.to_string(), 60, false);
    w.issue_challenge(alice(), vec![1; 16], 100);
    assert_eq!(w.consume_challenge(&alice(), &[1; 16], 161), Err(WebAuthnError::ChallengeExpired));
    w.issue_challenge(alice(), vec![1; 16], 100);
    assert_eq!(w.consume_challenge(&alice(), &[1; 16], 160), Ok(()));
}

#[test]
fn new_challenge_replaces_pending_one() {
    let mut w = WebAuthn::new(RP.to_string());
    let first = w.generate_challenge(alice(), 1);
    let second = w.generate_challenge(alice(), 2);
    assert_eq!(first.bytes.len(), 32);
    assert_eq!(second.bytes.len(), 32);
    assert_ne!(first.bytes, second.bytes);
    assert_eq!(w.consume_challenge(&alice(), &first.bytes, 2), Err(WebAuthnError::ChallengeMismatch));
    assert_eq!(w.consume_challenge(&alice(), &second.bytes, 2), Err(WebAuthnError::ChallengeNotFound));
}

#[test]
fn counter_check_rules() {
    assert_eq!(check_counter(5, 5), Err(WebAuthnError::CounterReplay));
    assert_eq!(check_counter(5, 4), Err(WebAuthnError::CounterReplay));
    assert_eq!(check_counter(5, 6), Ok(()));
    assert_eq!(check_counter(0, 0), Ok(()));
    assert_eq!(check_counter(5, 0), Ok(()));
    assert_eq!(check_counter(0, 9), Ok(()));
}

#[test]
fn relying_party_and_origin() {
    let w = WebAuthn::new(RP.to_string());
    assert_eq!(w.relying_party(), RP);
    assert_eq!(w.origin(), ORIGIN);
}

#[test]
fn scenario_register_none_attestation() {
    let w = registered(0);
    let creds = w.get_credentials(alice());
    assert_eq!(creds.len(), 1);
    assert_eq!(creds[0].id, CRED_ID.to_vec());
    assert_eq!(creds[0].counter, 0);
    assert_eq!(creds[0].username, "alice");
    let (x, y) = ec_coordinates();
    match &creds[0].public_key {
        CoseKey::Es256 { x: kx, y: ky } => {
            assert_eq!(*kx, x);
            assert_eq!(*ky, y);
        }
        _ => panic!("wrong key kind"),
    }
    assert!(w.get_credentials("bob".to_string()).is_empty());
}

#[test]
fn scenario_replayed_attestation_fails() {
    let mut w = WebAuthn::new(RP.to_string());
    let c = w.generate_challenge(alice(), 1000);
    let cdj = client_data_json("webauthn.create", &c.bytes, ORIGIN);
    let att = attestation_object("none", registration_auth_data(0));
    let req = register_request(&att, &cdj);
    assert!(w.register(&alice(), &req, 1001).is_ok());
    assert_eq!(w.register(&alice(), &req, 1002).unwrap_err(), WebAuthnError::ChallengeNotFound);
    assert_eq!(w.get_credentials(alice()).len(), 1);
}

#[test]
fn scenario_login_counter_replay_then_increase() {
    let mut w = registered(5);
    assert_eq!(login(&mut w, 0x01, 5, 2000), Err(WebAuthnError::CounterReplay));
    assert_eq!(w.get_credentials(alice())[0].counter, 5);
    assert_eq!(login(&mut w, 0x01, 6, 2100), Ok(()));
    assert_eq!(w.get_credentials(alice())[0].counter, 6);
}

#[test]
fn scenario_foreign_origin_rejected() {
    let mut w = WebAuthn::new(RP.to_string());
    let c = w.generate_challenge(alice(), 1000);
    let cdj = client_data_json("webauthn.create", &c.bytes, "https://evil.com");
    let att = attestation_object("none", registration_auth_data(0));
    let r = w.register(&alice(), &register_request(&att, &cdj), 1001);
    assert_eq!(r.unwrap_err(), WebAuthnError::OriginMismatch);
    assert!(w.get_credentials(alice()).is_empty());

    let mut w = registered(1);
    let c = w.generate_challenge(alice(), 3000);
    let cdj = client_data_json("webauthn.get", &c.bytes, "https://evil.com");
    let auth = header(0x01, 2);
    let sig = sign(&auth, &cdj);
    let r = w.verify(&alice(), &login_request(&auth, &cdj, &sig), 3001);
    assert_eq!(r, Err(WebAuthnError::OriginMismatch));
}

#[test]
fn register_rejects_wrong_type_and_format() {
    let mut w = WebAuthn::new(RP.to_string());
    let c = w.generate_challenge(alice(), 1000);
    let cdj = client_data_json("webauthn.get", &c.bytes, ORIGIN);
    let att = attestation_object("none", registration_auth_data(0));
    assert_eq!(w.register(&alice(), &register_request(&att, &cdj), 1001).unwrap_err(), WebAuthnError::TypeMismatch);

    let c = w.generate_challenge(alice(), 1000);
    let cdj = client_data_json("webauthn.create", &c.bytes, ORIGIN);
    let att = attestation_object("packed", registration_auth_data(0));
    assert_eq!(
        w.register(&alice(), &register_request(&att, &cdj), 1001).unwrap_err(),
        WebAuthnError::UnsupportedAlgorithm
    );

    let c = w.generate_challenge(alice(), 1000);
    let cdj = client_data_json("webauthn.create", &c.bytes, ORIGIN);
    let att = attestation_object("none", header(0x01, 0));
    assert_eq!(w.register(&alice(), &register_request(&att, &cdj), 1001).unwrap_err(), WebAuthnError::MalformedInput);
    assert!(w.get_credentials(alice()).is_empty());
}

#[test]
fn register_rejects_other_relying_party() {
    let mut w = WebAuthn::new("other.org".to_string());
    let c = w.generate_challenge(alice(), 1000);
    let cdj = client_data_json("webauthn.create", &c.bytes, "https://other.org");
    let att = attestation_object("none", registration_auth_data(0));
    assert_eq!(w.register(&alice(), &register_request(&att, &cdj), 1001).unwrap_err(), WebAuthnError::OriginMismatch);
}

#[test]
fn register_rejects_bad_base64_and_missing_challenge() {
    let mut w = WebAuthn::new(RP.to_string());
    let mut req = register_request(&attestation_object("none", registration_auth_data(0)), b"{}");
    req.raw_id = "***".to_string();
    assert_eq!(w.register(&alice(), &req, 1).unwrap_err(), WebAuthnError::MalformedInput);
    let cdj = client_data_json("webauthn.create", &[1; 32], ORIGIN);
    let req = register_request(&attestation_object("none", registration_auth_data(0)), &cdj);
    assert_eq!(w.register(&alice(), &req, 1).unwrap_err(), WebAuthnError::ChallengeNotFound);
}

#[test]
fn login_rejects_bad_signature() {
    let mut w = registered(1);
    let c = w.generate_challenge(alice(), 2000);
    let cdj = client_data_json("webauthn.get", &c.bytes, ORIGIN);
    let auth = header(0x01, 2);
    let mut sig = sign(&auth, &cdj);
    let last = sig.len() - 1;
    sig[last] ^= 1;
    let r = w.verify(&alice(), &login_request(&auth, &cdj, &sig), 2001);
    assert_eq!(r, Err(WebAuthnError::SignatureInvalid));
    assert_eq!(w.get_credentials(alice())[0].counter, 1);
}

#[test]
fn login_requires_user_presence() {
    let mut w = registered(1);
    assert_eq!(login(&mut w, 0x00, 2, 2000), Err(WebAuthnError::PolicyViolation));
}

#[test]
fn login_requires_verification_when_configured() {
    let mut w = WebAuthn::with_config(RP.to_string(), ORIGIN.to_string(), 300, true);
    let c = w.generate_challenge(alice(), 1000);
    let cdj = client_data_json("webauthn.create", &c.bytes, ORIGIN);
    let att = attestation_object("none", registration_auth_data(0));
    w.register(&alice(), &register_request(&att, &cdj), 1001).unwrap();
    assert_eq!(login(&mut w, 0x01, 0, 2000), Err(WebAuthnError::PolicyViolation));
    assert_eq!(login(&mut w, 0x05, 0, 2000), Ok(()));
}

#[test]
fn login_unknown_credential() {
    let mut w = registered(0);
    let req = login_request(&header(0x01, 1), b"{}", &[1]);
    assert_eq!(w.verify(&"bob".to_string(), &req, 5), Err(WebAuthnError::UnknownCredential));
}

#[test]
fn login_zero_counter_skips_check() {
    let mut w = registered(0);
    assert_eq!(login(&mut w, 0x01, 0, 2000), Ok(()));
    assert_eq!(login(&mut w, 0x01, 0, 2100), Ok(()));
}

#[test]
fn login_zero_counter_keeps_stored_value() {
    let mut w = registered(5);
    assert_eq!(login(&mut w, 0x01, 0, 2000), Ok(()));
    assert_eq!(w.get_credentials(alice())[0].counter, 5);
    assert_eq!(login(&mut w, 0x01, 9, 2100), Ok(()));
    assert_eq!(w.get_credentials(alice())[0].counter, 9);
}

#[test]
fn credentials_listed_in_registration_order() {
    let mut w = registered(0);
    let c = w.generate_challenge("bob".to_string(), 1000);
    let cdj = client_data_json("webauthn.create", &c.bytes, ORIGIN);
    let mut req = register_request(&attestation_object("none", registration_auth_data(0)), &cdj);
    req.raw_id = encode_base64url(&[1, 1]);
    w.register(&"bob".to_string(), &req, 1001).unwrap();
    let c = w.generate_challenge(alice(), 1000);
    let cdj = client_data_json("webauthn.create", &c.bytes, ORIGIN);
    let mut req = register_request(&attestation_object("none", registration_auth_data(3)), &cdj);
    req.raw_id = encode_base64url(&[2, 2]);
    w.register(&alice(), &req, 1001).unwrap();
    let mine = w.get_credentials(alice());
    assert_eq!(mine.len(), 2);
    assert_eq!(mine[0].id, CRED_ID.to_vec());
    assert_eq!(mine[1].id, vec![2, 2]);
    assert_eq!(mine[1].counter, 3);
    assert_eq!(w.get_credentials("bob".to_string())[0].id, vec![1, 1]);
}

#[test]
fn register_with_extension_data_after_key() {
    let mut w = WebAuthn::new(RP.to_string());
    let c = w.generate_challenge(alice(), 1000);
    let cdj = client_data_json("webauthn.create", &c.bytes, ORIGIN);
    let mut auth = registration_auth_data(2);
    auth[32] = 0xc1;
    auth.extend_from_slice(&cbor_map(vec![(Value::Text("credProtect".to_string()), Value::Integer(1))]));
    let att = attestation_object("none", auth);
    let cred = w.register(&alice(), &register_request(&att, &cdj), 1001).unwrap();
    assert_eq!(cred.counter, 2);
    assert_eq!(cred.id, CRED_ID.to_vec());
}

#[test]
fn cose_other_curve_is_unsupported() {
    let (x, y) = ec_coordinates();
    let doc = cbor_map(vec![
        (Value::Integer(1), Value::Integer(2)),
        (Value::Integer(3), Value::Integer(-7)),
        (Value::Integer(-1), Value::Integer(6)),
        (Value::Integer(-2), Value::Bytes(x)),
        (Value::Integer(-3), Value::Bytes(y)),
    ]);
    assert_eq!(CoseKey::decode(&doc).unwrap_err(), WebAuthnError::UnsupportedAlgorithm);
    let doc = cbor_map(vec![
        (Value::Integer(1), Value::Integer(1)),
        (Value::Integer(3), Value::Integer(-8)),
        (Value::Integer(-1), Value::Integer(1)),
        (Value::Integer(-2), Value::Bytes(vec![5; 32])),
    ]);
    assert_eq!(CoseKey::decode(&doc).unwrap_err(), WebAuthnError::UnsupportedAlgorithm);
    let doc = cbor_map(vec![
        (Value::Integer(1), Value::Integer(1)),
        (Value::Integer(3), Value::Integer(-8)),
        (Value::Integer(-2), Value::Bytes(vec![5; 32])),
    ]);
    assert_eq!(CoseKey::decode(&doc).unwrap_err(), WebAuthnError::MalformedInput);
}

#[test]
fn malformed_attestation_object_keeps_challenge() {
    let mut w = WebAuthn::new(RP.to_string());
    let c = w.generate_challenge(alice(), 1000);
    let cdj = client_data_json("webauthn.create", &c.bytes, ORIGIN);
    let req = register_request(&[1, 2, 3], &cdj);
    assert_eq!(w.register(&alice(), &req, 1001).unwrap_err(), WebAuthnError::MalformedInput);
    assert_eq!(w.consume_challenge(&alice(), &c.bytes, 1002), Ok(()));

    let mut w = WebAuthn::new(RP.to_string());
    let req = register_request(&[1, 2, 3], &cdj);
    assert_eq!(w.register(&alice(), &req, 1001).unwrap_err(), WebAuthnError::MalformedInput);
}

#[test]
fn bad_client_data_consumes_challenge() {
    let mut w = WebAuthn::new(RP.to_string());
    let c = w.generate_challenge(alice(), 1000);
    let att = attestation_object("none", registration_auth_data(0));
    let req = register_request(&att, b"not json");
    assert_eq!(w.register(&alice(), &req, 1001).unwrap_err(), WebAuthnError::MalformedInput);
    assert_eq!(w.consume_challenge(&alice(), &c.bytes, 1002), Err(WebAuthnError::ChallengeNotFound));
}

#[test]
fn issued_challenge_encoding() {
    let mut w = WebAuthn::new(RP.to_string());
    let c = w.generate_challenge(alice(), 1);
    let text = c.encoded();
    assert_eq!(text.len(), 43);
    assert!(text.chars().all(|ch| ch.is_ascii_alphanumeric() || ch == '-' || ch == '_'));
    assert_eq!(decode_base64url(&text), Some(c.bytes.clone()));
}

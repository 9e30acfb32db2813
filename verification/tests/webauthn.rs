use ciborium::value::{Integer, Value as Cbor};
use p256::ecdsa::signature::Signer;
use p256::ecdsa::{Signature, SigningKey};
use sha2::{Digest, Sha256};

use okr_tracker::webauthn::{b64url_decode, b64url_encode, verify_assertion, verify_registration};
use okr_tracker::DomainError;

const RP_ID: &str = "okr.example";
const ORIGIN: &str = "https://okr.example";

fn cbor_bytes(v: &Cbor) -> Vec<u8> {
    let mut out = Vec::new();
    ciborium::ser::into_writer(v, &mut out).unwrap();
    out
}

fn cint(i: i64) -> Cbor {
    Cbor::Integer(Integer::from(i))
}

fn key() -> SigningKey {
    SigningKey::from_slice(&[7u8; 32]).unwrap()
}

fn sec1(k: &SigningKey) -> Vec<u8> {
    k.verifying_key().to_encoded_point(false).as_bytes().to_vec()
}

fn cose_key(k: &SigningKey, alg: i64) -> Vec<u8> {
    let pt = k.verifying_key().to_encoded_point(false);
    cbor_bytes(&Cbor::Map(vec![
        (cint(1), cint(2)),
        (cint(3), cint(alg)),
        (cint(-1), cint(1)),
        (cint(-2), Cbor::Bytes(pt.x().unwrap().to_vec())),
        (cint(-3), Cbor::Bytes(pt.y().unwrap().to_vec())),
    ]))
}

fn auth_data(rp_id: &str, flags: u8, count: u32, attested: Option<(&[u8], &[u8])>) -> Vec<u8> {
    let mut d = Sha256::digest(rp_id.as_bytes()).to_vec();
    d.push(flags);
    d.extend_from_slice(&count.to_be_bytes());
    if let Some((cred_id, cose)) = attested {
        d.extend_from_slice(&[0xAA; 16]);
        d.extend_from_slice(&(cred_id.len() as u16).to_be_bytes());
        d.extend_from_slice(cred_id);
        d.extend_from_slice(cose);
    }
    d
}

fn client_data(typ: &str, challenge: &[u8], origin: &str) -> Vec<u8> {
    format!(
        "{{\"type\":\"{}\",\"challenge\":\"{}\",\"origin\":\"{}\"}}",
        typ,
        b64url_encode(challenge),
        origin
    )
    .into_bytes()
}

fn attestation(auth: &[u8]) -> String {
    let obj = Cbor::Map(vec![
        (Cbor::Text("fmt".into()), Cbor::Text("none".into())),
        (Cbor::Text("attStmt".into()), Cbor::Map(vec![])),
        (Cbor::Text("authData".into()), Cbor::Bytes(auth.to_vec())),
    ]);
    b64url_encode(&cbor_bytes(&obj))
}

fn invalid(m: &str) -> DomainError {
    DomainError::Invalid(m.to_string())
}

#[test]
fn base64url_round_trip_and_tolerance() {
    let data = [0xfbu8, 0xff, 0x00, 0x10, 0x3e];
    let enc = b64url_encode(&data);
    assert_eq!(enc, "-_8AED4");
    assert_eq!(b64url_decode(&enc).unwrap(), data.to_vec());
    // Standard alphabet and padding are accepted too.
    assert_eq!(b64url_decode("+/8AED4=").unwrap(), data.to_vec());
    assert_eq!(b64url_decode("aGk=").unwrap(), b"hi".to_vec());
    assert_eq!(b64url_decode("a$"), Err(invalid("malformed base64url")));
    assert_eq!(b64url_encode(&[]), "");
}

#[test]
fn registration_with_none_attestation() {
    let k = key();
    let challenge = [1u8, 2, 3, 4];
    let cred_id = [9u8, 8, 7];
    let ad = auth_data(RP_ID, 0x41, 5, Some((&cred_id, &cose_key(&k, -7))));
    let cd = client_data("webauthn.create", &challenge, ORIGIN);
    let r = verify_registration(&attestation(&ad), &b64url_encode(&cd), &b64url_encode(&challenge), RP_ID, ORIGIN)
        .ok()
        .unwrap();
    assert_eq!(r.credential_id, b64url_encode(&cred_id));
    assert_eq!(r.public_key_sec1, b64url_encode(&sec1(&k)));
    assert_eq!(r.sign_count, 5);
    assert_eq!(r.aaguid, "aa".repeat(16));
}

#[test]
fn registration_refusals() {
    let k = key();
    let challenge = [1u8, 2, 3, 4];
    let ch = b64url_encode(&challenge);
    let good_ad = auth_data(RP_ID, 0x41, 0, Some((&[1u8], &cose_key(&k, -7))));
    let good_cd = b64url_encode(&client_data("webauthn.create", &challenge, ORIGIN));
    let reg = |att: &str, cd: &str| verify_registration(att, cd, &ch, RP_ID, ORIGIN).err();

    let cd = b64url_encode(&client_data("webauthn.get", &challenge, ORIGIN));
    assert_eq!(reg(&attestation(&good_ad), &cd), Some(invalid("clientData type mismatch")));
    let cd = b64url_encode(&client_data("webauthn.create", &[5, 5], ORIGIN));
    assert_eq!(reg(&attestation(&good_ad), &cd), Some(invalid("challenge mismatch")));
    let cd = b64url_encode(&client_data("webauthn.create", &challenge, "https://evil.example"));
    assert_eq!(reg(&attestation(&good_ad), &cd), Some(invalid("origin mismatch")));
    assert_eq!(reg(&attestation(&good_ad), &b64url_encode(b"{}")), Some(invalid("bad clientDataJSON")));

    let ad = auth_data(RP_ID, 0x40, 0, Some((&[1u8], &cose_key(&k, -7))));
    assert_eq!(reg(&attestation(&ad), &good_cd), Some(invalid("user-present flag not set")));
    let ad = auth_data(RP_ID, 0x01, 0, Some((&[1u8], &cose_key(&k, -7))));
    assert_eq!(reg(&attestation(&ad), &good_cd), Some(invalid("no attested credential data")));
    let ad = auth_data("other.example", 0x41, 0, Some((&[1u8], &cose_key(&k, -7))));
    assert_eq!(reg(&attestation(&ad), &good_cd), Some(invalid("RP ID hash mismatch")));
    let ad = auth_data(RP_ID, 0x41, 0, Some((&[1u8], &cose_key(&k, -257))));
    assert_eq!(reg(&attestation(&ad), &good_cd), Some(invalid("unsupported algorithm (only ES256 supported)")));
    // A key on another curve (crv 2) is refused; crv 1 with the same coordinates is converted.
    let other_curve = cbor_bytes(&Cbor::Map(vec![
        (cint(1), cint(2)),
        (cint(3), cint(-7)),
        (cint(-1), cint(2)),
        (cint(-2), Cbor::Bytes(vec![1u8; 32])),
        (cint(-3), Cbor::Bytes(vec![2u8; 32])),
    ]));
    let ad = auth_data(RP_ID, 0x41, 0, Some((&[1u8], &other_curve)));
    assert_eq!(reg(&attestation(&ad), &good_cd), Some(invalid("unsupported curve (only P-256 supported)")));
    let p256_curve = cbor_bytes(&Cbor::Map(vec![
        (cint(1), cint(2)),
        (cint(3), cint(-7)),
        (cint(-1), cint(1)),
        (cint(-2), Cbor::Bytes(vec![1u8; 32])),
        (cint(-3), Cbor::Bytes(vec![2u8; 32])),
    ]));
    let ad = auth_data(RP_ID, 0x41, 0, Some((&[1u8], &p256_curve)));
    let r = verify_registration(&attestation(&ad), &good_cd, &ch, RP_ID, ORIGIN).unwrap();
    let mut point = vec![4u8];
    point.extend_from_slice(&[1u8; 32]);
    point.extend_from_slice(&[2u8; 32]);
    assert_eq!(b64url_decode(&r.public_key_sec1).unwrap(), point);
    let ad = auth_data(RP_ID, 0x41, 0, None);
    assert_eq!(reg(&attestation(&ad), &good_cd), Some(invalid("attested credential data truncated")));
    assert_eq!(reg(&attestation(&[0u8; 10]), &good_cd), Some(invalid("authenticator data too short")));
    let not_a_map = b64url_encode(&cbor_bytes(&cint(3)));
    assert_eq!(reg(&not_a_map, &good_cd), Some(invalid("attestationObject not a map")));
}

fn assertion(k: &SigningKey, count: u32, challenge: &[u8], typ: &str) -> (String, String, String) {
    let ad = auth_data(RP_ID, 0x05, count, None);
    let cd = client_data(typ, challenge, ORIGIN);
    let mut msg = ad.clone();
    msg.extend_from_slice(&Sha256::digest(&cd));
    let sig: Signature = k.sign(&msg);
    (b64url_encode(&ad), b64url_encode(&cd), b64url_encode(sig.to_der().as_bytes()))
}

#[test]
fn assertion_is_verified_and_counts_move_forward() {
    let k = key();
    let pk = b64url_encode(&sec1(&k));
    let challenge = [42u8; 32];
    let ch = b64url_encode(&challenge);
    let (ad, cd, sig) = assertion(&k, 7, &challenge, "webauthn.get");
    assert_eq!(verify_assertion(&ad, &cd, &sig, &pk, 3, &ch, RP_ID, ORIGIN), Ok(7));
    assert_eq!(verify_assertion(&ad, &cd, &sig, &pk, 0, &ch, RP_ID, ORIGIN), Ok(7));
    // A count that does not increase is refused as a possible clone.
    assert_eq!(
        verify_assertion(&ad, &cd, &sig, &pk, 7, &ch, RP_ID, ORIGIN),
        Err(invalid("sign count did not increase (possible cloned key)"))
    );
    // An authenticator that always reports 0 is accepted; the stored count stays.
    let (ad0, cd0, sig0) = assertion(&k, 0, &challenge, "webauthn.get");
    assert_eq!(verify_assertion(&ad0, &cd0, &sig0, &pk, 9, &ch, RP_ID, ORIGIN), Ok(9));
}

#[test]
fn assertion_refusals() {
    let k = key();
    let pk = b64url_encode(&sec1(&k));
    let challenge = [42u8; 32];
    let ch = b64url_encode(&challenge);
    let (ad, cd, sig) = assertion(&k, 7, &challenge, "webauthn.get");
    // A signature by another key does not verify.
    let other = SigningKey::from_slice(&[8u8; 32]).unwrap();
    let (_, _, bad_sig) = assertion(&other, 7, &challenge, "webauthn.get");
    assert_eq!(verify_assertion(&ad, &cd, &bad_sig, &pk, 0, &ch, RP_ID, ORIGIN), Err(DomainError::Unauthenticated));
    assert_eq!(
        verify_assertion(&ad, &cd, &b64url_encode(&[1, 2, 3]), &pk, 0, &ch, RP_ID, ORIGIN),
        Err(invalid("bad signature encoding"))
    );
    assert_eq!(
        verify_assertion(&ad, &cd, &sig, &b64url_encode(&[4, 1, 2]), 0, &ch, RP_ID, ORIGIN),
        Err(invalid("bad stored public key"))
    );
    assert_eq!(
        verify_assertion(&ad, &cd, &sig, &pk, 0, &ch, "other.example", ORIGIN),
        Err(invalid("RP ID hash mismatch"))
    );
    let (ad2, cd2, sig2) = assertion(&k, 7, &challenge, "webauthn.create");
    assert_eq!(
        verify_assertion(&ad2, &cd2, &sig2, &pk, 0, &ch, RP_ID, ORIGIN),
        Err(invalid("clientData type mismatch"))
    );
    let no_up = b64url_encode(&auth_data(RP_ID, 0x04, 7, None));
    assert_eq!(
        verify_assertion(&no_up, &cd, &sig, &pk, 0, &ch, RP_ID, ORIGIN),
        Err(invalid("user-present flag not set"))
    );
}

#[test]
fn client_data_in_array_form() {
    let k = key();
    let challenge = [1u8, 2, 3, 4];
    let ad = auth_data(RP_ID, 0x41, 0, Some((&[1u8], &cose_key(&k, -7))));
    let cd = format!("[\"webauthn.create\",\"{}\",\"{}\"]", b64url_encode(&challenge), ORIGIN);
    let r = verify_registration(&attestation(&ad), &b64url_encode(cd.as_bytes()), &b64url_encode(&challenge), RP_ID, ORIGIN);
    assert!(r.is_ok());
    // The array must hold exactly three strings, in the order type, challenge, origin.
    let cd = format!("[\"{}\",\"webauthn.create\",\"{}\"]", b64url_encode(&challenge), ORIGIN);
    let r = verify_registration(&attestation(&ad), &b64url_encode(cd.as_bytes()), &b64url_encode(&challenge), RP_ID, ORIGIN);
    assert_eq!(r.err(), Some(invalid("clientData type mismatch")));
    let cd = format!("[\"webauthn.create\",\"{}\"]", b64url_encode(&challenge));
    let r = verify_registration(&attestation(&ad), &b64url_encode(cd.as_bytes()), &b64url_encode(&challenge), RP_ID, ORIGIN);
    assert_eq!(r.err(), Some(invalid("bad clientDataJSON")));
}

use atproto_oauth::errors::AuthError;
use atproto_oauth::keyring::KeyRing;
use elliptic_curve::pkcs8::EncodePrivateKey;

fn test_pem(seed: u8) -> String {
    let mut bytes = [0u8; 32];
    bytes[31] = seed;
    let sk = p256::SecretKey::from_slice(&bytes).unwrap();
    sk.to_pkcs8_pem(Default::default()).unwrap().as_str().to_string()
}

#[test]
fn keyring_parses_all_keys_in_order() {
    let pems = vec![test_pem(1), test_pem(2), test_pem(3)];
    let ring = KeyRing::new(&pems).unwrap();
    assert_eq!(ring.kid(0), "key-00");
    assert_eq!(ring.kid(1), "key-01");
    assert_eq!(ring.kid(2), "key-02");
    assert_eq!(ring.public_jwks().len(), 3);
}

#[test]
fn keyring_empty_is_fine() {
    let ring = KeyRing::new(&vec![]).unwrap();
    assert_eq!(ring.public_jwks().len(), 0);
}

#[test]
fn keyring_one_malformed_key_fails_construction() {
    // One malformed key among N valid ones fails construction
    // entirely; no partial key set is exposed.
    let pems = vec![test_pem(1), "not a pem".to_string(), test_pem(2)];
    assert!(matches!(KeyRing::new(&pems), Err(AuthError::KeyParseError)));
}

#[test]
fn keyring_public_jwks_carry_no_private_material() {
    let ring = KeyRing::new(&vec![test_pem(5)]).unwrap();
    let jwks = ring.public_jwks();
    match &jwks[0].key {
        jose_jwk::Key::Ec(ec) => assert!(ec.d.is_none()),
        other => panic!("unexpected key kind: {:?}", other),
    }
    assert_eq!(jwks[0].prm.kid.as_deref(), Some("key-00"));
    assert!(matches!(jwks[0].prm.cls, Some(jose_jwk::Class::Signing)));
}

#[test]
fn keyring_signs_by_key_identifier() {
    let ring = KeyRing::new(&vec![test_pem(7)]).unwrap();
    let msg = b"payload".to_vec();
    let sig = ring.sign_with("key-00", &msg).unwrap();
    assert_eq!(sig.len(), 64);
    assert!(matches!(ring.sign_with("key-99", &msg), Err(AuthError::NotFound)));
}

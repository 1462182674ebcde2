use ed25519_dalek::{Signer, SigningKey};
use input_only_proxy::client_auth::{
    bytes_equal, check_scheme, handshake_key, is_ed25519_oid, signature_verdict,
    Ed25519CertVerifier, SubjectKey, VerifyError, ED25519_SCHEME,
};
use input_only_proxy::pubkey::VerifyingKey;
use std::sync::Arc;

const OID: [u8; 3] = [0x2b, 0x65, 0x70];

fn signing_key(seed: u8) -> SigningKey {
    SigningKey::from_bytes(&[seed; 32])
}

fn guard(seed: u8) -> Arc<Ed25519CertVerifier> {
    let bytes = signing_key(seed).verifying_key().to_bytes();
    Ed25519CertVerifier::new(VerifyingKey::from_bytes(&bytes).unwrap())
}

fn self_signed(key: &rcgen::KeyPair) -> Vec<u8> {
    let names = vec!["client".to_string()];
    rcgen::CertificateParams::new(names).unwrap().self_signed(key).unwrap().der().to_vec()
}

/// A certificate for the key with this seed.
fn certificate(seed: u8) -> Vec<u8> {
    let mut der = vec![
        0x30, 0x2e, 0x02, 0x01, 0x00, 0x30, 0x05, 0x06, 0x03, 0x2b, 0x65, 0x70, 0x04, 0x22, 0x04, 0x20,
    ];
    der.extend_from_slice(&[seed; 32]);
    let pkcs8 = rustls::pki_types::PrivatePkcs8KeyDer::from(der);
    let key = rcgen::KeyPair::from_pkcs8_der_and_sign_algo(&pkcs8, &rcgen::PKCS_ED25519).unwrap();
    self_signed(&key)
}

fn ecdsa_certificate() -> Vec<u8> {
    self_signed(&rcgen::KeyPair::generate_for(&rcgen::PKCS_ECDSA_P256_SHA256).unwrap())
}

/// The certificate for seed 1 with other bytes in the place of its key.
fn certificate_with_key(key: &[u8; 32]) -> Vec<u8> {
    let mut der = certificate(1);
    let old = signing_key(1).verifying_key().to_bytes();
    let at = der.windows(32).position(|window| window == old).unwrap();
    der[at..at + 32].copy_from_slice(key);
    der
}

fn subject(algorithm: &[u8], key: &[u8]) -> Option<SubjectKey> {
    Some(SubjectKey { algorithm: algorithm.to_vec(), key: key.to_vec() })
}

#[test]
fn expected_key_is_let_in() {
    let message = b"handshake";
    let signature = signing_key(1).sign(message).to_bytes();
    let guard = guard(1);
    assert_eq!(guard.verify_client_cert(&certificate(1)), Ok(()));
    assert_eq!(
        guard.verify_tls13_signature(message, &certificate(1), ED25519_SCHEME, &signature),
        Ok(())
    );
}

#[test]
fn handshake_without_the_expected_key_fails() {
    let message = b"handshake";
    let guard = guard(1);
    // Another client, with its own certificate and key, signs well ...
    let own = signing_key(2).sign(message).to_bytes();
    assert_eq!(
        guard.verify_tls13_signature(message, &certificate(2), ED25519_SCHEME, &own),
        Ok(())
    );
    // ... but its certificate is turned away.
    assert_eq!(
        guard.verify_client_cert(&certificate(2)),
        Err(VerifyError::ApplicationVerificationFailure)
    );
    // With the certificate of the expected client it cannot sign.
    assert_eq!(
        guard.verify_tls13_signature(message, &certificate(1), ED25519_SCHEME, &own),
        Err(VerifyError::BadSignature)
    );
}

#[test]
fn certificate_passes_under_one_key_only() {
    assert_eq!(guard(3).verify_client_cert(&certificate(3)), Ok(()));
    for seed in [1, 2, 4] {
        assert_eq!(
            guard(seed).verify_client_cert(&certificate(3)),
            Err(VerifyError::ApplicationVerificationFailure)
        );
    }
}

#[test]
fn unreadable_certificates_are_refused() {
    let guard = guard(1);
    let whole = certificate(1);
    for der in [&[][..], b"certificate", &whole[..whole.len() - 1]] {
        assert_eq!(guard.verify_client_cert(der), Err(VerifyError::BadEncoding));
        assert_eq!(
            guard.verify_tls13_signature(b"m", der, ED25519_SCHEME, &[0; 64]),
            Err(VerifyError::BadEncoding)
        );
    }
}

#[test]
fn bytes_after_the_certificate_are_not_read() {
    let mut der = certificate(1);
    der.extend_from_slice(b"more");
    assert_eq!(guard(1).verify_client_cert(&der), Ok(()));
}

#[test]
fn other_algorithms_are_refused() {
    let guard = guard(1);
    let der = ecdsa_certificate();
    assert_eq!(guard.verify_client_cert(&der), Err(VerifyError::BadSignature));
    assert_eq!(
        guard.verify_tls13_signature(b"m", &der, ED25519_SCHEME, &[0; 64]),
        Err(VerifyError::BadSignature)
    );
}

#[test]
fn schemes_that_are_not_offered_are_refused() {
    let message = b"handshake";
    let signature = signing_key(1).sign(message).to_bytes();
    let guard = guard(1);
    assert_eq!(guard.supported_verify_schemes(), vec![0x0807]);
    for scheme in [0x0000, 0x0403, 0x0804, 0x0808, 0xffff] {
        assert_eq!(check_scheme(scheme), Err(VerifyError::BadSignature));
        for der in [certificate(1), Vec::new()] {
            assert_eq!(
                guard.verify_tls13_signature(message, &der, scheme, &signature),
                Err(VerifyError::BadSignature)
            );
        }
    }
    assert_eq!(check_scheme(ED25519_SCHEME), Ok(()));
}

#[test]
fn bad_signatures_are_refused() {
    let message = b"handshake";
    let guard = guard(1);
    let good = signing_key(1).sign(message).to_bytes();
    let mut flipped = good;
    flipped[10] ^= 1;
    let mut long = good.to_vec();
    long.push(0);
    for (message, signature) in [
        (&b"handshaken"[..], &good[..]),
        (&message[..], &flipped[..]),
        (&message[..], &good[..63]),
        (&message[..], &long[..]),
        (&message[..], &[][..]),
    ] {
        assert_eq!(
            guard.verify_tls13_signature(message, &certificate(1), ED25519_SCHEME, signature),
            Err(VerifyError::BadSignature)
        );
    }
}

#[test]
fn key_off_the_curve_is_refused() {
    let mut bytes = [0u8; 32];
    while ed25519_dalek::VerifyingKey::from_bytes(&bytes).is_ok() {
        bytes[0] += 1;
    }
    let der = certificate_with_key(&bytes);
    let signature = signing_key(1).sign(b"m").to_bytes();
    assert_eq!(
        guard(1).verify_client_cert(&der),
        Err(VerifyError::ApplicationVerificationFailure)
    );
    assert_eq!(
        guard(1).verify_tls13_signature(b"m", &der, ED25519_SCHEME, &signature),
        Err(VerifyError::BadSignature)
    );
}

#[test]
fn subject_keys_are_judged() {
    let guard = guard(1);
    let expected = signing_key(1).verifying_key().to_bytes();
    assert_eq!(guard.judge_subject_key(None), Err(VerifyError::BadEncoding));
    assert_eq!(guard.judge_subject_key(subject(&OID, &expected)), Ok(()));
    for oid in [&[][..], &OID[..2], &[0x2b, 0x65, 0x6e][..], &[0x2b, 0x65, 0x70, 0x00][..]] {
        assert_eq!(
            guard.judge_subject_key(subject(oid, &expected)),
            Err(VerifyError::BadSignature)
        );
    }
    let mut longer = expected.to_vec();
    longer.push(0);
    for key in [&expected[..31], &longer[..], &[][..], &[0; 32][..]] {
        assert_eq!(
            guard.judge_subject_key(subject(&OID, key)),
            Err(VerifyError::ApplicationVerificationFailure)
        );
    }
}

#[test]
fn handshake_keys_have_the_right_length() {
    let key: Vec<u8> = (0..32).collect();
    let raw = handshake_key(subject(&OID, &key)).unwrap();
    assert_eq!(raw.to_vec(), key);
    assert_eq!(handshake_key(None), Err(VerifyError::BadEncoding));
    for len in [0, 31, 33, 64] {
        assert_eq!(
            handshake_key(subject(&OID, &vec![1; len])),
            Err(VerifyError::BadSignature)
        );
    }
}

#[test]
fn accepted_steps_pass() {
    assert_eq!(signature_verdict(true), Ok(()));
    assert_eq!(signature_verdict(false), Err(VerifyError::BadSignature));
}

#[test]
fn tls12_is_not_offered() {
    assert_eq!(guard(1).verify_tls12_signature(), Err(VerifyError::Tls12NotOffered));
}

#[test]
fn client_certificate_is_asked_for_without_hints() {
    assert!(guard(1).offer_client_auth());
    assert!(guard(1).root_hint_subjects().is_empty());
}

#[test]
fn constants_are_those_of_the_protocol() {
    assert_eq!(u16::from(rustls::SignatureScheme::ED25519), ED25519_SCHEME);
    assert!(is_ed25519_oid(x509_parser::oid_registry::OID_SIG_ED25519.as_bytes()));
    assert!(!is_ed25519_oid(x509_parser::oid_registry::OID_PKCS1_RSAENCRYPTION.as_bytes()));
}

#[test]
fn byte_strings_are_compared() {
    assert!(bytes_equal(b"", b""));
    assert!(bytes_equal(b"abc", b"abc"));
    assert!(!bytes_equal(b"abc", b"abd"));
    assert!(!bytes_equal(b"abc", b"ab"));
}

//! The rules by which a client's certificate and its handshake are judged.
//!
//! There is no chain of authorities: a client is let in when its certificate
//! holds the one expected Ed25519 key and the handshake is signed with it.

use crate::foreign::{
    ed25519_point, parse_certificate, signature_from_slice, strict_signature, verify_strict,
    x509_subject_key,
};
use crate::pubkey::VerifyingKey;
use std::sync::Arc;
use vstd::prelude::*;

verus! {

/// The code point of the TLS signature scheme `ed25519`.
pub const ED25519_SCHEME: u16 = 0x0807;

/// The content bytes of the object identifier 1.3.101.112, which stands for
/// Ed25519 in certificates.
pub open spec fn ed25519_oid() -> Seq<u8> {
    seq![0x2b, 0x65, 0x70]
}

/// The subject public key of a certificate.
#[derive(Debug)]
pub struct SubjectKey {
    /// Content bytes of the algorithm's object identifier.
    pub algorithm: Vec<u8>,
    /// Bytes of the key.
    pub key: Vec<u8>,
}

impl View for SubjectKey {
    type V = (Seq<u8>, Seq<u8>);

    open spec fn view(&self) -> (Seq<u8>, Seq<u8>) {
        (self.algorithm@, self.key@)
    }
}

/// Why a client is turned away.
#[derive(Clone, Copy, Debug, PartialEq, Eq, Structural)]
pub enum VerifyError {
    /// The certificate cannot be read.
    BadEncoding,
    /// The certificate or the handshake is not signed as required.
    BadSignature,
    /// The certificate holds another key than the expected one.
    ApplicationVerificationFailure,
    /// The peer speaks TLS 1.2, which is not offered.
    Tls12NotOffered,
}

/// The verdict on a client certificate whose subject public key is `subject`
/// (nothing where the certificate cannot be read), where `expected` is the only
/// key let in.
pub open spec fn client_cert_verdict(
    subject: Option<(Seq<u8>, Seq<u8>)>,
    expected: Seq<u8>,
) -> Result<(), VerifyError> {
    match subject {
        None => Err(VerifyError::BadEncoding),
        Some((algorithm, key)) => if algorithm != ed25519_oid() {
            Err(VerifyError::BadSignature)
        } else if key != expected {
            Err(VerifyError::ApplicationVerificationFailure)
        } else {
            Ok(())
        },
    }
}

/// The verdict on a TLS 1.3 handshake signature: the scheme must be Ed25519, and
/// the key in the certificate must verify the signature on the message.
pub open spec fn tls13_verdict(
    scheme: u16,
    subject: Option<(Seq<u8>, Seq<u8>)>,
    message: Seq<u8>,
    signature: Seq<u8>,
) -> Result<(), VerifyError> {
    if scheme != ED25519_SCHEME {
        Err(VerifyError::BadSignature)
    } else {
        match subject {
            None => Err(VerifyError::BadEncoding),
            Some((_, key)) => if key.len() == 32 && ed25519_point(key) && signature.len() == 64
                && strict_signature(key, message, signature) {
                Ok(())
            } else {
                Err(VerifyError::BadSignature)
            },
        }
    }
}

/// The view of a subject key that may be missing.
pub open spec fn subject_view(subject: Option<SubjectKey>) -> Option<(Seq<u8>, Seq<u8>)> {
    match subject {
        Some(subject) => Some(subject@),
        None => None,
    }
}

/// Tells whether two byte strings are equal.
pub fn bytes_equal(a: &[u8], b: &[u8]) -> (r: bool)
    ensures
        r == (a@ == b@),
{
    if a.len() != b.len() {
        return false;
    }
    let mut i: usize = 0;
    while i < a.len()
        invariant
            i <= a@.len(),
            a@.len() == b@.len(),
            forall|k: int| 0 <= k < i ==> a@[k] == b@[k],
        decreases a@.len() - i,
    {
        if a[i] != b[i] {
            return false;
        }
        i = i + 1;
    }
    assert(a@ == b@);
    true
}

/// Tells whether these are the content bytes of the object identifier of
/// Ed25519.
pub fn is_ed25519_oid(oid: &[u8]) -> (r: bool)
    ensures
        r == (oid@ == ed25519_oid()),
{
    let r = oid.len() == 3 && oid[0] == 0x2b && oid[1] == 0x65 && oid[2] == 0x70;
    proof {
        if r {
            assert(oid@ == ed25519_oid());
        }
    }
    r
}

/// The key under which a handshake is to be verified, from what was read as the
/// certificate's subject public key: it must have the length of an Ed25519 key.
pub fn handshake_key(subject: Option<SubjectKey>) -> (r: Result<[u8; 32], VerifyError>)
    ensures
        match subject {
            None => r == Err::<[u8; 32], VerifyError>(VerifyError::BadEncoding),
            Some(subject) => if subject.key@.len() == 32 {
                r matches Ok(key) && key@ == subject.key@
            } else {
                r == Err::<[u8; 32], VerifyError>(VerifyError::BadSignature)
            },
        },
{
    let subject = match subject {
        Some(subject) => subject,
        None => return Err(VerifyError::BadEncoding),
    };
    if subject.key.len() != 32 {
        return Err(VerifyError::BadSignature);
    }
    let mut key: [u8; 32] = [0u8;32];
    let mut i: usize = 0;
    while i < 32
        invariant
            i <= 32,
            subject.key@.len() == 32,
            forall|k: int| 0 <= k < i ==> key@[k] == subject.key@[k],
        decreases 32 - i,
    {
        key[i] = subject.key[i];
        i = i + 1;
    }
    assert(key@ == subject.key@);
    Ok(key)
}

/// Refuses every signature scheme but Ed25519.
pub fn check_scheme(scheme: u16) -> (r: Result<(), VerifyError>)
    ensures
        r == (if scheme == ED25519_SCHEME {
            Ok::<(), VerifyError>(())
        } else {
            Err(VerifyError::BadSignature)
        }),
{
    if scheme != ED25519_SCHEME {
        Err(VerifyError::BadSignature)
    } else {
        Ok(())
    }
}

/// The verdict where a step of the signature check was accepted or not.
pub fn signature_verdict(accepted: bool) -> (r: Result<(), VerifyError>)
    ensures
        r == (if accepted {
            Ok::<(), VerifyError>(())
        } else {
            Err(VerifyError::BadSignature)
        }),
{
    if accepted {
        Ok(())
    } else {
        Err(VerifyError::BadSignature)
    }
}

/// Judges clients by one expected Ed25519 key.
#[derive(Debug)]
pub struct Ed25519CertVerifier {
    expected_pubkey: VerifyingKey,
}

impl View for Ed25519CertVerifier {
    type V = Seq<u8>;

    closed spec fn view(&self) -> Seq<u8> {
        self.expected_pubkey@
    }
}

impl Ed25519CertVerifier {
    /// A verifier that lets in the holder of `pubkey`.
    pub fn new(pubkey: VerifyingKey) -> (r: Arc<Self>)
        ensures
            r@ == pubkey@,
    {
        Arc::new(Ed25519CertVerifier { expected_pubkey: pubkey })
    }

    /// A client certificate is asked for.
    pub fn offer_client_auth(&self) -> (r: bool)
        ensures
            r,
    {
        true
    }

    /// No authorities are named to clients, since no chains are followed.
    pub fn root_hint_subjects(&self) -> (r: Vec<Vec<u8>>)
        ensures
            r@.len() == 0,
    {
        Vec::new()
    }

    /// Judges a certificate by what was read as its subject public key; nothing
    /// stands for a certificate that could not be read.
    pub fn judge_subject_key(&self, subject: Option<SubjectKey>) -> (r: Result<(), VerifyError>)
        ensures
            r == client_cert_verdict(subject_view(subject), self@),
            subject is None ==> r == Err::<(), VerifyError>(VerifyError::BadEncoding),
            subject matches Some(read) ==> {
                &&& read.algorithm@ != seq![43u8, 101, 112] ==> r == Err::<(), VerifyError>(
                    VerifyError::BadSignature,
                )
                &&& read.algorithm@ == seq![43u8, 101, 112] && read.key@ != self@ ==> r == Err::<
                    (),
                    VerifyError,
                >(VerifyError::ApplicationVerificationFailure)
                &&& r is Ok <==> read.algorithm@ == seq![43u8, 101, 112] && read.key@ == self@
            },
    {
        let subject = match subject {
            Some(subject) => subject,
            None => return Err(VerifyError::BadEncoding),
        };
        if !is_ed25519_oid(subject.algorithm.as_slice()) {
            return Err(VerifyError::BadSignature);
        }
        let expected = self.expected_pubkey.as_bytes();
        if subject.key.len() == 32 && bytes_equal(subject.key.as_slice(), expected.as_slice()) {
            Ok(())
        } else {
            Err(VerifyError::ApplicationVerificationFailure)
        }
    }

    /// Judges the end-entity certificate that a client presents.
    pub fn verify_client_cert(&self, end_entity: &[u8]) -> (r: Result<(), VerifyError>)
        ensures
            r == client_cert_verdict(x509_subject_key(end_entity@), self@),
    {
        let subject = match parse_certificate(end_entity) {
            Ok(subject) => Some(subject),
            Err(_) => None,
        };
        self.judge_subject_key(subject)
    }

    /// Refuses every TLS 1.2 handshake.
    pub fn verify_tls12_signature(&self) -> (r: Result<(), VerifyError>)
        ensures
            r == Err::<(), VerifyError>(VerifyError::Tls12NotOffered),
    {
        Err(VerifyError::Tls12NotOffered)
    }

    /// Judges the signature on a TLS 1.3 handshake.
    pub fn verify_tls13_signature(
        &self,
        message: &[u8],
        cert: &[u8],
        scheme: u16,
        signature: &[u8],
    ) -> (r: Result<(), VerifyError>)
        ensures
            r == tls13_verdict(scheme, x509_subject_key(cert@), message@, signature@),
    {
        check_scheme(scheme)?;
        let subject = match parse_certificate(cert) {
            Ok(subject) => Some(subject),
            Err(_) => None,
        };
        let bytes = handshake_key(subject)?;
        let key = match VerifyingKey::from_bytes(&bytes) {
            Ok(key) => key,
            Err(_) => return signature_verdict(false),
        };
        let signature = match signature_from_slice(signature) {
            Ok(signature) => signature,
            Err(_) => return signature_verdict(false),
        };
        signature_verdict(verify_strict(key.as_bytes(), message, &signature).is_ok())
    }

    /// The signature schemes that a client may use: Ed25519 alone.
    pub fn supported_verify_schemes(&self) -> (r: Vec<u16>)
        ensures
            r@ == seq![ED25519_SCHEME],
    {
        vec![ED25519_SCHEME]
    }
}

/// A certificate passes exactly if it can be read, its algorithm is the one with
/// the identifier 1.3.101.112, and its key is the expected one. What is told
/// otherwise is the first of these that fails.
pub proof fn certificate_passes_only_with_the_key(
    subject: Option<(Seq<u8>, Seq<u8>)>,
    expected: Seq<u8>,
)
    ensures
        client_cert_verdict(subject, expected) is Ok <==> subject == Some(
            (seq![43u8, 101, 112], expected),
        ),
        subject is None ==> client_cert_verdict(subject, expected) == Err::<(), VerifyError>(
            VerifyError::BadEncoding,
        ),
        subject matches Some((algorithm, key)) && algorithm != seq![43u8, 101, 112]
            ==> client_cert_verdict(subject, expected) == Err::<(), VerifyError>(
            VerifyError::BadSignature,
        ),
        subject matches Some((algorithm, key)) && algorithm == seq![43u8, 101, 112] && key
            != expected ==> client_cert_verdict(subject, expected) == Err::<(), VerifyError>(
            VerifyError::ApplicationVerificationFailure,
        ),
{
}

/// A handshake passes exactly if its scheme is 0x0807, the certificate can be
/// read, and the key in it is 32 bytes of a point that strictly verifies a
/// signature of 64 bytes. Only a certificate that cannot be read under the right
/// scheme is told as such; all else is a bad signature.
pub proof fn handshake_passes_only_when_signed(
    scheme: u16,
    subject: Option<(Seq<u8>, Seq<u8>)>,
    message: Seq<u8>,
    signature: Seq<u8>,
)
    ensures
        tls13_verdict(scheme, subject, message, signature) is Ok <==> {
            &&& scheme == 0x0807
            &&& signature.len() == 64
            &&& subject matches Some((_, key))
            &&& key.len() == 32
            &&& ed25519_point(key)
            &&& strict_signature(key, message, signature)
        },
        tls13_verdict(scheme, subject, message, signature) == Err::<(), VerifyError>(
            VerifyError::BadEncoding,
        ) <==> scheme == 0x0807 && subject is None,
        tls13_verdict(scheme, subject, message, signature) is Ok || tls13_verdict(
            scheme,
            subject,
            message,
            signature,
        ) == Err::<(), VerifyError>(VerifyError::BadEncoding) || tls13_verdict(
            scheme,
            subject,
            message,
            signature,
        ) == Err::<(), VerifyError>(VerifyError::BadSignature),
        ED25519_SCHEME == 0x0807,
{
}

/// A subject key is judged by the bytes that it holds, both of its algorithm and
/// of its key, and a missing one as missing.
pub proof fn subject_is_what_was_read(subject: Option<SubjectKey>)
    ensures
        subject is None <==> subject_view(subject) is None,
        subject matches Some(read) ==> subject_view(subject) == Some(
            (read.algorithm@, read.key@),
        ) && read@ == (read.algorithm@, read.key@),
        ed25519_oid() == seq![43u8, 101, 112],
{
}

/// A client that passes both checks with one certificate holds the expected
/// key: the handshake is signed, with scheme Ed25519, under that very key.
pub proof fn handshake_proves_expected_key(
    expected: Seq<u8>,
    cert: Seq<u8>,
    scheme: u16,
    message: Seq<u8>,
    signature: Seq<u8>,
)
    requires
        client_cert_verdict(x509_subject_key(cert), expected) is Ok,
        tls13_verdict(scheme, x509_subject_key(cert), message, signature) is Ok,
    ensures
        scheme == ED25519_SCHEME,
        x509_subject_key(cert) == Some((ed25519_oid(), expected)),
        ed25519_point(expected),
        signature.len() == 64,
        strict_signature(expected, message, signature),
{
}

/// The holder of the expected key is let in: with a certificate for that key
/// and a valid signature, both checks pass.
pub proof fn expected_key_is_let_in(
    expected: Seq<u8>,
    cert: Seq<u8>,
    message: Seq<u8>,
    signature: Seq<u8>,
)
    requires
        expected.len() == 32,
        ed25519_point(expected),
        x509_subject_key(cert) == Some((ed25519_oid(), expected)),
        signature.len() == 64,
        strict_signature(expected, message, signature),
    ensures
        client_cert_verdict(x509_subject_key(cert), expected) is Ok,
        tls13_verdict(ED25519_SCHEME, x509_subject_key(cert), message, signature) is Ok,
{
}

/// Verifiers for different keys let in different clients: no certificate passes
/// under two keys.
pub proof fn one_key_per_certificate(cert: Seq<u8>, first: Seq<u8>, second: Seq<u8>)
    requires
        client_cert_verdict(x509_subject_key(cert), first) is Ok,
        client_cert_verdict(x509_subject_key(cert), second) is Ok,
    ensures
        first == second,
{
}

/// A handshake under a scheme that is not offered never passes, whatever the
/// certificate.
pub proof fn only_offered_schemes_pass(
    scheme: u16,
    subject: Option<(Seq<u8>, Seq<u8>)>,
    message: Seq<u8>,
    signature: Seq<u8>,
)
    requires
        !seq![ED25519_SCHEME].contains(scheme),
    ensures
        tls13_verdict(scheme, subject, message, signature) == Err::<(), VerifyError>(
            VerifyError::BadSignature,
        ),
{
    assert(seq![ED25519_SCHEME][0] == ED25519_SCHEME);
}

} // verus!

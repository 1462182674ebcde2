//! What the library takes from outside crates.
//!
//! Every item here is believed, not proved: each doc comment names the outside
//! function and says what the contract claims of it. A spec function without a
//! body is a name for what such a function returns on given arguments.

use crate::client_auth::{ed25519_oid, SubjectKey};
use crate::openssh::heeds_lines;
use crate::pubkey::{key_found, SshKeyData};
use crate::server_cert::{server_names, DrawnKey, KeyFormat, PrivateKey, SignedCert};
use vstd::prelude::*;
use vstd::utf8::encode_utf8;

verus! {

/// An error of the `ssh_key` crate, carried along unread.
#[verifier::external_type_specification]
#[verifier::external_body]
pub struct ExSshKeyError(ssh_key::Error);

/// An error of the `ed25519_dalek` crate, carried along unread.
#[verifier::external_type_specification]
#[verifier::external_body]
pub struct ExSignatureError(ed25519_dalek::SignatureError);

/// An error of the `x509_parser` crate, carried along unread.
#[verifier::external_type_specification]
#[verifier::external_body]
pub struct ExX509Error(x509_parser::error::X509Error);

/// The envelope in which `x509_parser` returns its errors.
#[verifier::external_type_specification]
#[verifier::external_body]
#[verifier::reject_recursive_types(E)]
pub struct ExNomErr<E>(x509_parser::nom::Err<E>);

/// An error of the `rcgen` crate, carried along unread.
#[verifier::external_type_specification]
#[verifier::external_body]
pub struct ExRcgenError(rcgen::Error);

/// An input error as `rustls_pemfile` reports it, carried along unread.
#[verifier::external_type_specification]
#[verifier::external_body]
pub struct ExIoError(std::io::Error);

/// What `ssh_key::PublicKey::from_openssh` reads from a text: nothing where it
/// fails, otherwise the bytes of the key where it is an Ed25519 key.
pub uninterp spec fn openssh_key(text: Seq<char>) -> Option<Option<Seq<u8>>>;

/// Whether `ed25519_dalek::VerifyingKey::from_bytes` accepts these bytes.
pub uninterp spec fn ed25519_point(bytes: Seq<u8>) -> bool;

/// Whether `ed25519_dalek::VerifyingKey::verify_strict`, called on the key with
/// these bytes, accepts the signature with these bytes for the message.
pub uninterp spec fn strict_signature(key: Seq<u8>, message: Seq<u8>, signature: Seq<u8>) -> bool;

/// What `x509_parser`'s `X509Certificate::from_der` reads as subject public key
/// from the certificate at the front of these bytes: the content bytes of the
/// algorithm's object identifier and the bytes of the key; nothing where it
/// fails.
pub uninterp spec fn x509_subject_key(der: Seq<u8>) -> Option<(Seq<u8>, Seq<u8>)>;

/// The certificates that `rustls_pemfile::certs` yields on a PEM text, in order;
/// nothing where one of its items is an error.
pub uninterp spec fn pem_certificates(pem: Seq<u8>) -> Option<Seq<Seq<u8>>>;

/// What `rustls_pemfile::private_key` returns on a PEM text: nothing where it
/// fails, otherwise the first private key, if there is one.
pub uninterp spec fn pem_private_key(pem: Seq<u8>) -> Option<Option<(KeyFormat, Seq<u8>)>>;

/// The bytes that `rcgen::KeyPair::public_key_raw` returns for the Ed25519 key in
/// these PKCS #8 bytes: its public half.
pub uninterp spec fn ed25519_public_half(key: Seq<u8>) -> Seq<u8>;

/// The DER bytes of the certificate that `rcgen::CertificateParams::self_signed`
/// makes for these subject names with the Ed25519 key in these PKCS #8 bytes;
/// nothing where it fails. An Ed25519 signature, and with it the certificate, is
/// determined by what is signed and by the key.
pub uninterp spec fn self_signed_der(names: Seq<Seq<char>>, key: Seq<u8>) -> Option<Seq<u8>>;

/// Calls `ssh_key::PublicKey::from_openssh` and tells the key apart by kind.
/// It fails where `openssh_key` is nothing, which is so for the empty text. The
/// line of an Ed25519 key is read as that key, whatever its comment.
#[verifier::external_body]
pub(crate) fn parse_openssh(text: &str) -> (r: Result<SshKeyData, ssh_key::Error>)
    ensures
        key_found(r) == openssh_key(text@),
        text@.len() == 0 ==> r is Err,
        heeds_lines(text@, key_found(r)),
{
    match ssh_key::PublicKey::from_openssh(text)?.key_data() {
        ssh_key::public::KeyData::Ed25519(key) => Ok(SshKeyData::Ed25519(key.0)),
        _ => Ok(SshKeyData::Other),
    }
}

/// Calls `ed25519_dalek::VerifyingKey::from_bytes`, which succeeds where
/// `ed25519_point` says so. The key that it makes keeps the bytes as they are,
/// so only its success is handed on.
#[verifier::external_body]
pub(crate) fn decode_point(bytes: &[u8; 32]) -> (r: Result<(), ed25519_dalek::SignatureError>)
    ensures
        r is Ok <==> ed25519_point(bytes@),
{
    ed25519_dalek::VerifyingKey::from_bytes(bytes).map(|_| ())
}

/// Calls `ed25519_dalek::Signature::from_slice`, which takes any slice of 64
/// bytes, unchanged, and no other.
#[verifier::external_body]
pub(crate) fn signature_from_slice(bytes: &[u8]) -> (r: Result<
    [u8; 64],
    ed25519_dalek::SignatureError,
>)
    ensures
        r is Ok <==> bytes@.len() == 64,
        r matches Ok(signature) ==> signature@ == bytes@,
{
    ed25519_dalek::Signature::from_slice(bytes).map(|signature| signature.to_bytes())
}

/// Calls `ed25519_dalek::VerifyingKey::verify_strict` on the key with these
/// bytes; it succeeds where `strict_signature` says so.
#[verifier::external_body]
pub(crate) fn verify_strict(key: &[u8; 32], message: &[u8], signature: &[u8; 64]) -> (r: Result<
    (),
    ed25519_dalek::SignatureError,
>)
    requires
        ed25519_point(key@),
    ensures
        r is Ok <==> strict_signature(key@, message@, signature@),
{
    let key = ed25519_dalek::VerifyingKey::from_bytes(key)?;
    key.verify_strict(message, &ed25519_dalek::Signature::from_bytes(signature))
}

/// Calls `from_der` of `x509_parser`'s `X509Certificate` and copies out the
/// subject public key. It succeeds where `x509_subject_key` is something.
#[verifier::external_body]
pub(crate) fn parse_certificate(der: &[u8]) -> (r: Result<
    SubjectKey,
    x509_parser::nom::Err<x509_parser::error::X509Error>,
>)
    ensures
        r is Ok <==> x509_subject_key(der@) is Some,
        r matches Ok(subject) ==> x509_subject_key(der@) == Some(subject@),
{
    let (_, certificate) =
        <x509_parser::certificate::X509Certificate as x509_parser::prelude::FromDer<
        x509_parser::error::X509Error,
    >>::from_der(der)?;
    let info = certificate.public_key();
    Ok(
        SubjectKey {
            algorithm: info.algorithm.algorithm.as_bytes().to_vec(),
            key: info.subject_public_key.data.to_vec(),
        },
    )
}

/// Calls `rustls_pemfile::certs` on the bytes and collects what it yields, up
/// to its first error. It succeeds where `pem_certificates` is something.
#[verifier::external_body]
pub(crate) fn read_certificates(pem: &[u8]) -> (r: Result<Vec<Vec<u8>>, std::io::Error>)
    ensures
        r is Ok <==> pem_certificates(pem@) is Some,
        r matches Ok(certs) ==> pem_certificates(pem@) == Some(certs.deep_view()),
{
    let mut reader: &[u8] = pem;
    rustls_pemfile::certs(&mut reader).map(|item| item.map(|cert| cert.to_vec())).collect()
}

/// Calls `rustls_pemfile::private_key` on the bytes and tells the key apart by
/// format. It succeeds where `pem_private_key` is something. The function
/// returns keys of the three formats only; the type that it returns could grow
/// another, which would count as no key.
#[verifier::external_body]
pub(crate) fn read_private_key(pem: &[u8]) -> (r: Result<Option<PrivateKey>, std::io::Error>)
    ensures
        r is Ok <==> pem_private_key(pem@) is Some,
        r matches Ok(None) ==> pem_private_key(pem@) == Some(None::<(KeyFormat, Seq<u8>)>),
        r matches Ok(Some(key)) ==> pem_private_key(pem@) == Some(Some(key@)),
{
    let mut reader: &[u8] = pem;
    let (format, der) = match rustls_pemfile::private_key(&mut reader)? {
        Some(rustls::pki_types::PrivateKeyDer::Pkcs1(key)) => {
            (KeyFormat::Pkcs1, key.secret_pkcs1_der().to_vec())
        },
        Some(rustls::pki_types::PrivateKeyDer::Sec1(key)) => {
            (KeyFormat::Sec1, key.secret_sec1_der().to_vec())
        },
        Some(rustls::pki_types::PrivateKeyDer::Pkcs8(key)) => {
            (KeyFormat::Pkcs8, key.secret_pkcs8_der().to_vec())
        },
        _ => return Ok(None),
    };
    Ok(Some(PrivateKey { format, der }))
}

/// Calls `rcgen::KeyPair::generate_for` with `rcgen::PKCS_ED25519` and writes
/// the key out with `serialize_der` and `serialize_pem`. The key is random, and
/// the system may fail to supply randomness. Whatever key comes, its text is one
/// PEM section with the label of a PKCS #8 key, from which
/// `rustls_pemfile::private_key` reads the DER bytes back and
/// `rustls_pemfile::certs` no certificate, and the key signs a certificate for
/// the names of the server.
#[verifier::external_body]
pub(crate) fn generate_ed25519_key() -> (r: Result<DrawnKey, rcgen::Error>)
    ensures
        r matches Ok(key) ==> {
            &&& pem_private_key(encode_utf8(key.pem@)) == Some(Some((KeyFormat::Pkcs8, key.der@)))
            &&& pem_certificates(encode_utf8(key.pem@)) == Some(Seq::<Seq<u8>>::empty())
            &&& self_signed_der(server_names(), key.der@) is Some
        },
{
    let pair = rcgen::KeyPair::generate_for(&rcgen::PKCS_ED25519)?;
    Ok(DrawnKey { der: pair.serialize_der(), pem: pair.serialize_pem() })
}

/// Calls `rcgen::CertificateParams::self_signed` for these subject names and
/// the Ed25519 key in the PKCS #8 bytes, and writes the certificate out with
/// `pem` and the key's public half with `public_key_raw`. It succeeds where
/// `self_signed_der` is something. The text is one PEM section with the label of
/// a certificate, from which `rustls_pemfile::certs` reads the DER bytes back and
/// `rustls_pemfile::private_key` no key; the names are bounded because these
/// readers bound a section. From the certificate `x509_parser` reads the Ed25519
/// identifier and that public half.
#[verifier::external_body]
pub(crate) fn self_sign(names: Vec<String>, key: &[u8]) -> (r: Result<SignedCert, rcgen::Error>)
    requires
        names@.len() <= 16,
        forall|i: int| 0 <= i < names@.len() ==> #[trigger] names@[i]@.len() <= 255,
    ensures
        r is Ok <==> self_signed_der(names.deep_view(), key@) is Some,
        r matches Ok(cert) ==> {
            &&& cert.public_key@ == ed25519_public_half(key@)
            &&& self_signed_der(names.deep_view(), key@) matches Some(der)
            &&& pem_certificates(encode_utf8(cert.pem@)) == Some(seq![der])
            &&& pem_private_key(encode_utf8(cert.pem@)) == Some(None::<(KeyFormat, Seq<u8>)>)
            &&& x509_subject_key(der) == Some((ed25519_oid(), ed25519_public_half(key@)))
        },
{
    let key = rustls::pki_types::PrivatePkcs8KeyDer::from(key);
    let pair = rcgen::KeyPair::from_pkcs8_der_and_sign_algo(&key, &rcgen::PKCS_ED25519)?;
    let pem = rcgen::CertificateParams::new(names)?.self_signed(&pair)?.pem();
    Ok(SignedCert { pem, public_key: pair.public_key_raw().to_vec() })
}

} // verus!

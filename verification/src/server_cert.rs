//! The certificate and key that the proxy presents: read from two PEM files, or
//! made and stored where one of the files is missing.

use crate::client_auth::ed25519_oid;
use crate::foreign::{
    ed25519_public_half, generate_ed25519_key, pem_certificates, pem_private_key,
    read_certificates, read_private_key, self_sign, self_signed_der, x509_subject_key,
};
use vstd::prelude::*;
use vstd::slice::{slice_subrange, slice_to_vec};
use vstd::utf8::encode_utf8;

verus! {

/// The extension of the certificate file, put on the base path.
pub const CERT_EXTENSION: &'static str = "crt";

/// The extension of the key file, put on the base path.
pub const KEY_EXTENSION: &'static str = "key";

/// The encoding of a private key.
#[derive(Clone, Copy, Debug, PartialEq, Eq, Structural)]
pub enum KeyFormat {
    Pkcs1,
    Sec1,
    Pkcs8,
}

/// A private key in DER form.
pub struct PrivateKey {
    pub format: KeyFormat,
    pub der: Vec<u8>,
}

impl View for PrivateKey {
    type V = (KeyFormat, Seq<u8>);

    open spec fn view(&self) -> (KeyFormat, Seq<u8>) {
        (self.format, self.der@)
    }
}

/// A certificate and its key, each as a PEM text.
pub struct ServerPem {
    pub cert: String,
    pub key: String,
}

/// A key that was drawn: its PKCS #8 bytes, and a PEM text of them.
pub struct DrawnKey {
    pub der: Vec<u8>,
    pub pem: String,
}

/// A certificate as a PEM text, and the public key in it.
#[derive(Debug)]
pub struct SignedCert {
    pub pem: String,
    pub public_key: Vec<u8>,
}

/// Why no key and certificate were made.
#[derive(Debug)]
pub enum GenerationError {
    /// No key could be drawn.
    KeyNotDrawn(rcgen::Error),
    /// The key could not sign a certificate.
    NotSigned(rcgen::Error),
}

impl GenerationError {
    /// What the maker of keys and certificates reported.
    pub fn into_cause(self) -> (r: rcgen::Error)
        ensures
            match self {
                GenerationError::KeyNotDrawn(cause) => r == cause,
                GenerationError::NotSigned(cause) => r == cause,
            },
    {
        match self {
            GenerationError::KeyNotDrawn(cause) => cause,
            GenerationError::NotSigned(cause) => cause,
        }
    }
}

/// A certificate chain in DER form, as the certificate file holds it, and the
/// first key of the key file.
pub struct ServerCredentials {
    pub certs: Vec<Vec<u8>>,
    pub key: PrivateKey,
}

/// Why there are no credentials.
#[derive(Debug)]
pub enum LoadError {
    /// The directory of the files could not be made.
    Directory,
    /// The key or the certificate could not be made.
    Generation(GenerationError),
    /// A file could not be written.
    Store,
    /// The certificate file could not be opened.
    CertNotOpened,
    /// The certificate file could not be read to its end, and what was read is
    /// well formed.
    CertNotRead,
    /// The certificate file is not well formed.
    CertMalformed(std::io::Error),
    /// The certificate file holds no certificate.
    NoCertificates,
    /// The key file could not be opened.
    KeyNotOpened,
    /// The key file could not be read to its end, and what was read is well
    /// formed and holds no private key.
    KeyNotRead,
    /// The key file is not well formed.
    KeyMalformed(std::io::Error),
    /// The key file holds no private key.
    NoPrivateKey,
}

/// A `LoadError` without its cause.
pub enum LoadFailure {
    Directory,
    Generation,
    Store,
    CertNotOpened,
    CertNotRead,
    CertMalformed,
    NoCertificates,
    KeyNotOpened,
    KeyNotRead,
    KeyMalformed,
    NoPrivateKey,
}

impl View for LoadError {
    type V = LoadFailure;

    open spec fn view(&self) -> LoadFailure {
        match self {
            LoadError::Directory => LoadFailure::Directory,
            LoadError::Generation(_) => LoadFailure::Generation,
            LoadError::Store => LoadFailure::Store,
            LoadError::CertNotOpened => LoadFailure::CertNotOpened,
            LoadError::CertNotRead => LoadFailure::CertNotRead,
            LoadError::CertMalformed(_) => LoadFailure::CertMalformed,
            LoadError::NoCertificates => LoadFailure::NoCertificates,
            LoadError::KeyNotOpened => LoadFailure::KeyNotOpened,
            LoadError::KeyNotRead => LoadFailure::KeyNotRead,
            LoadError::KeyMalformed(_) => LoadFailure::KeyMalformed,
            LoadError::NoPrivateKey => LoadFailure::NoPrivateKey,
        }
    }
}

impl LoadFailure {
    /// What is told of a failure, where the arguments name the directory and the
    /// two files; nothing where the cause speaks for itself.
    pub open spec fn message(self, dir: Seq<char>, cert: Seq<char>, key: Seq<char>) -> Option<
        Seq<char>,
    > {
        match self {
            LoadFailure::Directory => Some("Failed to create directory: "@ + dir),
            LoadFailure::CertNotOpened => Some("Failed to open certificate file: "@ + cert),
            LoadFailure::CertNotRead | LoadFailure::CertMalformed => Some(
                "Failed to parse certificates"@,
            ),
            LoadFailure::NoCertificates => Some("No certificates found in file: "@ + cert),
            LoadFailure::KeyNotOpened => Some("Failed to open key file: "@ + key),
            LoadFailure::NoPrivateKey => Some("No private key found in file: "@ + key),
            LoadFailure::Generation
            | LoadFailure::Store
            | LoadFailure::KeyNotRead
            | LoadFailure::KeyMalformed => None,
        }
    }
}

impl LoadError {
    /// What is told of the error, where the arguments name the directory and the
    /// two files; nothing where the cause speaks for itself.
    pub fn message(&self, dir: &str, cert: &str, key: &str) -> (r: Option<String>)
        ensures
            match self@.message(dir@, cert@, key@) {
                Some(message) => r matches Some(text) && text@ == message,
                None => r is None,
            },
            self is Directory ==> (r matches Some(text) && text@ == "Failed to create directory: "@
                + dir@),
            self is CertNotOpened ==> (r matches Some(text) && text@
                == "Failed to open certificate file: "@ + cert@),
            self is CertNotRead || self is CertMalformed ==> (r matches Some(text) && text@
                == "Failed to parse certificates"@),
            self is NoCertificates ==> (r matches Some(text) && text@
                == "No certificates found in file: "@ + cert@),
            self is KeyNotOpened ==> (r matches Some(text) && text@ == "Failed to open key file: "@
                + key@),
            self is NoPrivateKey ==> (r matches Some(text) && text@
                == "No private key found in file: "@ + key@),
            self is Generation || self is Store || self is KeyNotRead || self is KeyMalformed
                <==> r is None,
    {
        let (start, rest) = match self {
            LoadError::Directory => ("Failed to create directory: ", dir),
            LoadError::CertNotOpened => ("Failed to open certificate file: ", cert),
            LoadError::CertNotRead | LoadError::CertMalformed(_) => {
                return Some("Failed to parse certificates".to_owned());
            },
            LoadError::NoCertificates => ("No certificates found in file: ", cert),
            LoadError::KeyNotOpened => ("Failed to open key file: ", key),
            LoadError::NoPrivateKey => ("No private key found in file: ", key),
            LoadError::Generation(_)
            | LoadError::Store
            | LoadError::KeyNotRead
            | LoadError::KeyMalformed(_) => return None,
        };
        let mut text = start.to_owned();
        text.append(rest);
        Some(text)
    }
}

/// The names for which the proxy's own certificate is made: the host name and
/// the loopback address.
pub open spec fn server_names() -> Seq<Seq<char>> {
    seq!["localhost"@, "127.0.0.1"@]
}

/// Whether a text reads as this one certificate, and no private key stands in it.
pub open spec fn certificate_only(text: Seq<char>, der: Seq<u8>) -> bool {
    &&& pem_certificates(encode_utf8(text)) == Some(seq![der])
    &&& pem_private_key(encode_utf8(text)) == Some(None::<(KeyFormat, Seq<u8>)>)
}

/// Whether a text reads as a PKCS #8 key with these bytes, and no certificate
/// stands in it.
pub open spec fn key_only(text: Seq<char>, der: Seq<u8>) -> bool {
    &&& pem_private_key(encode_utf8(text)) == Some(Some((KeyFormat::Pkcs8, der)))
    &&& pem_certificates(encode_utf8(text)) == Some(Seq::<Seq<u8>>::empty())
}

/// Whether these two texts are a key and a certificate made for it: the one
/// reads back as a PKCS #8 key and no more, the other as the one certificate that
/// this key signs for the names of the server and no more, and in the certificate
/// stands an Ed25519 key, the public half of that key.
pub open spec fn made_together(cert: Seq<char>, key: Seq<char>) -> bool {
    &&& pem_private_key(encode_utf8(key)) matches Some(Some((_, key_der)))
    &&& key_only(key, key_der)
    &&& self_signed_der(server_names(), key_der) matches Some(der)
    &&& certificate_only(cert, der)
    &&& x509_subject_key(der) == Some((ed25519_oid(), ed25519_public_half(key_der)))
}

/// Makes the certificate for the Ed25519 key in PKCS #8 bytes, signed by that
/// key. The text that is returned reads back as that one certificate and holds no
/// private key, and the key in the certificate is the public half of the signing
/// key.
pub fn sign_server_cert(key: &[u8]) -> (r: Result<SignedCert, rcgen::Error>)
    ensures
        r is Ok <==> self_signed_der(server_names(), key@) is Some,
        r matches Ok(cert) ==> {
            &&& cert.public_key@ == ed25519_public_half(key@)
            &&& self_signed_der(server_names(), key@) matches Some(der)
            &&& certificate_only(cert.pem@, der)
            &&& pem_certificates(encode_utf8(cert.pem@)) == Some(seq![der])
            &&& pem_private_key(encode_utf8(cert.pem@)) == Some(None::<(KeyFormat, Seq<u8>)>)
            &&& x509_subject_key(der) == Some((ed25519_oid(), cert.public_key@))
        },
{
    let names = vec!["localhost".to_owned(), "127.0.0.1".to_owned()];
    proof {
        reveal_strlit("localhost");
        reveal_strlit("127.0.0.1");
        assert(names.deep_view() =~= server_names());
    }
    self_sign(names, key)
}

/// Makes the certificate for a key, given as what drawing it returned: the key,
/// whose text is kept as it is, or the error, handed on. A key fails only where
/// `sign_server_cert` fails for it.
pub fn certify_key(drawn: Result<DrawnKey, rcgen::Error>) -> (r: Result<ServerPem, GenerationError>)
    ensures
        match drawn {
            Err(error) => r == Err::<ServerPem, GenerationError>(
                GenerationError::KeyNotDrawn(error),
            ),
            Ok(key) => match self_signed_der(server_names(), key.der@) {
                Some(der) => {
                    &&& r matches Ok(made)
                    &&& made.key@ == key.pem@
                    &&& certificate_only(made.cert@, der)
                    &&& pem_certificates(encode_utf8(made.cert@)) == Some(seq![der])
                    &&& pem_private_key(encode_utf8(made.cert@)) == Some(
                        None::<(KeyFormat, Seq<u8>)>,
                    )
                    &&& x509_subject_key(der) == Some(
                        (ed25519_oid(), ed25519_public_half(key.der@)),
                    )
                },
                None => r matches Err(GenerationError::NotSigned(_)),
            },
        },
{
    let key = match drawn {
        Ok(key) => key,
        Err(error) => return Err(GenerationError::KeyNotDrawn(error)),
    };
    match sign_server_cert(key.der.as_slice()) {
        Ok(cert) => Ok(ServerPem { cert: cert.pem, key: key.pem }),
        Err(error) => Err(GenerationError::NotSigned(error)),
    }
}

/// Makes a new key and a certificate for it, by `certify_key`. The key is
/// random, and whether one can be drawn rests on the system: that is all that
/// can fail. Whatever key is drawn, the two texts are made together.
pub fn generate_server_pem() -> (r: Result<ServerPem, GenerationError>)
    ensures
        r matches Ok(made) ==> made_together(made.cert@, made.key@),
        r matches Err(error) ==> error is KeyNotDrawn,
        r matches Ok(made) ==> {
            &&& pem_private_key(encode_utf8(made.key@)) matches Some(Some((format, key_der)))
            &&& format is Pkcs8
            &&& pem_certificates(encode_utf8(made.key@)) == Some(Seq::<Seq<u8>>::empty())
            &&& self_signed_der(seq!["localhost"@, "127.0.0.1"@], key_der) matches Some(der)
            &&& pem_certificates(encode_utf8(made.cert@)) == Some(seq![der])
            &&& pem_private_key(encode_utf8(made.cert@)) == Some(None::<(KeyFormat, Seq<u8>)>)
            &&& x509_subject_key(der) == Some(
                (seq![43u8, 101, 112], ed25519_public_half(key_der)),
            )
        },
{
    certify_key(generate_ed25519_key())
}

/// The chain in a certificate file, or why there is none, from what the reader
/// of PEM found in it.
pub open spec fn certs_verdict(found: Option<Seq<Seq<u8>>>) -> Result<Seq<Seq<u8>>, LoadFailure> {
    match found {
        None => Err(LoadFailure::CertMalformed),
        Some(certs) => if certs.len() == 0 {
            Err(LoadFailure::NoCertificates)
        } else {
            Ok(certs)
        },
    }
}

/// The key in a key file, or why there is none, from what the reader of PEM
/// found in it.
pub open spec fn key_verdict(found: Option<Option<(KeyFormat, Seq<u8>)>>) -> Result<
    (KeyFormat, Seq<u8>),
    LoadFailure,
> {
    match found {
        None => Err(LoadFailure::KeyMalformed),
        Some(None) => Err(LoadFailure::NoPrivateKey),
        Some(Some(key)) => Ok(key),
    }
}

/// Takes at least one certificate from what the reader of PEM returned.
pub fn require_certs(found: Result<Vec<Vec<u8>>, std::io::Error>) -> (r: Result<
    Vec<Vec<u8>>,
    LoadError,
>)
    ensures
        match found {
            Err(error) => r == Err::<Vec<Vec<u8>>, LoadError>(LoadError::CertMalformed(error)),
            Ok(certs) => if certs@.len() == 0 {
                r == Err::<Vec<Vec<u8>>, LoadError>(LoadError::NoCertificates)
            } else {
                r == Ok::<Vec<Vec<u8>>, LoadError>(certs)
            },
        },
{
    match found {
        Err(error) => Err(LoadError::CertMalformed(error)),
        Ok(certs) => {
            if certs.len() == 0 {
                Err(LoadError::NoCertificates)
            } else {
                Ok(certs)
            }
        },
    }
}

/// Takes a key from what the reader of PEM returned.
pub fn require_key(found: Result<Option<PrivateKey>, std::io::Error>) -> (r: Result<
    PrivateKey,
    LoadError,
>)
    ensures
        match found {
            Err(error) => r == Err::<PrivateKey, LoadError>(LoadError::KeyMalformed(error)),
            Ok(None) => r == Err::<PrivateKey, LoadError>(LoadError::NoPrivateKey),
            Ok(Some(key)) => r == Ok::<PrivateKey, LoadError>(key),
        },
{
    match found {
        Err(error) => Err(LoadError::KeyMalformed(error)),
        Ok(None) => Err(LoadError::NoPrivateKey),
        Ok(Some(key)) => Ok(key),
    }
}

/// The certificates in the contents of a certificate file, at least one.
pub fn parse_certs(pem: &[u8]) -> (r: Result<Vec<Vec<u8>>, LoadError>)
    ensures
        match certs_verdict(pem_certificates(pem@)) {
            Ok(certs) => r matches Ok(parsed) && parsed.deep_view() == certs,
            Err(failure) => r matches Err(error) && error@ == failure,
        },
        r is Ok <==> (pem_certificates(pem@) matches Some(certs) && certs.len() > 0),
        r matches Ok(parsed) ==> pem_certificates(pem@) == Some(parsed.deep_view()),
        r matches Err(LoadError::NoCertificates) <==> pem_certificates(pem@) == Some(
            Seq::<Seq<u8>>::empty(),
        ),
        r matches Err(LoadError::CertMalformed(_)) <==> pem_certificates(pem@) is None,
{
    proof {
        if pem_certificates(pem@) is Some && pem_certificates(pem@)->0.len() == 0 {
            assert(pem_certificates(pem@)->0 =~= Seq::<Seq<u8>>::empty());
        }
    }
    require_certs(read_certificates(pem))
}

/// The first private key in the contents of a key file.
pub fn parse_private_key(pem: &[u8]) -> (r: Result<PrivateKey, LoadError>)
    ensures
        match key_verdict(pem_private_key(pem@)) {
            Ok(key) => r matches Ok(parsed) && parsed@ == key,
            Err(failure) => r matches Err(error) && error@ == failure,
        },
        r is Ok <==> (pem_private_key(pem@) matches Some(Some(_))),
        r matches Ok(parsed) ==> pem_private_key(pem@) == Some(
            Some((parsed.format, parsed.der@)),
        ),
        r matches Err(LoadError::NoPrivateKey) <==> pem_private_key(pem@) == Some(
            None::<(KeyFormat, Seq<u8>)>,
        ),
        r matches Err(LoadError::KeyMalformed(_)) <==> pem_private_key(pem@) is None,
{
    require_key(read_private_key(pem))
}

/// A PEM section without contents, of a kind that no reader looks for.
pub const CUT_SECTION: &'static str = "-----BEGIN CUT-----\n-----END CUT-----\n";

/// The lines of a text that are complete.
pub open spec fn complete_lines(text: Seq<u8>) -> Seq<u8>
    decreases text.len(),
{
    if text.len() == 0 || text.last() == 0x0a || text.last() == 0x0d {
        text
    } else {
        complete_lines(text.drop_last())
    }
}

/// What a reader of PEM is given of a file that could be read only as far as
/// `part`: the lines that are complete, and after them an empty section, which
/// closes a section that was left open. So what it finds, or finds wrong, is what
/// stands before the place where reading failed.
pub open spec fn before_cut(part: Seq<u8>) -> Seq<u8> {
    complete_lines(part) + encode_utf8(CUT_SECTION@)
}

/// What a reader of PEM is given of a file that could be read only as far as
/// `part`.
pub fn close_cut(part: &[u8]) -> (r: Vec<u8>)
    ensures
        r@ == before_cut(part@),
        exists|end: int|
            #![trigger part@.take(end)]
            {
                &&& 0 <= end <= part@.len()
                &&& end > 0 ==> part@[end - 1] == 10 || part@[end - 1] == 13
                &&& forall|i: int|
                    end <= i < part@.len() ==> #[trigger] part@[i] != 10 && part@[i] != 13
                &&& r@ == part@.take(end) + encode_utf8(
                    "-----BEGIN CUT-----\n-----END CUT-----\n"@,
                )
            },
{
    let mut end: usize = part.len();
    assert(part@.take(end as int) == part@);
    while end > 0 && part[end - 1] != 0x0a && part[end - 1] != 0x0d
        invariant
            end <= part@.len(),
            complete_lines(part@) == complete_lines(part@.take(end as int)),
            forall|i: int|
                end <= i < part@.len() ==> #[trigger] part@[i] != 10 && part@[i] != 13,
        decreases end,
    {
        assert(part@.take(end as int).drop_last() == part@.take(end - 1));
        end = end - 1;
    }
    let mut text = slice_to_vec(slice_subrange(part, 0, end));
    text.extend_from_slice(CUT_SECTION.as_bytes());
    assert(text@ == part@.take(end as int) + encode_utf8(CUT_SECTION@));
    assert(text@ == before_cut(part@));
    text
}

/// Why a certificate file that could not be read to its end gives no chain, from
/// what the reader of PEM found before the place where reading failed: what it
/// found wrong, or that the file could not be read on.
pub open spec fn cut_certs_verdict(found: Option<Seq<Seq<u8>>>) -> LoadFailure {
    match found {
        None => LoadFailure::CertMalformed,
        Some(_) => LoadFailure::CertNotRead,
    }
}

/// The key in a key file that could not be read to its end, from what the reader
/// of PEM found before the place where reading failed: a key that stands there is
/// as good as in a whole file.
pub open spec fn cut_key_verdict(found: Option<Option<(KeyFormat, Seq<u8>)>>) -> Result<
    (KeyFormat, Seq<u8>),
    LoadFailure,
> {
    match found {
        None => Err(LoadFailure::KeyMalformed),
        Some(None) => Err(LoadFailure::KeyNotRead),
        Some(Some(key)) => Ok(key),
    }
}

/// Judges a certificate file that could not be read to its end by what the reader
/// of PEM returned on what stands before that place.
pub fn judge_cut_certs(found: Result<Vec<Vec<u8>>, std::io::Error>) -> (r: LoadError)
    ensures
        match found {
            Err(error) => r == LoadError::CertMalformed(error),
            Ok(_) => r == LoadError::CertNotRead,
        },
{
    match found {
        Err(error) => LoadError::CertMalformed(error),
        Ok(_) => LoadError::CertNotRead,
    }
}

/// Takes a key from what the reader of PEM returned on what stands before the
/// place where reading failed.
pub fn require_key_before_cut(found: Result<Option<PrivateKey>, std::io::Error>) -> (r: Result<
    PrivateKey,
    LoadError,
>)
    ensures
        match found {
            Err(error) => r == Err::<PrivateKey, LoadError>(LoadError::KeyMalformed(error)),
            Ok(None) => r == Err::<PrivateKey, LoadError>(LoadError::KeyNotRead),
            Ok(Some(key)) => r == Ok::<PrivateKey, LoadError>(key),
        },
{
    match found {
        Err(error) => Err(LoadError::KeyMalformed(error)),
        Ok(None) => Err(LoadError::KeyNotRead),
        Ok(Some(key)) => Ok(key),
    }
}

/// Why a certificate file that could be read only as far as `part` gives no
/// chain.
pub fn parse_cut_certs(part: &[u8]) -> (r: LoadError)
    ensures
        r@ == cut_certs_verdict(pem_certificates(before_cut(part@))),
        r is CertMalformed <==> pem_certificates(before_cut(part@)) is None,
        r is CertNotRead <==> pem_certificates(before_cut(part@)) is Some,
{
    judge_cut_certs(read_certificates(close_cut(part).as_slice()))
}

/// The first private key in a key file that could be read only as far as `part`.
pub fn parse_cut_private_key(part: &[u8]) -> (r: Result<PrivateKey, LoadError>)
    ensures
        match cut_key_verdict(pem_private_key(before_cut(part@))) {
            Ok(key) => r matches Ok(parsed) && parsed@ == key,
            Err(failure) => r matches Err(error) && error@ == failure,
        },
        r is Ok <==> (pem_private_key(before_cut(part@)) matches Some(Some(_))),
        r matches Ok(parsed) ==> pem_private_key(before_cut(part@)) == Some(
            Some((parsed.format, parsed.der@)),
        ),
        r matches Err(LoadError::KeyNotRead) <==> pem_private_key(before_cut(part@)) == Some(
            None::<(KeyFormat, Seq<u8>)>,
        ),
        r matches Err(LoadError::KeyMalformed(_)) <==> pem_private_key(before_cut(part@)) is None,
{
    require_key_before_cut(read_private_key(close_cut(part).as_slice()))
}

/// What is to be done next to obtain the credentials.
pub enum LoadState {
    /// Find out whether the certificate file exists.
    CheckCert,
    /// Find out whether the key file exists.
    CheckKey,
    /// Make the directory of the files, where their path names one.
    CreateDir,
    /// Make a key and a certificate.
    Generate,
    /// Write the certificate file; the key file comes after it.
    StoreCert(ServerPem),
    /// Write the key file.
    StoreKey(String),
    /// Read the certificate file.
    ReadCert,
    /// Read the key file; the certificates are at hand.
    ReadKey(Vec<Vec<u8>>),
    /// The credentials are at hand.
    Ready(ServerCredentials),
    /// There are none.
    Failed(LoadError),
}

/// What was done or found out.
pub enum LoadEvent {
    /// Whether the file exists.
    Exists(bool),
    /// Whether the directory stands.
    Directory(bool),
    /// What was made.
    Generated(Result<ServerPem, GenerationError>),
    /// Whether the file was written.
    Stored(bool),
    /// The file could not be opened.
    NotOpened,
    /// What was read of the file before reading failed.
    Interrupted(Vec<u8>),
    /// The contents of the file.
    Contents(Vec<u8>),
}

/// The view of a `LoadState`.
pub enum LoadPhase {
    CheckCert,
    CheckKey,
    CreateDir,
    Generate,
    StoreCert { cert: Seq<char>, key: Seq<char> },
    StoreKey { key: Seq<char> },
    ReadCert,
    ReadKey { certs: Seq<Seq<u8>> },
    Ready { certs: Seq<Seq<u8>>, private_key: (KeyFormat, Seq<u8>) },
    Failed { failure: LoadFailure },
}

/// The view of a `LoadEvent`.
pub enum LoadAnswer {
    Exists(bool),
    Directory(bool),
    Generated(Option<(Seq<char>, Seq<char>)>),
    Stored(bool),
    NotOpened,
    Interrupted(Seq<u8>),
    Contents(Seq<u8>),
}

impl View for LoadState {
    type V = LoadPhase;

    open spec fn view(&self) -> LoadPhase {
        match self {
            LoadState::CheckCert => LoadPhase::CheckCert,
            LoadState::CheckKey => LoadPhase::CheckKey,
            LoadState::CreateDir => LoadPhase::CreateDir,
            LoadState::Generate => LoadPhase::Generate,
            LoadState::StoreCert(made) => LoadPhase::StoreCert {
                cert: made.cert@,
                key: made.key@,
            },
            LoadState::StoreKey(key) => LoadPhase::StoreKey { key: key@ },
            LoadState::ReadCert => LoadPhase::ReadCert,
            LoadState::ReadKey(certs) => LoadPhase::ReadKey { certs: certs.deep_view() },
            LoadState::Ready(credentials) => LoadPhase::Ready {
                certs: credentials.certs.deep_view(),
                private_key: credentials.key@,
            },
            LoadState::Failed(error) => LoadPhase::Failed { failure: error@ },
        }
    }
}

impl View for LoadEvent {
    type V = LoadAnswer;

    open spec fn view(&self) -> LoadAnswer {
        match self {
            LoadEvent::Exists(exists) => LoadAnswer::Exists(*exists),
            LoadEvent::Directory(made) => LoadAnswer::Directory(*made),
            LoadEvent::Generated(Ok(made)) => LoadAnswer::Generated(Some((made.cert@, made.key@))),
            LoadEvent::Generated(Err(_)) => LoadAnswer::Generated(None),
            LoadEvent::Stored(stored) => LoadAnswer::Stored(*stored),
            LoadEvent::NotOpened => LoadAnswer::NotOpened,
            LoadEvent::Interrupted(part) => LoadAnswer::Interrupted(part@),
            LoadEvent::Contents(contents) => LoadAnswer::Contents(contents@),
        }
    }
}

/// Where `answer` leads from `phase`. An answer to something that was not asked
/// changes nothing.
pub open spec fn load_next(phase: LoadPhase, answer: LoadAnswer) -> LoadPhase {
    match (phase, answer) {
        // Both files must be there; else both are made.
        (LoadPhase::CheckCert, LoadAnswer::Exists(exists)) => if exists {
            LoadPhase::CheckKey
        } else {
            LoadPhase::CreateDir
        },
        (LoadPhase::CheckKey, LoadAnswer::Exists(exists)) => if exists {
            LoadPhase::ReadCert
        } else {
            LoadPhase::CreateDir
        },
        (LoadPhase::CreateDir, LoadAnswer::Directory(made)) => if made {
            LoadPhase::Generate
        } else {
            LoadPhase::Failed { failure: LoadFailure::Directory }
        },
        (LoadPhase::Generate, LoadAnswer::Generated(made)) => match made {
            Some((cert, key)) => LoadPhase::StoreCert { cert, key },
            None => LoadPhase::Failed { failure: LoadFailure::Generation },
        },
        (LoadPhase::StoreCert { cert: _, key }, LoadAnswer::Stored(stored)) => if stored {
            LoadPhase::StoreKey { key }
        } else {
            LoadPhase::Failed { failure: LoadFailure::Store }
        },
        (LoadPhase::StoreKey { key: _ }, LoadAnswer::Stored(stored)) => if stored {
            LoadPhase::ReadCert
        } else {
            LoadPhase::Failed { failure: LoadFailure::Store }
        },
        // What was just stored is read like what was there before.
        (LoadPhase::ReadCert, LoadAnswer::NotOpened) => LoadPhase::Failed {
            failure: LoadFailure::CertNotOpened,
        },
        (LoadPhase::ReadCert, LoadAnswer::Interrupted(part)) => LoadPhase::Failed {
            failure: cut_certs_verdict(pem_certificates(before_cut(part))),
        },
        (LoadPhase::ReadCert, LoadAnswer::Contents(pem)) => match certs_verdict(
            pem_certificates(pem),
        ) {
            Ok(certs) => LoadPhase::ReadKey { certs },
            Err(failure) => LoadPhase::Failed { failure },
        },
        (LoadPhase::ReadKey { certs: _ }, LoadAnswer::NotOpened) => LoadPhase::Failed {
            failure: LoadFailure::KeyNotOpened,
        },
        (LoadPhase::ReadKey { certs }, LoadAnswer::Interrupted(part)) => match cut_key_verdict(
            pem_private_key(before_cut(part)),
        ) {
            Ok(private_key) => LoadPhase::Ready { certs, private_key },
            Err(failure) => LoadPhase::Failed { failure },
        },
        (LoadPhase::ReadKey { certs }, LoadAnswer::Contents(pem)) => match key_verdict(
            pem_private_key(pem),
        ) {
            Ok(private_key) => LoadPhase::Ready { certs, private_key },
            Err(failure) => LoadPhase::Failed { failure },
        },
        _ => phase,
    }
}

impl LoadState {
    /// The first thing to do.
    pub fn start() -> (r: LoadState)
        ensures
            r@ == LoadPhase::CheckCert,
    {
        LoadState::CheckCert
    }

    /// What is to be done after `event`.
    pub fn advance(self, event: LoadEvent) -> (r: LoadState)
        ensures
            r@ == load_next(self@, event@),
            load_next(self@, event@) == self@ ==> r == self,
            self is Failed || self is Ready ==> r == self,
            self matches LoadState::StoreCert(made) ==> (event == LoadEvent::Stored(true) ==> r
                == LoadState::StoreKey(made.key)),
            self is Generate ==> (event matches LoadEvent::Generated(Ok(made)) ==> r
                == LoadState::StoreCert(made)),
            self matches LoadState::ReadKey(certs) ==> (r matches LoadState::Ready(served)
                ==> served.certs == certs),
            self is ReadCert ==> (event matches LoadEvent::Contents(pem) ==> {
                &&& r is ReadKey <==> (pem_certificates(pem@) matches Some(certs) && certs.len()
                    > 0)
                &&& r matches LoadState::ReadKey(certs) ==> pem_certificates(pem@) == Some(
                    certs.deep_view(),
                )
            }),
            self is ReadKey ==> (event matches LoadEvent::Contents(pem) ==> {
                &&& r is Ready <==> (pem_private_key(pem@) matches Some(Some(_)))
                &&& r matches LoadState::Ready(served) ==> pem_private_key(pem@) == Some(
                    Some((served.key.format, served.key.der@)),
                )
            }),
            self is Generate ==> (event matches LoadEvent::Generated(Err(error)) ==> r
                == LoadState::Failed(LoadError::Generation(error))),
    {
        match (self, event) {
            (LoadState::CheckCert, LoadEvent::Exists(true)) => LoadState::CheckKey,
            (LoadState::CheckCert, LoadEvent::Exists(false)) => LoadState::CreateDir,
            (LoadState::CheckKey, LoadEvent::Exists(true)) => LoadState::ReadCert,
            (LoadState::CheckKey, LoadEvent::Exists(false)) => LoadState::CreateDir,
            (LoadState::CreateDir, LoadEvent::Directory(true)) => LoadState::Generate,
            (LoadState::CreateDir, LoadEvent::Directory(false)) => {
                LoadState::Failed(LoadError::Directory)
            },
            (LoadState::Generate, LoadEvent::Generated(Ok(made))) => LoadState::StoreCert(made),
            (LoadState::Generate, LoadEvent::Generated(Err(error))) => {
                LoadState::Failed(LoadError::Generation(error))
            },
            (LoadState::StoreCert(made), LoadEvent::Stored(true)) => LoadState::StoreKey(made.key),
            (LoadState::StoreKey(_), LoadEvent::Stored(true)) => LoadState::ReadCert,
            (LoadState::StoreCert(_) | LoadState::StoreKey(_), LoadEvent::Stored(false)) => {
                LoadState::Failed(LoadError::Store)
            },
            (LoadState::ReadCert, LoadEvent::NotOpened) => {
                LoadState::Failed(LoadError::CertNotOpened)
            },
            (LoadState::ReadCert, LoadEvent::Interrupted(part)) => {
                LoadState::Failed(parse_cut_certs(part.as_slice()))
            },
            (LoadState::ReadCert, LoadEvent::Contents(pem)) => match parse_certs(pem.as_slice()) {
                Ok(certs) => LoadState::ReadKey(certs),
                Err(error) => LoadState::Failed(error),
            },
            (LoadState::ReadKey(_), LoadEvent::NotOpened) => {
                LoadState::Failed(LoadError::KeyNotOpened)
            },
            (LoadState::ReadKey(certs), LoadEvent::Interrupted(part)) => {
                match parse_cut_private_key(part.as_slice()) {
                    Ok(key) => LoadState::Ready(ServerCredentials { certs, key }),
                    Err(error) => LoadState::Failed(error),
                }
            },
            (LoadState::ReadKey(certs), LoadEvent::Contents(pem)) => {
                match parse_private_key(pem.as_slice()) {
                    Ok(key) => LoadState::Ready(ServerCredentials { certs, key }),
                    Err(error) => LoadState::Failed(error),
                }
            },
            (state, _) => state,
        }
    }
}

/// The chain is the whole series of certificates in the file, in order: it is
/// refused only where the file is not well formed or holds none, and no
/// certificate is ever left out, put in or moved.
pub proof fn chain_is_the_whole_file(pem: Seq<u8>, certs: Seq<Seq<u8>>)
    requires
        pem_certificates(pem) == Some(certs),
        certs.len() > 0,
    ensures
        certs_verdict(pem_certificates(pem)) == Ok::<Seq<Seq<u8>>, LoadFailure>(certs),
        load_next(LoadPhase::ReadCert, LoadAnswer::Contents(pem)) == (LoadPhase::ReadKey { certs }),
{
}

/// A certificate file gives no chain exactly if it is not well formed or holds no
/// certificate, and the reason is told.
pub proof fn no_chain_has_its_reason(pem: Seq<u8>)
    ensures
        pem_certificates(pem) is None <==> certs_verdict(pem_certificates(pem)) == Err::<
            Seq<Seq<u8>>,
            LoadFailure,
        >(LoadFailure::CertMalformed),
        pem_certificates(pem) == Some(Seq::<Seq<u8>>::empty()) <==> certs_verdict(
            pem_certificates(pem),
        ) == Err::<Seq<Seq<u8>>, LoadFailure>(LoadFailure::NoCertificates),
{
    if pem_certificates(pem) is Some && pem_certificates(pem)->0.len() == 0 {
        assert(pem_certificates(pem)->0 =~= Seq::<Seq<u8>>::empty());
    }
}

/// The key is the one found in the file, whatever its format and its length, and
/// it is served with the chain that was read before it.
pub proof fn found_key_is_served(
    pem: Seq<u8>,
    format: KeyFormat,
    der: Seq<u8>,
    certs: Seq<Seq<u8>>,
)
    requires
        pem_private_key(pem) == Some(Some((format, der))),
    ensures
        key_verdict(pem_private_key(pem)) == Ok::<(KeyFormat, Seq<u8>), LoadFailure>((format, der)),
        load_next(LoadPhase::ReadKey { certs }, LoadAnswer::Contents(pem)) == (LoadPhase::Ready {
            certs,
            private_key: (format, der),
        }),
{
}

/// A key file gives no key exactly if it is not well formed or holds none, and
/// the reason is told.
pub proof fn no_key_has_its_reason(pem: Seq<u8>, certs: Seq<Seq<u8>>)
    ensures
        pem_private_key(pem) is None <==> load_next(
            LoadPhase::ReadKey { certs },
            LoadAnswer::Contents(pem),
        ) == (LoadPhase::Failed { failure: LoadFailure::KeyMalformed }),
        pem_private_key(pem) == Some(None::<(KeyFormat, Seq<u8>)>) <==> load_next(
            LoadPhase::ReadKey { certs },
            LoadAnswer::Contents(pem),
        ) == (LoadPhase::Failed { failure: LoadFailure::NoPrivateKey }),
        key_verdict(pem_private_key(pem)) == Err::<(KeyFormat, Seq<u8>), LoadFailure>(
            LoadFailure::NoPrivateKey,
        ) <==> pem_private_key(pem) == Some(None::<(KeyFormat, Seq<u8>)>),
{
}

/// After both files are read, what is served is what stands in them: all the
/// certificates of the one and the key of the other.
pub proof fn served_is_what_the_files_hold(
    cert: Seq<u8>,
    key: Seq<u8>,
    certs: Seq<Seq<u8>>,
    private_key: (KeyFormat, Seq<u8>),
)
    requires
        certs.len() > 0,
    ensures
        load_run(
            LoadPhase::ReadCert,
            seq![LoadAnswer::Contents(cert), LoadAnswer::Contents(key)],
        ) == (LoadPhase::Ready { certs, private_key }) <==> pem_certificates(cert) == Some(certs)
            && pem_private_key(key) == Some(Some(private_key)),
{
    let both = seq![LoadAnswer::Contents(cert), LoadAnswer::Contents(key)];
    assert(both.drop_last() == seq![LoadAnswer::Contents(cert)]);
    assert(both.drop_last().drop_last() == Seq::<LoadAnswer>::empty());
    reveal_with_fuel(load_run, 3);
}

/// What a cut file is looked through for is its lines up to the last line end, as
/// they are; no line end stands in what is left out.
pub proof fn lines_before_cut_are_kept(lines: Seq<u8>, rest: Seq<u8>)
    requires
        lines.len() > 0 ==> lines[lines.len() - 1] == 10 || lines[lines.len() - 1] == 13,
        forall|i: int| 0 <= i < rest.len() ==> #[trigger] rest[i] != 10 && rest[i] != 13,
    ensures
        complete_lines(lines + rest) == lines,
        before_cut(lines + rest) == lines + encode_utf8(
            "-----BEGIN CUT-----\n-----END CUT-----\n"@,
        ),
    decreases rest.len(),
{
    if rest.len() == 0 {
        assert(lines + rest == lines);
    } else {
        assert((lines + rest).last() == rest[rest.len() - 1]);
        assert((lines + rest).drop_last() == lines + rest.drop_last());
        lines_before_cut_are_kept(lines, rest.drop_last());
    }
}

/// A cut certificate file never gives a chain, and a cut key file gives exactly
/// the key that stands before the cut. Each failure is told by its reason.
pub proof fn cut_file_gives_what_stands_before(part: Seq<u8>, certs: Seq<Seq<u8>>)
    ensures
        ({
            let read_cert = load_next(LoadPhase::ReadCert, LoadAnswer::Interrupted(part));
            let found = pem_certificates(before_cut(part));
            &&& found is None ==> read_cert == (LoadPhase::Failed {
                failure: LoadFailure::CertMalformed,
            })
            &&& found is Some ==> read_cert == (LoadPhase::Failed {
                failure: LoadFailure::CertNotRead,
            })
        }),
        ({
            let read_key = load_next(LoadPhase::ReadKey { certs }, LoadAnswer::Interrupted(part));
            match pem_private_key(before_cut(part)) {
                None => read_key == (LoadPhase::Failed { failure: LoadFailure::KeyMalformed }),
                Some(None) => read_key == (LoadPhase::Failed { failure: LoadFailure::KeyNotRead }),
                Some(Some(private_key)) => read_key == (LoadPhase::Ready { certs, private_key }),
            }
        }),
{
}

/// The files are read only if both exist; else both are made, in their directory,
/// and what is stored is exactly what was made, the certificate before the key.
pub proof fn every_step_to_the_files(
    present: bool,
    done: bool,
    cert: Seq<char>,
    key: Seq<char>,
    certs: Seq<Seq<u8>>,
)
    ensures
        load_next(LoadPhase::CheckCert, LoadAnswer::Exists(present)) is CheckKey <==> present,
        load_next(LoadPhase::CheckCert, LoadAnswer::Exists(present)) is CreateDir <==> !present,
        load_next(LoadPhase::CheckKey, LoadAnswer::Exists(present)) is ReadCert <==> present,
        load_next(LoadPhase::CheckKey, LoadAnswer::Exists(present)) is CreateDir <==> !present,
        load_next(LoadPhase::CreateDir, LoadAnswer::Directory(done)) is Generate <==> done,
        load_next(LoadPhase::CreateDir, LoadAnswer::Directory(false)) == (LoadPhase::Failed {
            failure: LoadFailure::Directory,
        }),
        load_next(LoadPhase::Generate, LoadAnswer::Generated(Some((cert, key)))) == (
        LoadPhase::StoreCert { cert, key }),
        load_next(LoadPhase::Generate, LoadAnswer::Generated(None)) == (LoadPhase::Failed {
            failure: LoadFailure::Generation,
        }),
        load_next(LoadPhase::StoreCert { cert, key }, LoadAnswer::Stored(true)) == (
        LoadPhase::StoreKey { key }),
        load_next(LoadPhase::StoreCert { cert, key }, LoadAnswer::Stored(false)) == (
        LoadPhase::Failed { failure: LoadFailure::Store }),
        load_next(LoadPhase::StoreKey { key }, LoadAnswer::Stored(done)) is ReadCert <==> done,
        load_next(LoadPhase::StoreKey { key }, LoadAnswer::Stored(false)) == (LoadPhase::Failed {
            failure: LoadFailure::Store,
        }),
        load_next(LoadPhase::ReadCert, LoadAnswer::NotOpened) == (LoadPhase::Failed {
            failure: LoadFailure::CertNotOpened,
        }),
        load_next(LoadPhase::ReadKey { certs }, LoadAnswer::NotOpened) == (LoadPhase::Failed {
            failure: LoadFailure::KeyNotOpened,
        }),
{
}

/// An answer to something that was not asked changes nothing, and nothing leads
/// out of an end.
pub proof fn unasked_answers_change_nothing(phase: LoadPhase, answer: LoadAnswer)
    requires
        phase is CheckCert || phase is CheckKey ==> !(answer is Exists),
        phase is CreateDir ==> !(answer is Directory),
        phase is Generate ==> !(answer is Generated),
        phase is StoreCert || phase is StoreKey ==> !(answer is Stored),
        phase is ReadCert || phase is ReadKey ==> !(answer is NotOpened) && !(answer is Contents)
            && !(answer is Interrupted),
    ensures
        load_next(phase, answer) == phase,
{
}

/// A phase shows what its state holds: the texts to be stored, the certificates
/// and the key, byte by byte.
pub proof fn phase_shows_the_state(state: LoadState)
    ensures
        state is CheckCert <==> state@ is CheckCert,
        state is CheckKey <==> state@ is CheckKey,
        state is CreateDir <==> state@ is CreateDir,
        state is Generate <==> state@ is Generate,
        state is ReadCert <==> state@ is ReadCert,
        state is Failed <==> state@ is Failed,
        state matches LoadState::StoreCert(made) ==> state@ == (LoadPhase::StoreCert {
            cert: made.cert@,
            key: made.key@,
        }),
        state matches LoadState::StoreKey(key) ==> state@ == (LoadPhase::StoreKey { key: key@ }),
        state matches LoadState::ReadKey(certs) ==> state@ == (LoadPhase::ReadKey {
            certs: certs.deep_view(),
        }),
        state matches LoadState::Ready(served) ==> state@ == (LoadPhase::Ready {
            certs: served.certs.deep_view(),
            private_key: (served.key.format, served.key.der@),
        }) && served.key@ == (served.key.format, served.key.der@),
        state matches LoadState::Failed(error) ==> state@ == (LoadPhase::Failed {
            failure: error@,
        }),
{
}

/// An answer shows what its event holds, and a failure which error it was.
pub proof fn answer_shows_the_event(event: LoadEvent, error: LoadError)
    ensures
        event matches LoadEvent::Exists(present) ==> event@ == LoadAnswer::Exists(present),
        event matches LoadEvent::Directory(done) ==> event@ == LoadAnswer::Directory(done),
        event matches LoadEvent::Stored(done) ==> event@ == LoadAnswer::Stored(done),
        event is NotOpened ==> event@ is NotOpened,
        event matches LoadEvent::Contents(pem) ==> event@ == LoadAnswer::Contents(pem@),
        event matches LoadEvent::Interrupted(part) ==> event@ == LoadAnswer::Interrupted(part@),
        event matches LoadEvent::Generated(Ok(made)) ==> event@ == LoadAnswer::Generated(
            Some((made.cert@, made.key@)),
        ),
        event matches LoadEvent::Generated(Err(_)) ==> event@ == LoadAnswer::Generated(None),
        error is Directory <==> error@ is Directory,
        error is Generation <==> error@ is Generation,
        error is Store <==> error@ is Store,
        error is CertNotOpened <==> error@ is CertNotOpened,
        error is CertNotRead <==> error@ is CertNotRead,
        error is CertMalformed <==> error@ is CertMalformed,
        error is NoCertificates <==> error@ is NoCertificates,
        error is KeyNotOpened <==> error@ is KeyNotOpened,
        error is KeyNotRead <==> error@ is KeyNotRead,
        error is KeyMalformed <==> error@ is KeyMalformed,
        error is NoPrivateKey <==> error@ is NoPrivateKey,
{
}

/// The certificate is made for the host name `localhost` and the address
/// `127.0.0.1`, in this order, and for no other name.
pub proof fn names_of_the_server()
    ensures
        server_names().len() == 2,
        server_names()[0] == "localhost"@,
        server_names()[1] == "127.0.0.1"@,
{
}

/// Where a series of answers leads from `phase`.
pub open spec fn load_run(phase: LoadPhase, answers: Seq<LoadAnswer>) -> LoadPhase
    decreases answers.len(),
{
    if answers.len() == 0 {
        phase
    } else {
        load_next(load_run(phase, answers.drop_last()), answers.last())
    }
}

/// Whether a phase makes or writes something.
pub open spec fn writes(phase: LoadPhase) -> bool {
    phase is CreateDir || phase is Generate || phase is StoreCert || phase is StoreKey
}

/// Credentials that are there are kept: where both files exist, the files are
/// read and nothing is made or written, whatever follows.
pub proof fn existing_credentials_are_kept(later: Seq<LoadAnswer>)
    ensures
        ({
            let phase = load_run(
                LoadPhase::CheckCert,
                seq![LoadAnswer::Exists(true), LoadAnswer::Exists(true)] + later,
            );
            &&& !writes(phase)
            &&& phase is ReadCert || phase is ReadKey || phase is Ready || phase is Failed
        }),
    decreases later.len(),
{
    let both = seq![LoadAnswer::Exists(true), LoadAnswer::Exists(true)];
    let answers = both + later;
    if later.len() == 0 {
        reveal_with_fuel(load_run, 3);
        assert(answers == both);
        assert(both.drop_last() == seq![LoadAnswer::Exists(true)]);
        assert(both.drop_last().drop_last() == Seq::<LoadAnswer>::empty());
    } else {
        assert(answers.drop_last() == both + later.drop_last());
        existing_credentials_are_kept(later.drop_last());
    }
}

/// Where both files exist, what they hold decides: the certificates of the one
/// with the key of the other are served, or the first thing that is wrong with
/// them is reported, the certificate file coming first.
pub proof fn existing_files_decide(cert: Seq<u8>, key: Seq<u8>)
    ensures
        load_run(
            LoadPhase::CheckCert,
            seq![
                LoadAnswer::Exists(true),
                LoadAnswer::Exists(true),
                LoadAnswer::Contents(cert),
                LoadAnswer::Contents(key),
            ],
        ) == (match certs_verdict(pem_certificates(cert)) {
            Err(failure) => LoadPhase::Failed { failure },
            Ok(certs) => match key_verdict(pem_private_key(key)) {
                Err(failure) => LoadPhase::Failed { failure },
                Ok(private_key) => LoadPhase::Ready { certs, private_key },
            },
        }),
{
    let exists = LoadAnswer::Exists(true);
    let read_cert = LoadAnswer::Contents(cert);
    let read_key = LoadAnswer::Contents(key);
    let all = seq![exists, exists, read_cert, read_key];
    assert(all.drop_last() == seq![exists, exists, read_cert]);
    assert(seq![exists, exists, read_cert].drop_last() == seq![exists, exists]);
    assert(seq![exists, exists].drop_last() == seq![exists]);
    assert(seq![exists].drop_last() == Seq::<LoadAnswer>::empty());
    reveal_with_fuel(load_run, 5);
}

/// Where either file is missing, the next thing to do is to make their
/// directory, and with it both files.
pub proof fn missing_file_is_made(cert_exists: bool)
    ensures
        load_run(
            LoadPhase::CheckCert,
            if cert_exists {
                seq![LoadAnswer::Exists(true), LoadAnswer::Exists(false)]
            } else {
                seq![LoadAnswer::Exists(false)]
            },
        ) == LoadPhase::CreateDir,
{
    reveal_with_fuel(load_run, 3);
    let both = seq![LoadAnswer::Exists(true), LoadAnswer::Exists(false)];
    assert(both.drop_last() == seq![LoadAnswer::Exists(true)]);
    assert(both.drop_last().drop_last() == Seq::<LoadAnswer>::empty());
    assert(seq![LoadAnswer::Exists(false)].drop_last() == Seq::<LoadAnswer>::empty());
}

/// Whether a phase reads the files or has read them.
pub open spec fn reads(phase: LoadPhase) -> bool {
    phase is ReadCert || phase is ReadKey || phase is Ready
}

/// Whether a key and a certificate were made at `made`, and both files stored
/// after that, at `cert` and `key`.
pub open spec fn stored_at(answers: Seq<LoadAnswer>, made: int, cert: int, key: int) -> bool {
    &&& 0 <= made < cert < key < answers.len()
    &&& answers[made] matches LoadAnswer::Generated(Some(_))
    &&& answers[cert] == LoadAnswer::Stored(true)
    &&& answers[key] == LoadAnswer::Stored(true)
}

/// Once files are to be made, nothing is read before a key and a certificate
/// were made and both files stored, in this order.
pub proof fn nothing_read_before_stored(answers: Seq<LoadAnswer>)
    requires
        reads(load_run(LoadPhase::CreateDir, answers)),
    ensures
        exists|made: int, cert: int, key: int| stored_at(answers, made, cert, key),
    decreases answers.len(),
{
    let earlier = answers.drop_last();
    let last = answers.len() - 1;
    if reads(load_run(LoadPhase::CreateDir, earlier)) {
        nothing_read_before_stored(earlier);
        let (made, cert, key) = choose|made: int, cert: int, key: int|
            stored_at(earlier, made, cert, key);
        assert(stored_at(answers, made, cert, key));
    } else {
        lemma_no_check(earlier);
        let (made, cert) = lemma_stored_cert(earlier);
        assert(stored_at(answers, made, cert, last));
    }
}

proof fn lemma_no_check(answers: Seq<LoadAnswer>)
    ensures
        !(load_run(LoadPhase::CreateDir, answers) is CheckCert),
        !(load_run(LoadPhase::CreateDir, answers) is CheckKey),
    decreases answers.len(),
{
    if answers.len() > 0 {
        lemma_no_check(answers.drop_last());
    }
}

proof fn lemma_stored_cert(answers: Seq<LoadAnswer>) -> (r: (int, int))
    requires
        load_run(LoadPhase::CreateDir, answers) is StoreKey,
    ensures
        0 <= r.0 < r.1 < answers.len(),
        answers[r.0] matches LoadAnswer::Generated(Some(_)),
        answers[r.1] == LoadAnswer::Stored(true),
    decreases answers.len(),
{
    let earlier = answers.drop_last();
    if load_run(LoadPhase::CreateDir, earlier) is StoreKey {
        lemma_stored_cert(earlier)
    } else {
        (lemma_made(earlier), answers.len() - 1)
    }
}

proof fn lemma_made(answers: Seq<LoadAnswer>) -> (r: int)
    requires
        load_run(LoadPhase::CreateDir, answers) is StoreCert,
    ensures
        0 <= r < answers.len(),
        answers[r] matches LoadAnswer::Generated(Some(_)),
    decreases answers.len(),
{
    let earlier = answers.drop_last();
    if load_run(LoadPhase::CreateDir, earlier) is StoreCert {
        lemma_made(earlier)
    } else {
        answers.len() - 1
    }
}

/// Credentials hold a certificate: however they were obtained, the chain is not
/// empty.
pub proof fn ready_has_certificate(answers: Seq<LoadAnswer>)
    ensures
        load_run(LoadPhase::CheckCert, answers) matches LoadPhase::Ready { certs, .. }
            ==> certs.len() > 0,
        load_run(LoadPhase::CheckCert, answers) matches LoadPhase::ReadKey { certs }
            ==> certs.len() > 0,
    decreases answers.len(),
{
    if answers.len() > 0 {
        ready_has_certificate(answers.drop_last());
    }
}

/// What was made is what is served: where the texts that `generate_server_pem`
/// returned are stored and read back unchanged, loading succeeds, with one
/// certificate and a PKCS #8 key. The certificate is the one signed by that key,
/// and in it stands an Ed25519 key, the public half of that key.
pub proof fn made_credentials_are_served(cert: Seq<char>, key: Seq<char>)
    requires
        made_together(cert, key),
    ensures
        ({
            let phase = load_run(
                LoadPhase::CreateDir,
                seq![
                    LoadAnswer::Directory(true),
                    LoadAnswer::Generated(Some((cert, key))),
                    LoadAnswer::Stored(true),
                    LoadAnswer::Stored(true),
                    LoadAnswer::Contents(encode_utf8(cert)),
                    LoadAnswer::Contents(encode_utf8(key)),
                ],
            );
            &&& phase matches LoadPhase::Ready { certs, private_key }
            &&& certs.len() == 1
            &&& private_key.0 is Pkcs8
            &&& self_signed_der(server_names(), private_key.1) == Some(certs[0])
            &&& x509_subject_key(certs[0]) == Some(
                (ed25519_oid(), ed25519_public_half(private_key.1)),
            )
        }),
{
    let dir = LoadAnswer::Directory(true);
    let made = LoadAnswer::Generated(Some((cert, key)));
    let stored = LoadAnswer::Stored(true);
    let read_cert = LoadAnswer::Contents(encode_utf8(cert));
    let read_key = LoadAnswer::Contents(encode_utf8(key));
    let all = seq![dir, made, stored, stored, read_cert, read_key];
    assert(all.drop_last() == seq![dir, made, stored, stored, read_cert]);
    assert(seq![dir, made, stored, stored, read_cert].drop_last() == seq![
        dir,
        made,
        stored,
        stored,
    ]);
    assert(seq![dir, made, stored, stored].drop_last() == seq![dir, made, stored]);
    assert(seq![dir, made, stored].drop_last() == seq![dir, made]);
    assert(seq![dir, made].drop_last() == seq![dir]);
    assert(seq![dir].drop_last() == Seq::<LoadAnswer>::empty());
    reveal_with_fuel(load_run, 7);
}

} // verus!

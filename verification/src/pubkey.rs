//! The public key that clients must hold, as it is read from an SSH key file.

use crate::foreign::{decode_point, ed25519_point, openssh_key, parse_openssh};
use crate::openssh::{base64, holds_key, key_blob, key_line, lemma_key_base64};
use crate::text::{
    all_white_space, is_white_space, lemma_end_keeps, lemma_trimmed_ends, lemma_trimmed_fixed,
    lemma_trimmed_padding, only_white_space_is_trimmed, starts_with, trim, trimmed, trimmed_end,
    trimmed_start,
};
use vstd::prelude::*;

verus! {

/// What an Ed25519 key in full OpenSSH form begins with.
pub const SSH_ED25519_PREFIX: &'static str = "ssh-ed25519 ";

/// A public key in OpenSSH form, told apart by what the proxy can use.
#[derive(Clone, Copy, Debug)]
pub enum SshKeyData {
    /// An Ed25519 key with its bytes.
    Ed25519([u8; 32]),
    /// A key of any other kind.
    Other,
}

impl SshKeyData {
    /// The bytes of an Ed25519 key.
    pub open spec fn ed25519_bytes(self) -> Option<Seq<u8>> {
        match self {
            SshKeyData::Ed25519(bytes) => Some(bytes@),
            SshKeyData::Other => None,
        }
    }
}

/// What a reader of OpenSSH keys found: nothing where it failed, otherwise the
/// bytes of the key where it is an Ed25519 key.
pub open spec fn key_found(parsed: Result<SshKeyData, ssh_key::Error>) -> Option<Option<Seq<u8>>> {
    match parsed {
        Ok(data) => Some(data.ed25519_bytes()),
        Err(_) => None,
    }
}

/// Why a key file gives no key.
#[derive(Debug)]
pub enum PubkeyError {
    /// The text is no OpenSSH public key.
    InvalidFormat(ssh_key::Error),
    /// The key is of another kind than Ed25519.
    NotEd25519,
    /// The bytes of the key are no point of the curve.
    InvalidKeyBytes(ed25519_dalek::SignatureError),
}

impl PubkeyError {
    /// What is told to the operator.
    pub open spec fn spec_message(&self) -> Seq<char> {
        match self {
            PubkeyError::InvalidFormat(_) => "Invalid SSH public key format"@,
            PubkeyError::NotEd25519 => "Key is not Ed25519 - only Ed25519 keys supported"@,
            PubkeyError::InvalidKeyBytes(_) => "Invalid Ed25519 key bytes"@,
        }
    }

    /// What is told to the operator.
    pub fn message(&self) -> (r: &'static str)
        ensures
            r@ == self.spec_message(),
            self is InvalidFormat ==> r@ == "Invalid SSH public key format"@,
            self is NotEd25519 ==> r@ == "Key is not Ed25519 - only Ed25519 keys supported"@,
            self is InvalidKeyBytes ==> r@ == "Invalid Ed25519 key bytes"@,
    {
        match self {
            PubkeyError::InvalidFormat(_) => "Invalid SSH public key format",
            PubkeyError::NotEd25519 => "Key is not Ed25519 - only Ed25519 keys supported",
            PubkeyError::InvalidKeyBytes(_) => "Invalid Ed25519 key bytes",
        }
    }
}

/// What is told of a key file that cannot be read as text, where `path` names it.
pub fn unreadable_message(path: &str) -> (r: String)
    ensures
        r@ == "Failed to read public key: "@ + path@,
{
    let mut text = "Failed to read public key: ".to_owned();
    text.append(path);
    text
}

/// An Ed25519 public key: bytes that are known to be a point of the curve.
#[derive(Clone, Copy, Debug)]
pub struct VerifyingKey {
    bytes: [u8; 32],
}

impl View for VerifyingKey {
    type V = Seq<u8>;

    closed spec fn view(&self) -> Seq<u8> {
        self.bytes@
    }
}

impl VerifyingKey {
    #[verifier::type_invariant]
    spec fn is_point(self) -> bool {
        ed25519_point(self.bytes@)
    }

    /// The key with these bytes, if they are a point of the curve.
    pub fn from_bytes(bytes: &[u8; 32]) -> (r: Result<VerifyingKey, ed25519_dalek::SignatureError>)
        ensures
            r is Ok <==> ed25519_point(bytes@),
            r matches Ok(key) ==> key@ == bytes@,
    {
        match decode_point(bytes) {
            Ok(_) => Ok(VerifyingKey { bytes: *bytes }),
            Err(error) => Err(error),
        }
    }

    /// The bytes of the key.
    pub fn as_bytes(&self) -> (r: &[u8; 32])
        ensures
            r@ == self@,
            ed25519_point(r@),
    {
        proof {
            use_type_invariant(self);
        }
        &self.bytes
    }
}

/// The text in which the key is looked for: the contents of the file without
/// white space at either end, and with the prefix of the full form before them
/// where there is something and it lacks that prefix.
pub open spec fn openssh_text(contents: Seq<char>) -> Seq<char> {
    let text = trimmed(contents);
    if lacks_prefix(text) {
        SSH_ED25519_PREFIX@ + text
    } else {
        text
    }
}

/// Whether a trimmed text is the Base64 part of a key alone.
pub open spec fn lacks_prefix(text: Seq<char>) -> bool {
    text.len() > 0 && !SSH_ED25519_PREFIX@.is_prefix_of(text)
}

/// Whether the contents of a key file, once trimmed, lack the prefix of the full
/// form.
pub fn is_base64_only(contents: &str) -> (r: bool)
    ensures
        r == lacks_prefix(trimmed(contents@)),
        r == (trimmed(contents@).len() > 0 && !"ssh-ed25519 "@.is_prefix_of(trimmed(contents@))),
{
    let text = trim(contents);
    !starts_with(text, SSH_ED25519_PREFIX) && !text.is_empty()
}

/// The full OpenSSH form of a key file's contents.
pub fn normalize_ssh_key(contents: &str) -> (r: String)
    ensures
        r@ == openssh_text(contents@),
        r@ == (if trimmed(contents@).len() == 0 || "ssh-ed25519 "@.is_prefix_of(
            trimmed(contents@),
        ) {
            trimmed(contents@)
        } else {
            "ssh-ed25519 "@ + trimmed(contents@)
        }),
{
    let text = trim(contents);
    if is_base64_only(contents) {
        let mut full = SSH_ED25519_PREFIX.to_owned();
        full.append(text);
        full
    } else {
        text.to_owned()
    }
}

/// The bytes of an Ed25519 key, from what the reader of OpenSSH keys returned.
pub fn select_ed25519(parsed: Result<SshKeyData, ssh_key::Error>) -> (r: Result<
    [u8; 32],
    PubkeyError,
>)
    ensures
        match parsed {
            Err(error) => r == Err::<[u8; 32], PubkeyError>(PubkeyError::InvalidFormat(error)),
            Ok(SshKeyData::Other) => r == Err::<[u8; 32], PubkeyError>(PubkeyError::NotEd25519),
            Ok(SshKeyData::Ed25519(bytes)) => r == Ok::<[u8; 32], PubkeyError>(bytes),
        },
{
    match parsed {
        Err(error) => Err(PubkeyError::InvalidFormat(error)),
        Ok(SshKeyData::Other) => Err(PubkeyError::NotEd25519),
        Ok(SshKeyData::Ed25519(bytes)) => Ok(bytes),
    }
}

/// The key in a key file with these contents, in either of two forms: full
/// OpenSSH (`ssh-ed25519 AAAA...`) or Base64 alone (`AAAA...`).
pub fn parse_ed25519_pubkey(contents: &str) -> (r: Result<VerifyingKey, PubkeyError>)
    ensures
        match openssh_key(openssh_text(contents@)) {
            None => r matches Err(PubkeyError::InvalidFormat(_)),
            Some(None) => r matches Err(PubkeyError::NotEd25519),
            Some(Some(bytes)) => if ed25519_point(bytes) {
                r matches Ok(key) && key@ == bytes
            } else {
                r matches Err(PubkeyError::InvalidKeyBytes(_))
            },
        },
        trimmed(contents@).len() == 0 ==> r matches Err(PubkeyError::InvalidFormat(_)),
        forall|key: Seq<u8>| #[trigger]
            holds_key(openssh_text(contents@), key) ==> if ed25519_point(key) {
                r matches Ok(read) && read@ == key
            } else {
                r matches Err(PubkeyError::InvalidKeyBytes(_))
            },
{
    let text = normalize_ssh_key(contents);
    let bytes = match select_ed25519(parse_openssh(text.as_str())) {
        Ok(bytes) => bytes,
        Err(error) => return Err(error),
    };
    match VerifyingKey::from_bytes(&bytes) {
        Ok(key) => Ok(key),
        Err(error) => Err(PubkeyError::InvalidKeyBytes(error)),
    }
}

/// Nothing but white space at the ends is taken from the contents of a key file,
/// and nothing but the prefix of the full form is put before them: what stands
/// between the white space is looked through as it is where it is empty or begins
/// with the prefix, and after the prefix otherwise, whatever it begins with.
pub proof fn only_prefix_is_added(before: Seq<char>, text: Seq<char>, after: Seq<char>)
    requires
        forall|i: int| 0 <= i < before.len() ==> is_white_space(#[trigger] before[i]),
        forall|i: int| 0 <= i < after.len() ==> is_white_space(#[trigger] after[i]),
        text.len() > 0 ==> !is_white_space(text[0]) && !is_white_space(text[text.len() - 1]),
    ensures
        openssh_text(before + text + after) == (if text.len() == 0
            || "ssh-ed25519 "@.is_prefix_of(text) {
            text
        } else {
            "ssh-ed25519 "@ + text
        }),
        lacks_prefix(text) <==> text.len() > 0 && !"ssh-ed25519 "@.is_prefix_of(text),
{
    only_white_space_is_trimmed(before, text, after);
}

/// What is looked through always ends with all that stands between the white
/// space at the ends of the contents, and holds at most the prefix besides: a
/// character that stands first there, a comment mark for one, is never passed
/// over.
pub proof fn no_character_is_dropped(contents: Seq<char>)
    ensures
        ({
            let text = trimmed(contents);
            let full = openssh_text(contents);
            &&& full.len() == text.len() || full.len() == text.len() + 12
            &&& full.skip(full.len() - text.len()) == text
            &&& full.len() > text.len() ==> full.take(12) == "ssh-ed25519 "@
            &&& text.len() > 0 ==> full.take(12) == "ssh-ed25519 "@
        }),
{
    reveal_strlit("ssh-ed25519 ");
    let text = trimmed(contents);
    let full = openssh_text(contents);
    if lacks_prefix(text) {
        assert(full.skip(12) =~= text);
        assert(full.take(12) =~= "ssh-ed25519 "@);
    } else {
        assert(full.skip(0) =~= text);
    }
}

/// Contents that differ between the white space at their ends are looked through
/// as different texts, unless one is the other after the prefix of the full form.
pub proof fn different_contents_stay_different(first: Seq<char>, second: Seq<char>)
    requires
        openssh_text(first) == openssh_text(second),
    ensures
        trimmed(first) == trimmed(second) || trimmed(first) == "ssh-ed25519 "@ + trimmed(second)
            || trimmed(second) == "ssh-ed25519 "@ + trimmed(first),
{
    reveal_strlit("ssh-ed25519 ");
    no_character_is_dropped(first);
    no_character_is_dropped(second);
    if lacks_prefix(trimmed(first)) && lacks_prefix(trimmed(second)) {
        assert(trimmed(first) =~= openssh_text(first).skip(12));
    }
}

/// What a reader of OpenSSH keys found is what it returned: the bytes of an
/// Ed25519 key as they are, no bytes of any other key, and nothing on failure.
pub proof fn found_is_what_was_returned(parsed: Result<SshKeyData, ssh_key::Error>)
    ensures
        parsed is Err <==> key_found(parsed) is None,
        parsed matches Ok(SshKeyData::Other) ==> key_found(parsed) == Some(None::<Seq<u8>>),
        parsed matches Ok(SshKeyData::Ed25519(bytes)) ==> key_found(parsed) == Some(Some(bytes@)),
{
}

/// A file with the OpenSSH line of a key is read as that key, in full or as Base64
/// alone, with or without a comment, and with white space around it.
pub proof fn key_file_holds_key(
    before: Seq<char>,
    key: Seq<u8>,
    comment: Option<Seq<char>>,
    after: Seq<char>,
)
    requires
        all_white_space(before),
        all_white_space(after),
        key.len() == 32,
    ensures
        ({
            let rest = match comment {
                Some(comment) => seq![' '] + comment,
                None => Seq::empty(),
            };
            &&& holds_key(openssh_text(before + (key_line(key) + rest) + after), key)
            &&& holds_key(openssh_text(before + (base64(key_blob(key)) + rest) + after), key)
        }),
{
    let rest = match comment {
        Some(comment) => seq![' '] + comment,
        None => Seq::empty(),
    };
    let text = base64(key_blob(key));
    let line = key_line(key);
    let kept = trimmed_end(rest);
    lemma_key_base64(key);
    reveal_strlit("ssh-ed25519 ");
    lemma_trimmed_padding(before, line + rest, after);
    lemma_trimmed_padding(before, text + rest, after);
    assert(line.last() == text.last());
    lemma_end_keeps(line, rest);
    lemma_end_keeps(text, rest);
    assert((line + rest)[0] == 's');
    assert((text + rest)[0] == 'A');
    assert(trimmed_start(line + rest) == line + rest);
    assert(trimmed_start(text + rest) == text + rest);
    assert(kept.len() > 0 ==> kept[0] == rest[0]);
    assert((line + kept).subrange(0, SSH_ED25519_PREFIX@.len() as int) == SSH_ED25519_PREFIX@);
    assert(SSH_ED25519_PREFIX@.is_prefix_of(line + kept));
    assert((text + kept)[0] != SSH_ED25519_PREFIX@[0]);
    assert(lacks_prefix(text + kept));
    assert(SSH_ED25519_PREFIX@ + (text + kept) == line + kept);
    assert((line + kept).subrange(0, line.len() as int) == line);
}

/// The two forms of a key file are equivalent: Base64 alone is read exactly as
/// the same text after the prefix of the full form.
pub proof fn both_forms_agree(base64: Seq<char>)
    requires
        lacks_prefix(trimmed(base64)),
    ensures
        openssh_text(SSH_ED25519_PREFIX@ + trimmed(base64)) == openssh_text(base64),
{
    lemma_trimmed_ends(base64);
    lemma_full_form_fixed(trimmed(base64));
}

/// White space around the contents of a key file has no effect.
pub proof fn surrounding_space_ignored(
    before: Seq<char>,
    contents: Seq<char>,
    after: Seq<char>,
)
    requires
        all_white_space(before),
        all_white_space(after),
    ensures
        openssh_text(before + contents + after) == openssh_text(contents),
{
    lemma_trimmed_padding(before, contents, after);
}

/// Bringing contents to the full form a second time changes nothing.
pub proof fn normalization_idempotent(contents: Seq<char>)
    ensures
        openssh_text(openssh_text(contents)) == openssh_text(contents),
{
    let text = trimmed(contents);
    lemma_trimmed_ends(contents);
    if lacks_prefix(text) {
        lemma_full_form_fixed(text);
    } else {
        lemma_trimmed_fixed(text);
    }
}

proof fn lemma_full_form_fixed(text: Seq<char>)
    requires
        text.len() > 0,
        !is_white_space(text.last()),
    ensures
        openssh_text(SSH_ED25519_PREFIX@ + text) == SSH_ED25519_PREFIX@ + text,
{
    reveal_strlit("ssh-ed25519 ");
    let full = SSH_ED25519_PREFIX@ + text;
    assert(full[0] == 's');
    assert(full.last() == text.last());
    lemma_trimmed_fixed(full);
    assert(full.subrange(0, SSH_ED25519_PREFIX@.len() as int) == SSH_ED25519_PREFIX@);
}

} // verus!

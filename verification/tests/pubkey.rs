use ed25519_dalek::SigningKey;
use input_only_proxy::pubkey::{
    is_base64_only, normalize_ssh_key, parse_ed25519_pubkey, select_ed25519, unreadable_message,
    PubkeyError, SshKeyData, VerifyingKey,
};
use input_only_proxy::text::{starts_with, trim, white_space};

const EXAMPLE: &str =
    "ssh-ed25519 AAAAC3NzaC1lZDI1NTE5AAAAILM+rvN+ot98qgEN796jTiQfZfG1KaT0PtFDJ/XFSqti user@example.com";

const EXAMPLE_BYTES: [u8; 32] = [
    0xb3, 0x3e, 0xae, 0xf3, 0x7e, 0xa2, 0xdf, 0x7c, 0xaa, 0x01, 0x0d, 0xef, 0xde, 0xa3, 0x4e, 0x24,
    0x1f, 0x65, 0xf1, 0xb5, 0x29, 0xa4, 0xf4, 0x3e, 0xd1, 0x43, 0x27, 0xf5, 0xc5, 0x4a, 0xab, 0x62,
];

/// Bytes of the right length that are no point of the curve.
fn no_point() -> [u8; 32] {
    let mut bytes = [0u8; 32];
    while ed25519_dalek::VerifyingKey::from_bytes(&bytes).is_ok() {
        bytes[0] += 1;
    }
    bytes
}

fn openssh(bytes: [u8; 32]) -> String {
    ssh_key::PublicKey::from(ssh_key::public::Ed25519PublicKey(bytes)).to_openssh().unwrap()
}

#[test]
fn white_space_is_that_of_unicode() {
    for code in 0..=0x10ffffu32 {
        if let Some(c) = char::from_u32(code) {
            assert_eq!(white_space(c), c.is_whitespace(), "{:x}", code);
        }
    }
}

#[test]
fn trim_takes_white_space_off_both_ends() {
    for text in ["", " ", "\n\t ", "a", " a", "a ", " a b \r\n", "\u{3000}a\u{a0}", "\u{feff}a"] {
        assert_eq!(trim(text), text.trim());
    }
}

#[test]
fn prefixes_are_found() {
    assert!(starts_with("ssh-ed25519 AAAA", "ssh-ed25519 "));
    assert!(starts_with("abc", ""));
    assert!(starts_with("abc", "abc"));
    assert!(!starts_with("abc", "abcd"));
    assert!(!starts_with("abc", "b"));
}

#[test]
fn full_form_is_read() {
    let key = parse_ed25519_pubkey(EXAMPLE).unwrap();
    assert_eq!(*key.as_bytes(), EXAMPLE_BYTES);
}

#[test]
fn base64_alone_is_read_as_the_full_form() {
    let base64 = "AAAAC3NzaC1lZDI1NTE5AAAAILM+rvN+ot98qgEN796jTiQfZfG1KaT0PtFDJ/XFSqti";
    assert!(is_base64_only(base64));
    assert!(!is_base64_only(EXAMPLE));
    assert_eq!(normalize_ssh_key(base64), format!("ssh-ed25519 {}", base64));
    assert_eq!(normalize_ssh_key(&format!("ssh-ed25519 {}", base64)), normalize_ssh_key(base64));
    let key = parse_ed25519_pubkey(base64).unwrap();
    assert_eq!(*key.as_bytes(), EXAMPLE_BYTES);
}

#[test]
fn surrounding_space_is_ignored() {
    let padded = format!("\n\t {} \r\n\n", EXAMPLE);
    assert_eq!(normalize_ssh_key(&padded), EXAMPLE);
    assert_eq!(*parse_ed25519_pubkey(&padded).unwrap().as_bytes(), EXAMPLE_BYTES);
}

#[test]
fn normalizing_twice_changes_nothing() {
    for text in ["", "  ", "AAAA", " ssh-ed25519 AAAA ", "ssh-ed25519", "ssh-rsa AAAA"] {
        let once = normalize_ssh_key(text);
        assert_eq!(normalize_ssh_key(&once), once);
    }
    assert_eq!(normalize_ssh_key("ssh-ed25519"), "ssh-ed25519 ssh-ed25519");
    assert_eq!(normalize_ssh_key("  "), "");
}

#[test]
fn written_keys_are_read_back() {
    for seed in 1..5u8 {
        let key = SigningKey::from_bytes(&[seed; 32]).verifying_key().to_bytes();
        assert_eq!(*parse_ed25519_pubkey(&openssh(key)).unwrap().as_bytes(), key);
    }
}

#[test]
fn malformed_key_files_are_refused() {
    for text in ["", " \n", "ssh-ed25519 ", "ssh-ed25519 !!!!", "hello", "ssh-rsa AAAAB3NzaC1yc2E="] {
        assert!(matches!(parse_ed25519_pubkey(text), Err(PubkeyError::InvalidFormat(_))), "{}", text);
    }
}

#[test]
fn bytes_off_the_curve_are_refused() {
    let bytes = no_point();
    assert!(VerifyingKey::from_bytes(&bytes).is_err());
    let error = parse_ed25519_pubkey(&openssh(bytes)).unwrap_err();
    assert!(matches!(error, PubkeyError::InvalidKeyBytes(_)));
    assert_eq!(error.message(), "Invalid Ed25519 key bytes");
}

#[test]
fn keys_are_selected_by_kind() {
    assert_eq!(select_ed25519(Ok(SshKeyData::Ed25519([7; 32]))).unwrap(), [7; 32]);
    let other = select_ed25519(Ok(SshKeyData::Other)).unwrap_err();
    assert!(matches!(other, PubkeyError::NotEd25519));
    assert_eq!(other.message(), "Key is not Ed25519 - only Ed25519 keys supported");
    let malformed = select_ed25519(Err(ssh_key::Error::FormatEncoding)).unwrap_err();
    assert!(matches!(malformed, PubkeyError::InvalidFormat(ssh_key::Error::FormatEncoding)));
    assert_eq!(malformed.message(), "Invalid SSH public key format");
}

#[test]
fn unreadable_key_file_is_told() {
    assert_eq!(
        unreadable_message("\"/etc/searcher_key\""),
        "Failed to read public key: \"/etc/searcher_key\""
    );
}

#[test]
fn line_of_a_key_is_read_as_that_key() {
    for seed in [0u8, 1, 7, 255] {
        let key = SigningKey::from_bytes(&[seed; 32]).verifying_key();
        let data = ssh_key::public::Ed25519PublicKey(key.to_bytes());
        let line = ssh_key::PublicKey::from(data).to_openssh().unwrap();
        assert_eq!(line.len(), 80);
        let alone = line.strip_prefix("ssh-ed25519 ").unwrap();
        for form in [line.as_str(), alone] {
            for rest in ["", " ", " user@host", " two words \u{e9}"] {
                let text = format!("\t{}{}\n", form, rest);
                let read = parse_ed25519_pubkey(&text).unwrap_or_else(|_| panic!("{}", text));
                assert_eq!(read.as_bytes(), key.as_bytes());
            }
        }
    }
}

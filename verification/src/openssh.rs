//! The OpenSSH form of an Ed25519 public key: one line with the kind of the key,
//! its bytes in Base64, and a comment that may be missing.

use crate::pubkey::SSH_ED25519_PREFIX;
use crate::text::is_white_space;
use vstd::prelude::*;

verus! {

/// The character that stands for a number below 64 in Base64.
pub open spec fn base64_char(value: int) -> char {
    if value < 26 {
        ('A' as int + value) as char
    } else if value < 52 {
        ('a' as int + value - 26) as char
    } else if value < 62 {
        ('0' as int + value - 52) as char
    } else if value == 62 {
        '+'
    } else {
        '/'
    }
}

/// The number in the six bits at place `i` of a series of bytes.
pub open spec fn sextet(bytes: Seq<u8>, i: int) -> int {
    let first = i / 4 * 3;
    let group = bytes[first] * 65536 + bytes[first + 1] * 256 + bytes[first + 2];
    if i % 4 == 0 {
        group / 262144
    } else if i % 4 == 1 {
        group / 4096 % 64
    } else if i % 4 == 2 {
        group / 64 % 64
    } else {
        group % 64
    }
}

/// The Base64 text of whole groups of three bytes.
pub open spec fn base64(bytes: Seq<u8>) -> Seq<char>
    recommends
        bytes.len() % 3 == 0,
{
    Seq::new(bytes.len() / 3 * 4, |i: int| base64_char(sextet(bytes, i)))
}

/// The bytes that stand for a key in its line: the kind `ssh-ed25519` and the 32
/// bytes of the key, each after its length.
pub open spec fn key_blob(key: Seq<u8>) -> Seq<u8> {
    seq![0u8, 0, 0, 11] + seq![
        0x73u8,
        0x73,
        0x68,
        0x2d,
        0x65,
        0x64,
        0x32,
        0x35,
        0x35,
        0x31,
        0x39,
    ] + seq![0u8, 0, 0, 32] + key
}

/// The line of a key, without a comment.
pub open spec fn key_line(key: Seq<u8>) -> Seq<char> {
    SSH_ED25519_PREFIX@ + base64(key_blob(key))
}

/// Whether a text is the line of a key, with or without a comment.
pub open spec fn holds_key(text: Seq<char>, key: Seq<u8>) -> bool {
    let line = key_line(key);
    &&& key.len() == 32
    &&& line.is_prefix_of(text)
    &&& text.len() == line.len() || text[line.len() as int] == ' '
}

/// Whether what was found in a text is the key of which it is the line, if it is
/// one.
pub open spec fn heeds_lines(text: Seq<char>, found: Option<Option<Seq<u8>>>) -> bool {
    forall|key: Seq<u8>| #[trigger] holds_key(text, key) ==> found == Some(Some(key))
}

/// The Base64 text of a key neither begins nor ends with white space, nor begins
/// like a line.
pub(crate) proof fn lemma_key_base64(key: Seq<u8>)
    requires
        key.len() == 32,
    ensures
        base64(key_blob(key)).len() == 68,
        base64(key_blob(key))[0] == 'A',
        !is_white_space(base64(key_blob(key)).last()),
{
    let blob = key_blob(key);
    assert(blob.len() == 51);
    assert(blob[0] == 0 && blob[1] == 0 && blob[2] == 0);
    assert(sextet(blob, 0) == 0);
    let last = sextet(blob, 67);
    assert(0 <= last < 64);
    assert(base64(blob).last() == base64_char(last));
}

/// Each of the 64 numbers has a character of its own in Base64.
pub proof fn base64_characters_differ(first: int, second: int)
    requires
        0 <= first < 64,
        0 <= second < 64,
        base64_char(first) == base64_char(second),
    ensures
        first == second,
{
}

/// Base64 keeps every bit: four characters stand for three bytes, each for one of
/// 64 numbers, of which the bytes are made up again.
pub proof fn base64_keeps_every_bit(bytes: Seq<u8>, group: int)
    requires
        0 <= group < bytes.len() / 3,
    ensures
        sextet(bytes, group * 4) * 262144 + sextet(bytes, group * 4 + 1) * 4096 + sextet(
            bytes,
            group * 4 + 2,
        ) * 64 + sextet(bytes, group * 4 + 3) == bytes[group * 3] * 65536 + bytes[group * 3 + 1]
            * 256 + bytes[group * 3 + 2],
        forall|i: int|
            group * 4 <= i < group * 4 + 4 ==> 0 <= #[trigger] sextet(bytes, i) < 64 && base64(
                bytes,
            )[i] == base64_char(sextet(bytes, i)),
{
    let bits = bytes[group * 3] * 65536 + bytes[group * 3 + 1] * 256 + bytes[group * 3 + 2];
    assert(0 <= bits < 16777216);
    assert((group * 4) / 4 == group && (group * 4) % 4 == 0);
    assert((group * 4 + 1) / 4 == group && (group * 4 + 1) % 4 == 1);
    assert((group * 4 + 2) / 4 == group && (group * 4 + 2) % 4 == 2);
    assert((group * 4 + 3) / 4 == group && (group * 4 + 3) % 4 == 3);
    assert(sextet(bytes, group * 4) == bits / 262144);
    assert(sextet(bytes, group * 4 + 1) == bits / 4096 % 64);
    assert(sextet(bytes, group * 4 + 2) == bits / 64 % 64);
    assert(sextet(bytes, group * 4 + 3) == bits % 64);
    lemma_sextets(bits);
    assert forall|i: int| group * 4 <= i < group * 4 + 4 implies 0 <= #[trigger] sextet(bytes, i)
        < 64 && base64(bytes)[i] == base64_char(sextet(bytes, i)) by {
        assert(i == group * 4 || i == group * 4 + 1 || i == group * 4 + 2 || i == group * 4 + 3);
        assert(0 <= i < bytes.len() / 3 * 4);
    }
}

proof fn lemma_sextets(bits: int)
    requires
        0 <= bits < 16777216,
    ensures
        bits == bits / 262144 * 262144 + bits / 4096 % 64 * 4096 + bits / 64 % 64 * 64 + bits % 64,
        0 <= bits / 262144 < 64,
        0 <= bits / 4096 % 64 < 64,
        0 <= bits / 64 % 64 < 64,
        0 <= bits % 64 < 64,
{
    let high = bits / 64;
    let top = high / 64;
    assert(bits == high * 64 + bits % 64);
    assert(high == top * 64 + high % 64);
    assert(top == bits / 4096);
    assert(top == top / 64 * 64 + top % 64);
    assert(top / 64 == bits / 262144);
}

/// No text holds two keys: different keys have different lines, and a comment does
/// not make the line of one key that of another.
pub proof fn one_key_per_line(text: Seq<char>, first: Seq<u8>, second: Seq<u8>)
    requires
        holds_key(text, first),
        holds_key(text, second),
    ensures
        first == second,
{
    lemma_key_base64(first);
    lemma_key_base64(second);
    reveal_strlit("ssh-ed25519 ");
    let a = key_blob(first);
    let b = key_blob(second);
    assert(a.len() == 51 && b.len() == 51);
    assert forall|i: int| 0 <= i < 68 implies base64(a)[i] == base64(b)[i] by {
        assert(base64(a)[i] == key_line(first)[12 + i] && key_line(first)[12 + i] == text[12 + i]);
        assert(base64(b)[i] == key_line(second)[12 + i] && key_line(second)[12 + i] == text[12 + i]);
    }
    assert forall|i: int| 0 <= i < 32 implies first[i] == second[i] by {
        let group = (i + 19) / 3;
        lemma_equal_group(a, b, group);
        assert(a[i + 19] == first[i] && b[i + 19] == second[i]);
    }
    assert(first =~= second);
}

proof fn lemma_equal_group(a: Seq<u8>, b: Seq<u8>, group: int)
    requires
        0 <= group < a.len() / 3,
        a.len() == b.len(),
        forall|i: int| 0 <= i < a.len() / 3 * 4 ==> base64(a)[i] == base64(b)[i],
    ensures
        a[group * 3] == b[group * 3],
        a[group * 3 + 1] == b[group * 3 + 1],
        a[group * 3 + 2] == b[group * 3 + 2],
{
    base64_keeps_every_bit(a, group);
    base64_keeps_every_bit(b, group);
    assert forall|i: int| group * 4 <= i < group * 4 + 4 implies sextet(a, i) == sextet(b, i) by {
        assert(base64(a)[i] == base64(b)[i]);
        base64_characters_differ(sextet(a, i), sextet(b, i));
    }
    assert(sextet(a, group * 4) == sextet(b, group * 4));
    assert(sextet(a, group * 4 + 1) == sextet(b, group * 4 + 1));
    assert(sextet(a, group * 4 + 2) == sextet(b, group * 4 + 2));
    assert(sextet(a, group * 4 + 3) == sextet(b, group * 4 + 3));
}

} // verus!

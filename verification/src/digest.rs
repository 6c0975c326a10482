//! SHA-256, HMAC-SHA256 and lowercase hexadecimal.
//!
//! The two hash functions are computed by `ring`. This module gives each a
//! name for use in contracts and says of it only how long its result is.

use vstd::prelude::*;
use vstd::string::StringSliceAdditionalSpecFns;

verus! {

/// The longest input, in bytes, that both hash functions accept. `ring`
/// counts the hashed bits in 64 bits, and HMAC hashes one block of 64 bytes
/// before the message.
pub const MAX_HASH_INPUT: u64 = 0x1fff_ffff_ffff_ffbf;

/// The SHA-256 digest of a byte string: what `ring::digest::digest` returns
/// for `ring::digest::SHA256`.
pub uninterp spec fn sha256(data: Seq<u8>) -> Seq<u8>;

/// The HMAC-SHA256 tag of a message under a key: what `ring::hmac::sign`
/// returns for a key made by `ring::hmac::Key::new` with
/// `ring::hmac::HMAC_SHA256`.
pub uninterp spec fn hmac_sha256(key: Seq<u8>, msg: Seq<u8>) -> Seq<u8>;

/// Calls `ring::digest::digest` with `SHA256` and copies the digest out.
/// Trusted: the result is the digest named [`sha256`], 32 bytes long. Longer
/// inputs than the limit make `ring` panic and are left out.
#[verifier::external_body]
fn sha256_bytes(data: &[u8]) -> (digest: Vec<u8>)
    requires
        data@.len() <= MAX_HASH_INPUT,
    ensures
        digest@ == sha256(data@),
        digest@.len() == 32,
{
    ring::digest::digest(&ring::digest::SHA256, data).as_ref().to_vec()
}

/// Calls `ring::hmac::Key::new` with `HMAC_SHA256` and `ring::hmac::sign`,
/// and copies the tag out. Trusted: the result is the tag named
/// [`hmac_sha256`], 32 bytes long. Longer inputs than the limit make `ring`
/// panic and are left out.
#[verifier::external_body]
fn hmac_sha256_bytes(key: &[u8], msg: &[u8]) -> (tag: Vec<u8>)
    requires
        key@.len() <= MAX_HASH_INPUT,
        msg@.len() <= MAX_HASH_INPUT,
    ensures
        tag@ == hmac_sha256(key@, msg@),
        tag@.len() == 32,
{
    let key = ring::hmac::Key::new(ring::hmac::HMAC_SHA256, key);
    ring::hmac::sign(&key, msg).as_ref().to_vec()
}

/// The lowercase hexadecimal digit for a value below sixteen.
pub open spec fn hex_digit(n: int) -> char
    recommends
        0 <= n < 16,
{
    if n < 10 {
        (n + 48) as u8 as char
    } else {
        (n + 87) as u8 as char
    }
}

/// The lowercase hexadecimal text of a byte string: two digits for each
/// byte, the high half first, with nothing between them.
pub open spec fn hex(data: Seq<u8>) -> Seq<char> {
    Seq::new(
        2 * data.len(),
        |i: int|
            if i % 2 == 0 {
                hex_digit(data[i / 2] as int / 16)
            } else {
                hex_digit(data[i / 2] as int % 16)
            },
    )
}

/// Whether a character is a lowercase hexadecimal digit.
pub open spec fn is_hex_char(c: char) -> bool {
    ('0' <= c && c <= '9') || ('a' <= c && c <= 'f')
}

/// Hexadecimal text is made of the digits `0` to `9` and `a` to `f` alone.
pub proof fn lemma_hex_is_lowercase(data: Seq<u8>)
    ensures
        hex(data).len() == 2 * data.len(),
        forall|i: int| 0 <= i < hex(data).len() ==> is_hex_char(#[trigger] hex(data)[i]),
{
}

/// The lowercase hexadecimal digit for a value below sixteen.
pub fn hex_digit_of(n: u8) -> (c: char)
    requires
        n < 16,
    ensures
        c == hex_digit(n as int),
{
    if n < 10 {
        (n + 48) as char
    } else {
        (n + 87) as char
    }
}

/// The lowercase hexadecimal text of `data`.
pub fn print_hex_binary(data: &[u8]) -> (text: String)
    ensures
        text@ == hex(data@),
{
    let mut out = String::new();
    let mut i: usize = 0;
    while i < data.len()
        invariant
            i <= data.len(),
            out@ == hex(data@.take(i as int)),
        decreases data.len() - i,
    {
        let byte = data[i];
        out.push(hex_digit_of(byte / 16));
        out.push(hex_digit_of(byte % 16));
        i += 1;
        assert(out@ =~= hex(data@.take(i as int)));
    }
    assert(data@.take(data.len() as int) =~= data@);
    out
}

/// The SHA-256 digest of `data` as lowercase hexadecimal text.
pub fn sha256_hex(data: &[u8]) -> (text: String)
    requires
        data@.len() <= MAX_HASH_INPUT,
    ensures
        text@ == hex(sha256(data@)),
        text@.len() == 64,
{
    let digest = sha256_bytes(data);
    print_hex_binary(digest.as_slice())
}

/// The HMAC-SHA256 tag of the text `msg`, as its UTF-8 bytes, under `key`.
pub fn hmac256(key: &[u8], msg: &str) -> (tag: Vec<u8>)
    requires
        key@.len() <= MAX_HASH_INPUT,
        msg.spec_bytes().len() <= MAX_HASH_INPUT,
    ensures
        tag@ == hmac_sha256(key@, msg.spec_bytes()),
        tag@.len() == 32,
{
    hmac_sha256_bytes(key, msg.as_bytes())
}

} // verus!

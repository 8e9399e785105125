//! SHA-256 digests in lower-case hex: the fingerprint of a server certificate
//! and the content hash recorded for a saved version.

use vstd::prelude::*;
use sha2::Digest;

verus! {

/// The SHA-256 digest of `data`.
pub uninterp spec fn sha256_of(data: Seq<u8>) -> Seq<u8>;

/// `Sha256::digest` of sha2: the SHA-256 digest of `data`, which is 32 bytes long.
#[verifier::external_body]
fn sha256(data: &[u8]) -> (r: Vec<u8>)
    ensures
        r@ == sha256_of(data@),
        r@.len() == 32,
{
    sha2::Sha256::digest(data).to_vec()
}

/// The lower-case hex digit of `n` (below 16).
pub open spec fn hex_digit(n: int) -> char {
    if n < 10 {
        (48 + n) as char
    } else {
        (87 + n) as char
    }
}

/// Each byte as two lower-case hex digits, high nibble first.
pub open spec fn hex_text(bytes: Seq<u8>) -> Seq<char>
    decreases bytes.len(),
{
    if bytes.len() == 0 {
        Seq::empty()
    } else {
        let b = bytes.last();
        hex_text(bytes.drop_last()) + seq![hex_digit(b as int / 16), hex_digit(b as int % 16)]
    }
}

/// `hex::encode`: each byte as two digits from `0123456789abcdef`, high nibble first.
#[verifier::external_body]
fn hex_encode(bytes: &[u8]) -> (r: String)
    ensures
        r@ == hex_text(bytes@),
{
    hex::encode(bytes)
}

proof fn lemma_hex_text_len(bytes: Seq<u8>)
    ensures
        hex_text(bytes).len() == 2 * bytes.len(),
    decreases bytes.len(),
{
    if bytes.len() > 0 {
        lemma_hex_text_len(bytes.drop_last());
    }
}

/// The fingerprint of a certificate: the SHA-256 of its DER bytes, in hex (64 digits).
pub fn certificate_fingerprint(der: &[u8]) -> (r: String)
    ensures
        r@ == hex_text(sha256_of(der@)),
        r@.len() == 64,
{
    let digest = sha256(der);
    proof {
        lemma_hex_text_len(digest@);
    }
    hex_encode(digest.as_slice())
}

/// The content hash recorded for a saved version: the SHA-256 of its UTF-8 text, in hex.
pub fn content_hash(content: &str) -> (r: String)
    ensures
        r@ == hex_text(sha256_of(vstd::utf8::encode_utf8(content@))),
        r@.len() == 64,
{
    let digest = sha256(content.as_bytes());
    proof {
        lemma_hex_text_len(digest@);
    }
    hex_encode(digest.as_slice())
}

} // verus!

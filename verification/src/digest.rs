//! Content hashes of mod files: the SHA-1 digest of a file's bytes, written
//! as lowercase hexadecimal, which is the form in which Modrinth publishes the
//! hash of each released file.
use sha1::{Digest, Sha1};
use vstd::prelude::*;

verus! {

/// The SHA-1 digest of a byte sequence (FIPS 180-4).
pub uninterp spec fn sha1_digest(data: Seq<u8>) -> Seq<u8>;

/// The lowercase hexadecimal digit for a value below sixteen.
pub open spec fn hex_digit(n: int) -> char {
    if n < 10 {
        (('0' as int) + n) as char
    } else {
        (('a' as int) + n - 10) as char
    }
}

/// Lowercase hexadecimal text of a byte sequence: two digits per byte, the
/// high nibble first.
pub open spec fn hex_lower(data: Seq<u8>) -> Seq<char>
    decreases data.len(),
{
    if data.len() == 0 {
        Seq::empty()
    } else {
        hex_lower(data.drop_last()) + seq![
            hex_digit(data.last() as int / 16),
            hex_digit(data.last() as int % 16),
        ]
    }
}

/// The text under which a file's content is compared with a published hash.
pub open spec fn content_hash(data: Seq<u8>) -> Seq<char> {
    hex_lower(sha1_digest(data))
}

/// Calls `sha1::Sha1::digest` (through the `digest::Digest` trait).
/// Claimed: the result is the SHA-1 digest of `data`, which is a function of
/// the bytes alone, and it is 20 bytes long (the type's `OutputSize` is `U20`).
#[verifier::external_body]
fn sha1_of(data: &[u8]) -> (r: Vec<u8>)
    ensures
        r@ == sha1_digest(data@),
        r@.len() == 20,
{
    Sha1::digest(data).to_vec()
}

/// Calls `hex::encode`.
/// Claimed: the result is the lowercase hexadecimal text of `data`, two digits
/// per byte with the high nibble first, as the crate documents and its
/// `BytesToHexChars` iterator does.
#[verifier::external_body]
fn hex_encode(data: &[u8]) -> (r: String)
    ensures
        r@ == hex_lower(data@),
{
    hex::encode(data)
}

/// The lowercase hexadecimal text of a digest.
pub fn hex_text(digest: &[u8]) -> (r: String)
    ensures
        r@ == hex_lower(digest@),
        r@.len() == 2 * digest@.len(),
{
    proof {
        lemma_hex_lower_len(digest@);
    }
    hex_encode(digest)
}

/// The hash text of a file's content, as compared against the `sha1` field
/// that Modrinth gives for a released file.
pub fn file_hash(data: &[u8]) -> (r: String)
    ensures
        r@ == content_hash(data@),
        r@.len() == 40,
{
    let digest = sha1_of(data);
    hex_text(digest.as_slice())
}

/// Hex text has two characters per byte.
pub proof fn lemma_hex_lower_len(data: Seq<u8>)
    ensures
        hex_lower(data).len() == 2 * data.len(),
    decreases data.len(),
{
    if data.len() > 0 {
        lemma_hex_lower_len(data.drop_last());
    }
}

} // verus!

//! SHA-256 digests as text.

use vstd::prelude::*;

use crate::text;

verus! {

/// What `sha2::Sha256` computes from bytes.
pub uninterp spec fn sha256(bytes: Seq<u8>) -> Seq<u8>;

/// `sha2::Digest::digest` of `sha2::Sha256`: thirty-two bytes that depend on the
/// input alone.
#[verifier::external_body]
fn sha256_digest(bytes: &Vec<u8>) -> (r: Vec<u8>)
    ensures
        r@ == sha256(bytes@),
        r@.len() == 32,
{
    <sha2::Sha256 as sha2::Digest>::digest(bytes).to_vec()
}

/// The digest of bytes as sixty-four lower-case hexadecimal digits.
pub open spec fn digest_text(bytes: Seq<u8>) -> Seq<char> {
    text::hex(sha256(bytes))
}

/// The digest of bytes as sixty-four lower-case hexadecimal digits.
pub fn bytes_digest(bytes: &Vec<u8>) -> (out: String)
    ensures
        out@ == digest_text(bytes@),
        out@.len() == 64,
        forall|i: int| 0 <= i < out@.len() ==> text::is_lower_hex(#[trigger] out@[i]),
{
    let digest = sha256_digest(bytes);
    proof {
        text::lemma_hex_len(digest@);
    }
    text::hex_bytes(&digest)
}

} // verus!

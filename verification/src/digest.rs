//! SHA-256 digests of text, rendered as lower-case hexadecimal.

use crate::text::{hex_text, to_hex};
use sha2::{Digest, Sha256};
use vstd::prelude::*;
use vstd::utf8::encode_utf8;

verus! {

/// The SHA-256 digest of `data`.
pub uninterp spec fn sha256(data: Seq<u8>) -> Seq<u8>;

/// `Sha256::digest` of the `sha2` crate: the SHA-256 digest of `data`, as
/// bytes. The contract only names the digest; it is a function of the input
/// bytes alone.
#[verifier::external_body]
pub(crate) fn sha256_bytes(data: &[u8]) -> (out: Vec<u8>)
    ensures
        out@ == sha256(data@),
{
    Sha256::digest(data).to_vec()
}

/// The hexadecimal SHA-256 digest of the UTF-8 encoding of `text`.
pub open spec fn digest_hex(text: Seq<char>) -> Seq<char> {
    hex_text(sha256(encode_utf8(text)))
}

/// Hashes `text` and renders the digest as lower-case hexadecimal.
pub fn hash_text(text: &str) -> (out: String)
    ensures
        out@ == digest_hex(text@),
{
    let digest = sha256_bytes(text.as_bytes());
    to_hex(digest.as_slice())
}

} // verus!

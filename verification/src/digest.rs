//! SHA-1 digests of byte strings.

use sha1::Digest;
use vstd::prelude::*;

use crate::text::{hex_text, to_hex};

verus! {

/// The SHA-1 digest of `data`, as the `sha1` crate computes it.
pub uninterp spec fn sha1_digest(data: Seq<u8>) -> Seq<u8>;

/// Calls `sha1::Sha1::digest`. The contract gives the outcome the name
/// `sha1_digest` and claims that it is 20 bytes long, the size of a SHA-1
/// digest; nothing else about the hash function is claimed.
#[verifier::external_body]
fn sha1_bytes(data: &[u8]) -> (digest: Vec<u8>)
    ensures
        digest@ == sha1_digest(data@),
        digest@.len() == 20,
{
    sha1::Sha1::digest(data).to_vec()
}

/// The digest of `data` as 40 lower-case hexadecimal digits.
pub open spec fn sha1_hex(data: Seq<u8>) -> Seq<char> {
    hex_text(sha1_digest(data))
}

/// Hashes `data` and renders the digest as hexadecimal text.
pub fn sha1_hexdigest(data: &[u8]) -> (hex: String)
    ensures
        hex@ == sha1_hex(data@),
        hex@.len() == 40,
{
    let digest = sha1_bytes(data);
    to_hex(digest.as_slice())
}

} // verus!

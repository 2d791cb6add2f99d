//! Content hashing. The digest itself comes from an outside crate; the
//! hexadecimal rendering of it is computed and proved here.

use vstd::prelude::*;
use vstd::string::StringSliceAdditionalSpecFns;
use crate::text::spec_hex;

verus! {

/// The SHA-256 digest of a byte string: 32 bytes, a function of the input
/// alone. What those bytes are is not stated here; contracts downstream
/// speak of this name.
pub uninterp spec fn sha256_of(data: Seq<u8>) -> Seq<u8>;

/// Relies on sha2::Sha256 (via the Digest trait): the digest is 32 bytes
/// and depends only on the input bytes.
#[verifier::external_body]
fn sha256_digest(data: &[u8]) -> (r: Vec<u8>)
    ensures
        r@ == sha256_of(data@),
        r@.len() == 32,
{
    <sha2::Sha256 as sha2::Digest>::digest(data).to_vec()
}

/// The SHA-256 digest of a string's UTF-8 bytes, as raw bytes.
pub(crate) fn sha256_digest_of_str(s: &str) -> (r: Vec<u8>)
    ensures
        r@ == sha256_of(s.spec_bytes()),
        r@.len() == 32,
{
    sha256_digest(s.as_bytes())
}

/// The lowercase hexadecimal rendering of the SHA-256 digest of `data`:
/// always 64 hex characters.
pub open spec fn spec_sha256_hex(data: Seq<u8>) -> Seq<char> {
    spec_hex(sha256_of(data))
}

/// SHA-256 of `data`, rendered as 64 lowercase hexadecimal characters.
pub fn sha256_hex(data: &[u8]) -> (r: String)
    ensures
        r@ == spec_sha256_hex(data@),
        r@.len() == 64,
{
    let digest = sha256_digest(data);
    proof {
        lemma_spec_hex_len(digest@);
    }
    crate::text::hex_lower(digest.as_slice())
}

proof fn lemma_spec_hex_len(bytes: Seq<u8>)
    ensures
        spec_hex(bytes).len() == 2 * bytes.len(),
    decreases bytes.len(),
{
    if bytes.len() > 0 {
        lemma_spec_hex_len(bytes.drop_last());
    }
}

} // verus!

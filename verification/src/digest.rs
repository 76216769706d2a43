//! SHA-256 fingerprints of source data and media.

use vstd::prelude::*;
use vstd::string::StringSliceAdditionalSpecFns;
use vstd::utf8::encode_utf8;

verus! {

/// The SHA-256 digest of a byte sequence, as the `sha2` crate computes it.
pub uninterp spec fn sha256(data: Seq<u8>) -> Seq<u8>;

/// Calls `sha2::Sha256::digest`. The digest is a function of the input bytes
/// alone; its width of 32 bytes is carried by the result type.
#[verifier::external_body]
pub(crate) fn sha256_digest(data: &[u8]) -> (out: [u8; 32])
    ensures
        out@ == sha256(data@),
{
    <sha2::Sha256 as sha2::Digest>::digest(data).into()
}

/// The all-zero digest that stands for an absent or unavailable image.
pub open spec fn zero_digest() -> Seq<u8> {
    Seq::new(32, |i: int| 0u8)
}

/// Digest of the UTF-8 bytes of a text, used for the source-data hash.
pub fn compute_hash(data: &str) -> (out: [u8; 32])
    ensures
        out@ == sha256(encode_utf8(data@)),
{
    sha256_digest(data.as_bytes())
}

/// Content fingerprint of a retrieved image: SHA-256 over the exact bytes.
pub fn fingerprint(image_bytes: &[u8]) -> (out: [u8; 32])
    ensures
        out@ == sha256(image_bytes@),
{
    sha256_digest(image_bytes)
}

/// The media hash of a resolution: the fingerprint of the image when one was
/// retrieved, the zero digest when it was not.
pub fn media_hash(image: Option<&[u8]>) -> (out: [u8; 32])
    ensures
        out@ == match image {
            Some(bytes) => sha256(bytes@),
            None => zero_digest(),
        },
{
    match image {
        Some(bytes) => fingerprint(bytes),
        None => [0u8; 32],
    }
}

} // verus!

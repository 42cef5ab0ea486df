//! The hash primitive used for binding and folding: SHA-256.

use vstd::prelude::*;

verus! {

/// The SHA-256 digest of a byte string, as a mathematical function of the
/// message.
pub uninterp spec fn sha256_digest(message: Seq<u8>) -> Seq<u8>;

/// Whether SHA-256 has a collision: two distinct messages with one digest.
/// None is known; what is proved "unless the hash collides" holds for as
/// long as none is found.
pub open spec fn sha256_collides() -> bool {
    exists|a: Seq<u8>, b: Seq<u8>|
        a != b && #[trigger] sha256_digest(a) == #[trigger] sha256_digest(b)
}

/// Calls `sha2::Sha256::digest` on `message`.
///
/// Trusted: the returned array is the SHA-256 digest of exactly the bytes of
/// `message`, a value that depends on nothing but those bytes.
#[verifier::external_body]
pub(crate) fn sha256(message: &[u8]) -> (digest: [u8; 32])
    ensures
        digest@ == sha256_digest(message@),
{
    let out = <sha2::Sha256 as sha2::Digest>::digest(message);
    out.into()
}

} // verus!

//! The Ristretto group, as the library sees it: a group element is carried in
//! its compressed 32-byte encoding, and every operation on elements is
//! performed by `curve25519_dalek`.
//!
//! The encoding of a group element is canonical: two elements are equal
//! exactly when their encodings are equal. That is what lets the contracts
//! below speak of encodings alone.

use vstd::prelude::*;

verus! {

/// Whether `encoding` is the canonical encoding of a group element, that is,
/// whether `CompressedRistretto::decompress` accepts it.
pub uninterp spec fn ristretto_decodes(encoding: Seq<u8>) -> bool;

/// The encoding of `scalar * point`, where `scalar` is 32 little-endian bytes
/// read modulo the group order and `point` is the encoding of a group element.
pub uninterp spec fn ristretto_mul(scalar: Seq<u8>, point: Seq<u8>) -> Seq<u8>;

/// The encoding of the sum of the two group elements that `p` and `q` encode.
pub uninterp spec fn ristretto_add(p: Seq<u8>, q: Seq<u8>) -> Seq<u8>;

/// The encoding of the group element onto which `RistrettoPoint::hash_from_bytes`
/// maps `input` by way of SHA-512.
pub uninterp spec fn ristretto_hash_to_point(input: Seq<u8>) -> Seq<u8>;

/// The encoding of the canonical base point of the group.
pub open spec fn basepoint_encoding() -> Seq<u8> {
    seq![
        0xe2, 0xf2, 0xae, 0x0a, 0x6a, 0xbc, 0x4e, 0x71,
        0xa8, 0x84, 0xa9, 0x61, 0xc5, 0x00, 0x51, 0x5f,
        0x58, 0xe3, 0x0b, 0x6a, 0xa5, 0x82, 0xdd, 0x8d,
        0xb6, 0xa6, 0x59, 0x45, 0xe0, 0x8d, 0x2d, 0x76,
    ]
}

/// Calls `CompressedRistretto::decompress` and reports whether it succeeded.
///
/// Trusted: success depends on the 32 bytes alone.
#[verifier::external_body]
pub(crate) fn point_decodes(encoding: &[u8; 32]) -> (ok: bool)
    ensures
        ok == ristretto_decodes(encoding@),
{
    curve25519_dalek::ristretto::CompressedRistretto(*encoding).decompress().is_some()
}

/// Calls `*` of `RistrettoPoint` and `Scalar` on the element that `point`
/// encodes and the scalar that `Scalar::from_bytes_mod_order` makes of
/// `scalar`, and compresses the product.
///
/// Trusted: the product depends on the two encodings alone, and what
/// `RistrettoPoint::compress` yields is accepted by `decompress`.
#[verifier::external_body]
pub(crate) fn point_mul(scalar: &[u8; 32], point: &[u8; 32]) -> (product: [u8; 32])
    requires
        ristretto_decodes(point@),
    ensures
        product@ == ristretto_mul(scalar@, point@),
        ristretto_decodes(product@),
{
    let p = curve25519_dalek::ristretto::CompressedRistretto(*point).decompress().unwrap_or_default();
    let s = curve25519_dalek::scalar::Scalar::from_bytes_mod_order(*scalar);
    (p * s).compress().to_bytes()
}

/// Calls `+` of `RistrettoPoint` on the elements that `p` and `q` encode, and
/// compresses the sum.
///
/// Trusted: the sum depends on the two encodings alone, and what
/// `RistrettoPoint::compress` yields is accepted by `decompress`.
#[verifier::external_body]
pub(crate) fn point_add(p: &[u8; 32], q: &[u8; 32]) -> (sum: [u8; 32])
    requires
        ristretto_decodes(p@),
        ristretto_decodes(q@),
    ensures
        sum@ == ristretto_add(p@, q@),
        ristretto_decodes(sum@),
{
    let a = curve25519_dalek::ristretto::CompressedRistretto(*p).decompress().unwrap_or_default();
    let b = curve25519_dalek::ristretto::CompressedRistretto(*q).decompress().unwrap_or_default();
    (a + b).compress().to_bytes()
}

/// Calls `RistrettoPoint::hash_from_bytes` with SHA-512 on `input`, and
/// compresses the element.
///
/// Trusted: the element depends on the bytes of `input` alone, and what
/// `RistrettoPoint::compress` yields is accepted by `decompress`.
#[verifier::external_body]
pub(crate) fn hash_to_point(input: &[u8]) -> (point: [u8; 32])
    ensures
        point@ == ristretto_hash_to_point(input@),
        ristretto_decodes(point@),
{
    curve25519_dalek::ristretto::RistrettoPoint::hash_from_bytes::<sha2::Sha512>(input)
        .compress()
        .to_bytes()
}

/// Compresses `curve25519_dalek::constants::RISTRETTO_BASEPOINT_POINT`.
///
/// Trusted: the encoding of the base point is the constant that the crate
/// publishes as `RISTRETTO_BASEPOINT_COMPRESSED`, and `decompress` accepts it.
#[verifier::external_body]
pub(crate) fn basepoint() -> (point: [u8; 32])
    ensures
        point@ == basepoint_encoding(),
        ristretto_decodes(point@),
{
    curve25519_dalek::constants::RISTRETTO_BASEPOINT_POINT.compress().to_bytes()
}

} // verus!

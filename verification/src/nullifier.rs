//! Nullifier derivation: a one-way function of wallet identity, salt and
//! timestamp.

use vstd::prelude::*;
use crate::bytes::{append_bytes, ct_eq, lemma_u64_bytes_injective, u64_be_bytes, u64_to_be};
use crate::hash::{sha256, sha256_collides, sha256_digest};
use crate::types::NullifierData;

verus! {

/// The message that is hashed into a nullifier: the wallet identity, then the
/// salt, then the timestamp in eight bytes, most significant first.
pub open spec fn nullifier_preimage(wallet: Seq<u8>, salt: Seq<u8>, timestamp: u64) -> Seq<u8> {
    wallet + salt + u64_be_bytes(timestamp)
}

/// The nullifier of a wallet identity, salt and timestamp.
pub open spec fn nullifier_of(wallet: Seq<u8>, salt: Seq<u8>, timestamp: u64) -> Seq<u8> {
    sha256_digest(nullifier_preimage(wallet, salt, timestamp))
}

/// Builds the message that is hashed into the nullifier of `wallet_address`
/// under `nullifier_data`.
pub fn nullifier_message(wallet_address: &[u8; 20], nullifier_data: &NullifierData) -> (message:
    Vec<u8>)
    ensures
        message@ == nullifier_preimage(
            wallet_address@,
            nullifier_data.salt@,
            nullifier_data.timestamp,
        ),
{
    let mut message: Vec<u8> = Vec::new();
    append_bytes(&mut message, wallet_address.as_slice());
    append_bytes(&mut message, nullifier_data.salt.as_slice());
    let stamp = u64_to_be(nullifier_data.timestamp);
    append_bytes(&mut message, stamp.as_slice());
    assert(message@ =~= nullifier_preimage(
        wallet_address@,
        nullifier_data.salt@,
        nullifier_data.timestamp,
    ));
    message
}

/// Derives the nullifier of `wallet_address` under `nullifier_data`.
pub fn derive_nullifier(wallet_address: &[u8; 20], nullifier_data: &NullifierData) -> (nullifier:
    [u8; 32])
    ensures
        nullifier@ == nullifier_of(
            wallet_address@,
            nullifier_data.salt@,
            nullifier_data.timestamp,
        ),
{
    let message = nullifier_message(wallet_address, nullifier_data);
    sha256(message.as_slice())
}

/// Tells whether `expected_nullifier` is the nullifier of `wallet_address`
/// under `nullifier_data`.
pub fn verify_nullifier(
    wallet_address: &[u8; 20],
    nullifier_data: &NullifierData,
    expected_nullifier: &[u8; 32],
) -> (ok: bool)
    ensures
        ok == (expected_nullifier@ == nullifier_of(
            wallet_address@,
            nullifier_data.salt@,
            nullifier_data.timestamp,
        )),
{
    let computed = derive_nullifier(wallet_address, nullifier_data);
    ct_eq(computed.as_slice(), expected_nullifier.as_slice())
}

/// Derivation is a function of its three inputs: the same wallet identity,
/// salt and timestamp always give the same nullifier.
pub proof fn lemma_nullifier_deterministic(
    wallet1: Seq<u8>,
    salt1: Seq<u8>,
    timestamp1: u64,
    wallet2: Seq<u8>,
    salt2: Seq<u8>,
    timestamp2: u64,
)
    requires
        wallet1 == wallet2,
        salt1 == salt2,
        timestamp1 == timestamp2,
    ensures
        nullifier_of(wallet1, salt1, timestamp1) == nullifier_of(wallet2, salt2, timestamp2),
{
}

/// No two distinct inputs are hashed as the same message: where a wallet
/// identity of 20 bytes, a salt of 32 bytes or the timestamp changes, the
/// hashed message changes. Two such inputs can therefore share a nullifier
/// only through a collision of the hash.
pub proof fn lemma_nullifier_preimage_injective(
    wallet1: Seq<u8>,
    salt1: Seq<u8>,
    timestamp1: u64,
    wallet2: Seq<u8>,
    salt2: Seq<u8>,
    timestamp2: u64,
)
    requires
        wallet1.len() == 20,
        wallet2.len() == 20,
        salt1.len() == 32,
        salt2.len() == 32,
        nullifier_preimage(wallet1, salt1, timestamp1) == nullifier_preimage(
            wallet2,
            salt2,
            timestamp2,
        ),
    ensures
        wallet1 == wallet2,
        salt1 == salt2,
        timestamp1 == timestamp2,
{
    let m1 = nullifier_preimage(wallet1, salt1, timestamp1);
    let m2 = nullifier_preimage(wallet2, salt2, timestamp2);
    crate::bytes::lemma_le_digits_len(timestamp1 as nat, 8);
    crate::bytes::lemma_le_digits_len(timestamp2 as nat, 8);
    assert(m1.subrange(0, 20) =~= wallet1);
    assert(m2.subrange(0, 20) =~= wallet2);
    assert(m1.subrange(20, 52) =~= salt1);
    assert(m2.subrange(20, 52) =~= salt2);
    assert(m1.subrange(52, 60) =~= u64_be_bytes(timestamp1));
    assert(m2.subrange(52, 60) =~= u64_be_bytes(timestamp2));
    lemma_u64_bytes_injective(timestamp1, timestamp2);
}

/// Where any of the three inputs changes, the nullifier changes, unless the
/// hash collides.
pub proof fn lemma_nullifier_changes_or_hash_collides(
    wallet1: Seq<u8>,
    salt1: Seq<u8>,
    timestamp1: u64,
    wallet2: Seq<u8>,
    salt2: Seq<u8>,
    timestamp2: u64,
)
    requires
        wallet1.len() == 20,
        wallet2.len() == 20,
        salt1.len() == 32,
        salt2.len() == 32,
        wallet1 != wallet2 || salt1 != salt2 || timestamp1 != timestamp2,
    ensures
        nullifier_of(wallet1, salt1, timestamp1) != nullifier_of(wallet2, salt2, timestamp2)
            || sha256_collides(),
{
    let m1 = nullifier_preimage(wallet1, salt1, timestamp1);
    let m2 = nullifier_preimage(wallet2, salt2, timestamp2);
    if m1 == m2 {
        lemma_nullifier_preimage_injective(wallet1, salt1, timestamp1, wallet2, salt2, timestamp2);
    } else if sha256_digest(m1) == sha256_digest(m2) {
        assert(sha256_collides());
    }
}

} // verus!

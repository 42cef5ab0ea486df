//! The Pedersen commitment scheme over the Ristretto group.
//!
//! A commitment to `amount` under the blinding factor `b` is the group element
//! `amount * G + b * H`. `H` is the canonical base point of the group; `G` is
//! obtained by hashing a fixed domain-separation string onto the group, so
//! that nobody knows a relation between the two.

use vstd::prelude::*;
use crate::bytes::ct_eq;
use crate::ristretto::{
    basepoint, basepoint_encoding, hash_to_point, point_add, point_decodes, point_mul,
    ristretto_add, ristretto_decodes, ristretto_hash_to_point, ristretto_mul,
};
use crate::scalar::{
    lemma_scalar_sum, random_scalar, scalar_add, scalar_from_u64, scalar_is_canonical,
    scalar_of_u64, scalar_sum,
};

verus! {

/// The domain-separation string from which `G` is derived: the single ASCII
/// letter `G`.
pub open spec fn generator_domain() -> Seq<u8> {
    seq![0x47u8]
}

/// The generator that carries the amount.
pub open spec fn generator_g() -> Seq<u8> {
    ristretto_hash_to_point(generator_domain())
}

/// The generator that carries the blinding factor.
pub open spec fn generator_h() -> Seq<u8> {
    basepoint_encoding()
}

/// The encoding of `amount * G + blinding * H`.
pub open spec fn commitment_of(amount: u64, blinding: Seq<u8>) -> Seq<u8> {
    ristretto_add(
        ristretto_mul(scalar_of_u64(amount), generator_g()),
        ristretto_mul(blinding, generator_h()),
    )
}

/// Whether `commitment` opens to `amount` under `blinding`.
pub open spec fn opens_to(commitment: Seq<u8>, amount: u64, blinding: Seq<u8>) -> bool {
    commitment == commitment_of(amount, blinding)
}

/// A commitment opens to the amount and the blinding factor it was made of.
pub proof fn lemma_commitment_opens(amount: u64, blinding: Seq<u8>)
    ensures
        opens_to(commitment_of(amount, blinding), amount, blinding),
{
}

/// A commitment together with its opening.
#[derive(Debug, Clone, Copy, PartialEq, Eq)]
pub struct PedersenCommitment {
    /// The committed group element, compressed.
    pub commitment: [u8; 32],
    /// The committed amount.
    pub amount: u64,
    /// The blinding factor, as 32 little-endian bytes.
    pub blinding_factor: [u8; 32],
}

impl PedersenCommitment {
    /// Whether the stored commitment is the one that the stored amount and
    /// blinding factor give.
    pub open spec fn opens(self) -> bool {
        opens_to(self.commitment@, self.amount, self.blinding_factor@)
    }

    /// Commits to `amount` under a freshly drawn blinding factor.
    pub fn new(amount: u64) -> (c: Self)
        ensures
            c.amount == amount,
            scalar_is_canonical(c.blinding_factor@),
            c.opens(),
            ristretto_decodes(c.commitment@),
    {
        let blinding_factor = random_scalar();
        let commitment = Self::commit(amount, &blinding_factor);
        PedersenCommitment { commitment, amount, blinding_factor }
    }

    /// Commits to `amount` under the given blinding factor.
    pub fn commit(amount: u64, blinding_factor: &[u8; 32]) -> (commitment: [u8; 32])
        ensures
            commitment@ == commitment_of(amount, blinding_factor@),
            ristretto_decodes(commitment@),
    {
        let domain: [u8; 1] = [0x47];
        assert(domain@ =~= generator_domain());
        let g = hash_to_point(domain.as_slice());
        let h = basepoint();
        let amount_scalar = scalar_from_u64(amount);
        let amount_part = point_mul(&amount_scalar, &g);
        let blinding_part = point_mul(blinding_factor, &h);
        point_add(&amount_part, &blinding_part)
    }

    /// Tells whether the stored commitment opens to `amount` under the stored
    /// blinding factor. A mismatch is an answer, not a failure.
    pub fn verify(&self, amount: u64) -> (ok: bool)
        ensures
            ok == opens_to(self.commitment@, amount, self.blinding_factor@),
    {
        let expected = Self::commit(amount, &self.blinding_factor);
        ct_eq(expected.as_slice(), self.commitment.as_slice())
    }

    /// Adds two commitments: the group elements are added, and so are the
    /// amounts and the blinding factors.
    ///
    /// There is no sum where one of the two stored commitments does not
    /// encode a group element, or where the amounts do not add up within 64
    /// bits.
    pub fn add(&self, other: &PedersenCommitment) -> (sum: Option<PedersenCommitment>)
        ensures
            sum.is_some() <==> ristretto_decodes(self.commitment@) && ristretto_decodes(
                other.commitment@,
            ) && self.amount + other.amount <= u64::MAX,
            sum matches Some(s) ==> {
                &&& s.commitment@ == ristretto_add(self.commitment@, other.commitment@)
                &&& s.amount == self.amount + other.amount
                &&& s.blinding_factor@ == scalar_sum(self.blinding_factor@, other.blinding_factor@)
                &&& scalar_is_canonical(s.blinding_factor@)
                &&& ristretto_decodes(s.commitment@)
            },
    {
        if !point_decodes(&self.commitment) || !point_decodes(&other.commitment) {
            return None;
        }
        match self.amount.checked_add(other.amount) {
            None => None,
            Some(amount) => {
                let commitment = point_add(&self.commitment, &other.commitment);
                let blinding_factor = scalar_add(&self.blinding_factor, &other.blinding_factor);
                proof {
                    lemma_scalar_sum(self.blinding_factor@, other.blinding_factor@);
                }
                Some(PedersenCommitment { commitment, amount, blinding_factor })
            },
        }
    }
}

} // verus!

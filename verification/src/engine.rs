//! The spend verification engine: three checks in a fixed order, and on
//! success exactly three public values.

use vstd::prelude::*;
use crate::bytes::{
    append_bytes, ct_eq, lemma_le_digits_len, lemma_u64_bytes_injective, read_array_32,
    u64_be_bytes, u64_le_bytes, u64_read_le, u64_to_be, u64_to_le,
};
use crate::hash::{sha256, sha256_digest};
use crate::merkle::{merkle_proof_valid, verify_merkle_proof};
use crate::nullifier::{nullifier_of, verify_nullifier};
use crate::pedersen::{commitment_of, PedersenCommitment};
use crate::ristretto::{point_decodes, ristretto_decodes};
use crate::scalar::{is_canonical_scalar, scalar_is_canonical};
use crate::types::{
    siblings, AmountCommitment, PublicOutputs, SpendError, SpendNoteInput, SpendVerificationInput,
};

verus! {

/// The number of bytes in the encoding of the public outputs.
pub const JOURNAL_LEN: usize = 72;

/// The message that is hashed into the leaf of a note: wallet identity,
/// nullifier, compressed commitment, blinding factor, salt, and the timestamp
/// in eight bytes, most significant first.
pub open spec fn leaf_preimage(note: SpendNoteInput) -> Seq<u8> {
    note.wallet_address@ + note.nullifier@ + note.amount_commitment.commitment@
        + note.amount_commitment.blinding_factor@ + note.nullifier_data.salt@ + u64_be_bytes(
        note.nullifier_data.timestamp,
    )
}

/// The leaf under which a note stands in the tree.
pub open spec fn leaf_hash(note: SpendNoteInput) -> Seq<u8> {
    sha256_digest(leaf_preimage(note))
}

/// Whether an input has the shape of a spend: one direction bit per sibling,
/// a commitment that encodes a group element, and a blinding factor that is
/// a canonical scalar.
pub open spec fn input_well_formed(input: SpendVerificationInput) -> bool {
    &&& input.merkle_proof.well_formed()
    &&& ristretto_decodes(input.spend_note.amount_commitment.commitment@)
    &&& scalar_is_canonical(input.spend_note.amount_commitment.blinding_factor@)
}

/// Whether the nullifier of a note is the one derived from its wallet
/// identity, salt and timestamp.
pub open spec fn nullifier_valid(note: SpendNoteInput) -> bool {
    note.nullifier@ == nullifier_of(
        note.wallet_address@,
        note.nullifier_data.salt@,
        note.nullifier_data.timestamp,
    )
}

/// Whether a commitment is a commitment to `expected_amount`: the amount it
/// carries is that amount, and the group element opens to it under the
/// blinding factor.
pub open spec fn amount_commitment_valid(
    commitment: AmountCommitment,
    expected_amount: u64,
) -> bool {
    &&& commitment.amount == expected_amount
    &&& commitment.commitment@ == commitment_of(expected_amount, commitment.blinding_factor@)
}

/// Whether the leaf of the note is a member of the tree with the claimed
/// root, by the proof that the input carries.
pub open spec fn membership_valid(input: SpendVerificationInput) -> bool {
    merkle_proof_valid(
        leaf_hash(input.spend_note),
        siblings(input.merkle_proof.path@),
        input.merkle_proof.indices@,
        input.merkle_root@,
    )
}

/// What the engine owes for an input: the first failing check in the fixed
/// order, or else the three public values.
pub open spec fn spend_verdict(input: SpendVerificationInput) -> Result<
    PublicOutputs,
    SpendError,
> {
    if !input_well_formed(input) {
        Err(SpendError::MalformedInput)
    } else if !nullifier_valid(input.spend_note) {
        Err(SpendError::InvalidNullifier)
    } else if !amount_commitment_valid(
        input.spend_note.amount_commitment,
        input.expected_amount,
    ) {
        Err(SpendError::InvalidAmountCommitment)
    } else if !membership_valid(input) {
        Err(SpendError::InvalidMerkleProof)
    } else {
        Ok(
            PublicOutputs {
                merkle_root: input.merkle_root,
                nullifier: input.spend_note.nullifier,
                amount: input.expected_amount,
            },
        )
    }
}

/// The encoding of the public outputs: the root in bytes 0 to 31, the
/// nullifier in bytes 32 to 63, the amount in bytes 64 to 71, least
/// significant byte first.
pub open spec fn journal_bytes(outputs: PublicOutputs) -> Seq<u8> {
    outputs.merkle_root@ + outputs.nullifier@ + u64_le_bytes(outputs.amount)
}

/// Tells whether `commitment` is a commitment to `expected_amount`.
pub fn verify_amount_commitment(commitment: &AmountCommitment, expected_amount: u64) -> (ok: bool)
    ensures
        ok == amount_commitment_valid(*commitment, expected_amount),
{
    let expected = PedersenCommitment::commit(expected_amount, &commitment.blinding_factor);
    let opens = ct_eq(expected.as_slice(), commitment.commitment.as_slice());
    let same_amount = commitment.amount == expected_amount;
    opens && same_amount
}

/// Builds the message that is hashed into the leaf of `note`.
pub fn leaf_message(note: &SpendNoteInput) -> (message: Vec<u8>)
    ensures
        message@ == leaf_preimage(*note),
{
    let mut message: Vec<u8> = Vec::new();
    append_bytes(&mut message, note.wallet_address.as_slice());
    append_bytes(&mut message, note.nullifier.as_slice());
    append_bytes(&mut message, note.amount_commitment.commitment.as_slice());
    append_bytes(&mut message, note.amount_commitment.blinding_factor.as_slice());
    append_bytes(&mut message, note.nullifier_data.salt.as_slice());
    let stamp = u64_to_be(note.nullifier_data.timestamp);
    append_bytes(&mut message, stamp.as_slice());
    assert(message@ =~= leaf_preimage(*note));
    message
}

/// Computes the leaf under which `note` stands in the tree.
pub fn compute_leaf_hash(note: &SpendNoteInput) -> (leaf: Vec<u8>)
    ensures
        leaf@ == leaf_hash(*note),
        leaf@.len() == 32,
{
    let message = leaf_message(note);
    let digest = sha256(message.as_slice());
    let mut leaf: Vec<u8> = Vec::new();
    append_bytes(&mut leaf, digest.as_slice());
    assert(leaf@ =~= digest@);
    leaf
}

/// Runs one verification pass over `input`.
///
/// The checks are made in a fixed order and the first that fails is reported:
/// the shape of the input, the nullifier, the amount commitment, membership
/// in the tree. Where all hold, the root, the nullifier and the amount are
/// handed out, and nothing else of the input.
pub fn verify_spend_input(input: &SpendVerificationInput) -> (verdict: Result<
    PublicOutputs,
    SpendError,
>)
    ensures
        verdict == spend_verdict(*input),
{
    let note = &input.spend_note;
    if input.merkle_proof.path.len() != input.merkle_proof.indices.len() {
        return Err(SpendError::MalformedInput);
    }
    if !point_decodes(&note.amount_commitment.commitment) {
        return Err(SpendError::MalformedInput);
    }
    if !is_canonical_scalar(&note.amount_commitment.blinding_factor) {
        return Err(SpendError::MalformedInput);
    }
    if !verify_nullifier(&note.wallet_address, &note.nullifier_data, &note.nullifier) {
        return Err(SpendError::InvalidNullifier);
    }
    if !verify_amount_commitment(&note.amount_commitment, input.expected_amount) {
        return Err(SpendError::InvalidAmountCommitment);
    }
    let leaf = compute_leaf_hash(note);
    if !verify_merkle_proof(leaf.as_slice(), &input.merkle_proof, &input.merkle_root) {
        return Err(SpendError::InvalidMerkleProof);
    }
    Ok(
        PublicOutputs {
            merkle_root: input.merkle_root,
            nullifier: note.nullifier,
            amount: input.expected_amount,
        },
    )
}

impl PublicOutputs {
    /// Encodes the public outputs in 72 bytes.
    pub fn to_journal(&self) -> (journal: Vec<u8>)
        ensures
            journal@ == journal_bytes(*self),
            journal@.len() == JOURNAL_LEN,
    {
        let mut journal: Vec<u8> = Vec::new();
        append_bytes(&mut journal, self.merkle_root.as_slice());
        append_bytes(&mut journal, self.nullifier.as_slice());
        let amount = u64_to_le(self.amount);
        append_bytes(&mut journal, amount.as_slice());
        proof {
            lemma_le_digits_len(self.amount as nat, 8);
        }
        journal
    }

    /// Decodes public outputs from the first 72 bytes of `journal`. There is
    /// nothing to decode where `journal` is shorter than that.
    pub fn from_journal(journal: &[u8]) -> (outputs: Option<PublicOutputs>)
        ensures
            outputs.is_some() <==> journal@.len() >= JOURNAL_LEN,
            outputs matches Some(o) ==> journal_bytes(o) == journal@.take(JOURNAL_LEN as int),
    {
        if journal.len() < JOURNAL_LEN {
            return None;
        }
        let merkle_root = read_array_32(journal, 0);
        let nullifier = read_array_32(journal, 32);
        let amount = u64_read_le(journal, 64);
        let outputs = PublicOutputs { merkle_root, nullifier, amount };
        assert(journal_bytes(outputs) =~= journal@.take(JOURNAL_LEN as int));
        Some(outputs)
    }
}

/// The encoding of public outputs loses nothing: outputs with the same
/// encoding are the same outputs. Decoding an encoding therefore gives back
/// what was encoded.
pub proof fn lemma_journal_injective(a: PublicOutputs, b: PublicOutputs)
    requires
        journal_bytes(a) == journal_bytes(b),
    ensures
        a == b,
{
    let ja = journal_bytes(a);
    let jb = journal_bytes(b);
    lemma_le_digits_len(a.amount as nat, 8);
    lemma_le_digits_len(b.amount as nat, 8);
    assert(ja.subrange(0, 32) =~= a.merkle_root@);
    assert(jb.subrange(0, 32) =~= b.merkle_root@);
    assert(ja.subrange(32, 64) =~= a.nullifier@);
    assert(jb.subrange(32, 64) =~= b.nullifier@);
    assert(ja.subrange(64, 72) =~= u64_le_bytes(a.amount));
    assert(jb.subrange(64, 72) =~= u64_le_bytes(b.amount));
    lemma_u64_bytes_injective(a.amount, b.amount);
    assert(a.merkle_root =~= b.merkle_root);
    assert(a.nullifier =~= b.nullifier);
}

} // verus!

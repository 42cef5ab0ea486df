//! The data that one spend verification works on, and the ways it can fail.

use vstd::prelude::*;

verus! {

/// The values from which a nullifier is derived, besides the wallet identity.
#[derive(Debug, Clone, Copy, PartialEq, Eq)]
pub struct NullifierData {
    /// Random salt, drawn once per session.
    pub salt: [u8; 32],
    /// Seconds since the Unix epoch at which the nullifier was made.
    pub timestamp: u64,
}

/// A Pedersen commitment to an amount, with its opening.
#[derive(Debug, Clone, Copy, PartialEq, Eq)]
pub struct AmountCommitment {
    /// The committed group element, compressed.
    pub commitment: [u8; 32],
    /// The committed amount.
    pub amount: u64,
    /// The blinding factor, as 32 little-endian bytes.
    pub blinding_factor: [u8; 32],
}

/// The note that is being spent.
#[derive(Debug, Clone, Copy, PartialEq, Eq)]
pub struct SpendNoteInput {
    /// The spender's wallet identity.
    pub wallet_address: [u8; 20],
    /// The one-time identifier of this spend.
    pub nullifier: [u8; 32],
    /// The hidden amount of the note.
    pub amount_commitment: AmountCommitment,
    /// What the nullifier was derived from.
    pub nullifier_data: NullifierData,
}

/// A membership proof: the siblings met on the way from a leaf to the root,
/// and for each level whether the node on that way is the left child.
#[derive(Debug, Clone, PartialEq, Eq)]
pub struct MerkleProof {
    /// Sibling hashes, from the leaf's level upwards.
    pub path: Vec<[u8; 32]>,
    /// Direction bits, one per sibling: `true` where the running hash goes on
    /// the left of the sibling.
    pub indices: Vec<bool>,
}

/// Everything that one verification pass reads.
#[derive(Debug, Clone, PartialEq, Eq)]
pub struct SpendVerificationInput {
    /// The note that is being spent.
    pub spend_note: SpendNoteInput,
    /// The proof that the note is in the tree.
    pub merkle_proof: MerkleProof,
    /// The root that the proof is checked against.
    pub merkle_root: [u8; 32],
    /// The amount that the spend claims.
    pub expected_amount: u64,
}

/// The three values that a successful verification discloses.
#[derive(Debug, Clone, Copy, PartialEq, Eq)]
pub struct PublicOutputs {
    /// The root that membership was proved against.
    pub merkle_root: [u8; 32],
    /// The one-time identifier of the spend.
    pub nullifier: [u8; 32],
    /// The amount spent.
    pub amount: u64,
}

/// The transportable result of a proving session: the artifact of the proving
/// backend, and beside it the public values that the session claims.
#[derive(Debug, Clone, PartialEq, Eq)]
pub struct SpendProof {
    /// The artifact, opaque to this library.
    pub receipt: Vec<u8>,
    /// The claimed Merkle root.
    pub merkle_root: [u8; 32],
    /// The claimed nullifier.
    pub nullifier: [u8; 32],
    /// The claimed amount.
    pub amount: u64,
}

/// Why a spend was not accepted.
#[derive(Debug, Clone, Copy, PartialEq, Eq, Structural)]
pub enum SpendError {
    /// The nullifier is not the one that the wallet, salt and timestamp give.
    InvalidNullifier,
    /// The commitment does not open to the claimed amount.
    InvalidAmountCommitment,
    /// Folding the leaf up the path does not give the root.
    InvalidMerkleProof,
    /// The input does not have the shape of a spend.
    MalformedInput,
    /// The proving backend failed.
    ProvingFailure,
    /// The verifying backend rejected the artifact.
    VerificationFailure,
    /// The artifact attests other public values than the proof claims.
    OutputMismatch,
}

impl SpendError {
    /// The message that belongs to each kind of failure.
    pub open spec fn message_of(self) -> Seq<char> {
        match self {
            SpendError::InvalidNullifier => "Invalid nullifier"@,
            SpendError::InvalidAmountCommitment => "Invalid amount commitment"@,
            SpendError::InvalidMerkleProof => "Invalid merkle proof"@,
            SpendError::MalformedInput => "Malformed input"@,
            SpendError::ProvingFailure => "Proving failed"@,
            SpendError::VerificationFailure => "Verification failed"@,
            SpendError::OutputMismatch => "Public outputs do not match the claim"@,
        }
    }

    /// A short description of the failure, for a person to read.
    pub fn message(&self) -> (text: &'static str)
        ensures
            text@ == self.message_of(),
    {
        match self {
            SpendError::InvalidNullifier => "Invalid nullifier",
            SpendError::InvalidAmountCommitment => "Invalid amount commitment",
            SpendError::InvalidMerkleProof => "Invalid merkle proof",
            SpendError::MalformedInput => "Malformed input",
            SpendError::ProvingFailure => "Proving failed",
            SpendError::VerificationFailure => "Verification failed",
            SpendError::OutputMismatch => "Public outputs do not match the claim",
        }
    }
}

impl MerkleProof {
    /// Whether the proof has exactly one direction bit per sibling.
    pub open spec fn well_formed(self) -> bool {
        self.path@.len() == self.indices@.len()
    }
}

/// The siblings of a path, each as a byte string.
pub open spec fn siblings(path: Seq<[u8; 32]>) -> Seq<Seq<u8>> {
    Seq::new(path.len(), |i: int| path[i]@)
}

} // verus!

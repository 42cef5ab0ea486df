//! The host-facing side: a proof generator that prepares one proving session
//! and wraps its result, and a proof verifier that holds the artifact of a
//! session against the public values claimed beside it.
//!
//! The proving and verifying backends are not part of this library. They are
//! reached through two narrow calls: a prover takes a serialized input and
//! hands back an artifact, or nothing where it fails; a verifier takes an
//! artifact and a program identity and hands back the public outputs that the
//! artifact attests, or nothing where it rejects the artifact.
//!
//! No artifact is made for a spend that fails a check: the generator runs the
//! engine on the input of a session before it calls the prover.

use vstd::prelude::*;
use crate::bytes::ct_eq;
use crate::engine::{
    amount_commitment_valid, journal_bytes, lemma_journal_injective, nullifier_valid,
    spend_verdict, verify_spend_input, JOURNAL_LEN,
};
use crate::nullifier::{derive_nullifier, nullifier_of};
use crate::pedersen::{commitment_of, PedersenCommitment};
use crate::ristretto::ristretto_decodes;
use crate::scalar::{random_scalar, scalar_is_canonical};
use crate::types::{
    AmountCommitment, MerkleProof, NullifierData, PublicOutputs, SpendError, SpendNoteInput,
    SpendProof, SpendVerificationInput,
};
use crate::wire::input_bytes;

verus! {

/// Prepares proving sessions.
#[derive(Debug, Clone, Copy, PartialEq, Eq)]
pub struct ProofGenerator {}

/// Checks the results of proving sessions.
#[derive(Debug, Clone, Copy, PartialEq, Eq)]
pub struct ProofVerifier {}

/// Calls `rand::random` for 32 bytes.
///
/// Trusted: nothing. Whatever bytes come back are the salt of a session.
#[verifier::external_body]
fn random_salt() -> (salt: [u8; 32]) {
    rand::random::<[u8; 32]>()
}

impl ProofGenerator {
    /// A proof generator. It holds no state: every session draws its own
    /// randomness.
    pub fn new() -> (generator: Self) {
        ProofGenerator {}
    }

    /// Assembles the input of one session from the values that identify the
    /// spend and the values drawn for the session.
    ///
    /// The nullifier and the commitment are computed here, so the assembled
    /// note passes the nullifier check and the commitment check of the
    /// engine, and its commitment encodes a group element.
    pub fn assemble_input(
        wallet_address: [u8; 20],
        amount: u64,
        merkle_proof: MerkleProof,
        merkle_root: [u8; 32],
        salt: [u8; 32],
        timestamp: u64,
        blinding_factor: [u8; 32],
    ) -> (input: SpendVerificationInput)
        ensures
            input.spend_note.wallet_address == wallet_address,
            input.spend_note.nullifier@ == nullifier_of(wallet_address@, salt@, timestamp),
            input.spend_note.nullifier_data == (NullifierData { salt, timestamp }),
            input.spend_note.amount_commitment.commitment@ == commitment_of(
                amount,
                blinding_factor@,
            ),
            ristretto_decodes(input.spend_note.amount_commitment.commitment@),
            input.spend_note.amount_commitment.amount == amount,
            input.spend_note.amount_commitment.blinding_factor == blinding_factor,
            input.merkle_proof == merkle_proof,
            input.merkle_root == merkle_root,
            input.expected_amount == amount,
    {
        let nullifier_data = NullifierData { salt, timestamp };
        let commitment = PedersenCommitment::commit(amount, &blinding_factor);
        let amount_commitment = AmountCommitment { commitment, amount, blinding_factor };
        let nullifier = derive_nullifier(&wallet_address, &nullifier_data);
        let spend_note = SpendNoteInput {
            wallet_address,
            nullifier,
            amount_commitment,
            nullifier_data,
        };
        SpendVerificationInput { spend_note, merkle_proof, merkle_root, expected_amount: amount }
    }

    /// Whether `input` is the input of a session for the given spend: it
    /// names the wallet, the proof, the root and the amount of the spend and
    /// was made at `timestamp`, its nullifier and its commitment are the
    /// ones that its own salt and blinding factor give, the commitment
    /// encodes a group element, and the blinding factor is a canonical
    /// scalar.
    pub open spec fn is_session_input(
        input: SpendVerificationInput,
        wallet_address: [u8; 20],
        amount: u64,
        merkle_proof: MerkleProof,
        merkle_root: [u8; 32],
        timestamp: u64,
    ) -> bool {
        &&& input.spend_note.wallet_address == wallet_address
        &&& input.spend_note.nullifier_data.timestamp == timestamp
        &&& nullifier_valid(input.spend_note)
        &&& amount_commitment_valid(input.spend_note.amount_commitment, amount)
        &&& ristretto_decodes(input.spend_note.amount_commitment.commitment@)
        &&& scalar_is_canonical(input.spend_note.amount_commitment.blinding_factor@)
        &&& input.merkle_proof == merkle_proof
        &&& input.merkle_root == merkle_root
        &&& input.expected_amount == amount
    }

    /// What a session ends in, given its input and what the prover handed
    /// back: the artifact with the root, the nullifier and the amount of the
    /// input beside it, or `ProvingFailure` where there is no artifact.
    pub open spec fn sealed(input: SpendVerificationInput, artifact: Option<Vec<u8>>) -> Result<
        SpendProof,
        SpendError,
    > {
        match artifact {
            None => Err(SpendError::ProvingFailure),
            Some(receipt) => Ok(
                SpendProof {
                    receipt,
                    merkle_root: input.merkle_root,
                    nullifier: input.spend_note.nullifier,
                    amount: input.expected_amount,
                },
            ),
        }
    }

    /// Wraps what the prover handed back for `input` into a proof.
    pub fn seal(input: &SpendVerificationInput, artifact: Option<Vec<u8>>) -> (outcome: Result<
        SpendProof,
        SpendError,
    >)
        ensures
            outcome == Self::sealed(*input, artifact),
    {
        match artifact {
            None => Err(SpendError::ProvingFailure),
            Some(receipt) => Ok(
                SpendProof {
                    receipt,
                    merkle_root: input.merkle_root,
                    nullifier: input.spend_note.nullifier,
                    amount: input.expected_amount,
                },
            ),
        }
    }

    /// Whether `outcome` is what a session on `input` ends in with `prover`.
    ///
    /// Where the engine refuses the input, the session ends in the failure
    /// that the engine reports, and it does not depend on the prover. Where
    /// the engine accepts it, the prover was handed the serialized input,
    /// and what it handed back was wrapped as `sealed` says.
    pub open spec fn is_session_outcome<P: FnOnce(Vec<u8>) -> Option<Vec<u8>>>(
        input: SpendVerificationInput,
        prover: P,
        outcome: Result<SpendProof, SpendError>,
    ) -> bool {
        match spend_verdict(input) {
            Err(failure) => outcome == Err::<SpendProof, SpendError>(failure),
            Ok(_) => exists|serialized: Vec<u8>, artifact: Option<Vec<u8>>|
                {
                    &&& serialized@ == input_bytes(input)
                    &&& #[trigger] prover.ensures((serialized,), artifact)
                    &&& outcome == Self::sealed(input, artifact)
                },
        }
    }

    /// Runs a session on an assembled input.
    ///
    /// The engine is run on the input first. Where it refuses the input, its
    /// failure is the outcome and the prover is not called: no artifact is
    /// made for a spend that fails a check. Otherwise `prover` is called
    /// once, on the serialized input, and what it hands back is wrapped as
    /// `seal` says.
    pub fn run_session<P: FnOnce(Vec<u8>) -> Option<Vec<u8>>>(
        input: &SpendVerificationInput,
        prover: P,
    ) -> (outcome: Result<SpendProof, SpendError>)
        requires
            forall|serialized: Vec<u8>| prover.requires((serialized,)),
        ensures
            Self::is_session_outcome(*input, prover, outcome),
    {
        match verify_spend_input(input) {
            Err(failure) => Err(failure),
            Ok(_) => {
                let serialized = input.to_bytes();
                let ghost sent = serialized;
                let artifact = prover(serialized);
                let ghost returned = artifact;
                let outcome = Self::seal(input, artifact);
                assert(prover.ensures((sent,), returned));
                outcome
            },
        }
    }

    /// Runs one proving session for a spend of `amount` by `wallet_address`.
    ///
    /// A proof whose direction bits and siblings differ in number is
    /// refused as `MalformedInput` before anything is drawn. Otherwise a
    /// salt and a blinding factor are drawn afresh, the input is assembled,
    /// and the session is run on it as `run_session` says.
    pub fn prove_spend<P: FnOnce(Vec<u8>) -> Option<Vec<u8>>>(
        &self,
        wallet_address: [u8; 20],
        amount: u64,
        merkle_proof: MerkleProof,
        merkle_root: [u8; 32],
        timestamp: u64,
        prover: P,
    ) -> (outcome: Result<SpendProof, SpendError>)
        requires
            forall|serialized: Vec<u8>| prover.requires((serialized,)),
        ensures
            !merkle_proof.well_formed() ==> outcome == Err::<SpendProof, SpendError>(
                SpendError::MalformedInput,
            ),
            merkle_proof.well_formed() ==> exists|input: SpendVerificationInput|
                {
                    &&& #[trigger] Self::is_session_input(
                        input,
                        wallet_address,
                        amount,
                        merkle_proof,
                        merkle_root,
                        timestamp,
                    )
                    &&& Self::is_session_outcome(input, prover, outcome)
                },
    {
        if merkle_proof.path.len() != merkle_proof.indices.len() {
            return Err(SpendError::MalformedInput);
        }
        let salt = random_salt();
        let blinding_factor = random_scalar();
        let input = Self::assemble_input(
            wallet_address,
            amount,
            merkle_proof,
            merkle_root,
            salt,
            timestamp,
            blinding_factor,
        );
        let outcome = Self::run_session(&input, prover);
        assert(Self::is_session_input(
            input,
            wallet_address,
            amount,
            merkle_proof,
            merkle_root,
            timestamp,
        ));
        outcome
    }
}

impl ProofVerifier {
    /// The public values that a proof claims.
    pub open spec fn claimed_outputs(proof: SpendProof) -> PublicOutputs {
        PublicOutputs {
            merkle_root: proof.merkle_root,
            nullifier: proof.nullifier,
            amount: proof.amount,
        }
    }

    /// Whether the public outputs encoded at the start of `journal` are,
    /// byte for byte, the ones that `proof` claims.
    pub open spec fn outputs_match(proof: SpendProof, journal: Seq<u8>) -> bool {
        &&& journal.len() >= JOURNAL_LEN
        &&& journal.take(JOURNAL_LEN as int) == journal_bytes(Self::claimed_outputs(proof))
    }

    /// What is owed for a proof, given what the verifier handed back for its
    /// artifact.
    pub open spec fn verdict(proof: SpendProof, attested: Option<Vec<u8>>) -> Result<
        (),
        SpendError,
    > {
        match attested {
            None => Err(SpendError::VerificationFailure),
            Some(journal) => if Self::outputs_match(proof, journal@) {
                Ok(())
            } else {
                Err(SpendError::OutputMismatch)
            },
        }
    }

    /// Holds the public outputs that the verifier decoded from the artifact
    /// against the ones that the proof claims.
    ///
    /// An artifact that the verifier rejected fails with
    /// `VerificationFailure`. An artifact that attests other outputs than the
    /// claimed ones fails with `OutputMismatch`, however sound it is by
    /// itself.
    pub fn check_outputs(proof: &SpendProof, attested: &Option<Vec<u8>>) -> (checked: Result<
        (),
        SpendError,
    >)
        ensures
            checked == Self::verdict(*proof, *attested),
    {
        match attested {
            None => Err(SpendError::VerificationFailure),
            Some(journal) => {
                match PublicOutputs::from_journal(journal.as_slice()) {
                    None => Err(SpendError::OutputMismatch),
                    Some(outputs) => {
                        let same_root = ct_eq(
                            outputs.merkle_root.as_slice(),
                            proof.merkle_root.as_slice(),
                        );
                        let same_nullifier = ct_eq(
                            outputs.nullifier.as_slice(),
                            proof.nullifier.as_slice(),
                        );
                        let same_amount = outputs.amount == proof.amount;
                        proof {
                            let claimed = Self::claimed_outputs(*proof);
                            if Self::outputs_match(*proof, journal@) {
                                lemma_journal_injective(outputs, claimed);
                            }
                            if same_root && same_nullifier && same_amount {
                                assert(outputs.merkle_root =~= proof.merkle_root);
                                assert(outputs.nullifier =~= proof.nullifier);
                                assert(outputs == claimed);
                            }
                        }
                        if same_root && same_nullifier && same_amount {
                            Ok(())
                        } else {
                            Err(SpendError::OutputMismatch)
                        }
                    },
                }
            },
        }
    }

    /// Verifies a spend proof.
    ///
    /// `verifier` is called once, on the artifact of the proof and on
    /// `program_id`; what it hands back is then held against the claims of
    /// the proof as `check_outputs` says.
    pub fn verify_spend<V: FnOnce(&Vec<u8>, &[u8; 32]) -> Option<Vec<u8>>>(
        proof: &SpendProof,
        program_id: &[u8; 32],
        verifier: V,
    ) -> (checked: Result<(), SpendError>)
        requires
            verifier.requires((&proof.receipt, program_id)),
        ensures
            exists|attested: Option<Vec<u8>>|
                verifier.ensures((&proof.receipt, program_id), attested) && checked
                    == Self::verdict(*proof, attested),
    {
        let attested = verifier(&proof.receipt, program_id);
        Self::check_outputs(proof, &attested)
    }
}

} // verus!

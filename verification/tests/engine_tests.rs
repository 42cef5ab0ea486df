use privacy_zkp::engine::{
    compute_leaf_hash, leaf_message, verify_amount_commitment, verify_spend_input,
};
use privacy_zkp::host::{ProofGenerator, ProofVerifier};
use privacy_zkp::nullifier::derive_nullifier;
use privacy_zkp::pedersen::PedersenCommitment;
use privacy_zkp::scalar::scalar_from_u64;
use privacy_zkp::types::{
    AmountCommitment, MerkleProof, NullifierData, PublicOutputs, SpendError, SpendNoteInput,
    SpendProof, SpendVerificationInput,
};
use sha2::Digest;

const EXAMPLE_NULLIFIER: &str = "b470b589d5d2fc8670014f5dcb5d5c40c592374f4cc4a06bed7bc7693bea8ebe";
const EXAMPLE_COMMITMENT: &str = "ac9e38f52ac1de6c064612158439aab13f0c3c6fa864ecf015b79671db476b21";
const EXAMPLE_LEAF: &str = "239427bc8592d502a5e8ae3538f91eff16cd2719d8bc5c9fddd4d4f233b632f8";
const EXAMPLE_ROOT: &str = "8557722516bb3934d533a6a6ad787c77be8f81fa3748b5b4e5bf76d1de8db299";
const GROUP_ORDER_BYTES: [u8; 32] = [
    0xed, 0xd3, 0xf5, 0x5c, 0x1a, 0x63, 0x12, 0x58, 0xd6, 0x9c, 0xf7, 0xa2, 0xde, 0xf9, 0xde, 0x14,
    0x00, 0x00, 0x00, 0x00, 0x00, 0x00, 0x00, 0x00, 0x00, 0x00, 0x00, 0x00, 0x00, 0x00, 0x00, 0x10,
];

fn unhex(text: &str) -> [u8; 32] {
    let mut out = [0u8; 32];
    for i in 0..32 {
        out[i] = u8::from_str_radix(&text[2 * i..2 * i + 2], 16).unwrap();
    }
    out
}

fn fold(leaf: &[u8], proof: &MerkleProof) -> [u8; 32] {
    let mut current = leaf.to_vec();
    for (sibling, left) in proof.path.iter().zip(proof.indices.iter()) {
        let mut hasher = sha2::Sha256::new();
        if *left {
            hasher.update(&current);
            hasher.update(sibling);
        } else {
            hasher.update(sibling);
            hasher.update(&current);
        }
        current = hasher.finalize().to_vec();
    }
    let mut root = [0u8; 32];
    root.copy_from_slice(&current);
    root
}

/// Wallet of 20 bytes `0x01`, amount 1,000,000, zero salt, timestamp
/// 1,700,000,000, and a depth-3 proof with its consistent root.
fn example_spend() -> SpendVerificationInput {
    let wallet_address = [1u8; 20];
    let nullifier_data = NullifierData { salt: [0u8; 32], timestamp: 1_700_000_000 };
    let blinding_factor = scalar_from_u64(7);
    let amount_commitment = AmountCommitment {
        commitment: PedersenCommitment::commit(1_000_000, &blinding_factor),
        amount: 1_000_000,
        blinding_factor,
    };
    let spend_note = SpendNoteInput {
        wallet_address,
        nullifier: derive_nullifier(&wallet_address, &nullifier_data),
        amount_commitment,
        nullifier_data,
    };
    let merkle_proof = MerkleProof {
        path: vec![[0x11u8; 32], [0x22u8; 32], [0x33u8; 32]],
        indices: vec![true, false, true],
    };
    let merkle_root = fold(&compute_leaf_hash(&spend_note), &merkle_proof);
    SpendVerificationInput { spend_note, merkle_proof, merkle_root, expected_amount: 1_000_000 }
}

#[test]
fn valid_spend_emits_root_nullifier_amount() {
    let input = example_spend();
    assert_eq!(input.spend_note.nullifier, unhex(EXAMPLE_NULLIFIER));
    assert_eq!(input.spend_note.amount_commitment.commitment, unhex(EXAMPLE_COMMITMENT));
    assert_eq!(compute_leaf_hash(&input.spend_note), unhex(EXAMPLE_LEAF).to_vec());
    assert_eq!(input.merkle_root, unhex(EXAMPLE_ROOT));
    assert_eq!(
        verify_spend_input(&input),
        Ok(PublicOutputs {
            merkle_root: unhex(EXAMPLE_ROOT),
            nullifier: unhex(EXAMPLE_NULLIFIER),
            amount: 1_000_000,
        })
    );
}

#[test]
fn flipped_index_bit_is_invalid_merkle_proof() {
    for level in 0..3 {
        let mut input = example_spend();
        input.merkle_proof.indices[level] = !input.merkle_proof.indices[level];
        assert_eq!(verify_spend_input(&input), Err(SpendError::InvalidMerkleProof));
    }
}

#[test]
fn altered_amount_is_invalid_amount_commitment() {
    let mut input = example_spend();
    input.spend_note.amount_commitment.amount = 2_000_000;
    assert_eq!(verify_spend_input(&input), Err(SpendError::InvalidAmountCommitment));

    // Claiming the altered amount as well does not help: the commitment
    // does not open to it under the unchanged blinding factor.
    let mut input = example_spend();
    input.spend_note.amount_commitment.amount = 2_000_000;
    input.expected_amount = 2_000_000;
    assert_eq!(verify_spend_input(&input), Err(SpendError::InvalidAmountCommitment));

    let mut input = example_spend();
    input.expected_amount = 999_999;
    assert_eq!(verify_spend_input(&input), Err(SpendError::InvalidAmountCommitment));
}

#[test]
fn claimed_nullifier_that_differs_is_output_mismatch() {
    let input = example_spend();
    let outputs = verify_spend_input(&input).unwrap();
    let journal = outputs.to_journal();
    let mut claimed_nullifier = outputs.nullifier;
    claimed_nullifier[0] ^= 1;
    let proof = SpendProof {
        receipt: vec![0xaa, 0xbb],
        merkle_root: outputs.merkle_root,
        nullifier: claimed_nullifier,
        amount: outputs.amount,
    };
    // The artifact alone verifies: the verifier hands back its journal.
    let attested = Some(journal.clone());
    assert_eq!(ProofVerifier::check_outputs(&proof, &attested), Err(SpendError::OutputMismatch));
    let through_verifier =
        ProofVerifier::verify_spend(&proof, &[0u8; 32], |_artifact: &Vec<u8>, _id: &[u8; 32]| {
            Some(journal.clone())
        });
    assert_eq!(through_verifier, Err(SpendError::OutputMismatch));
}

#[test]
fn engine_reports_invalid_nullifier() {
    let mut input = example_spend();
    input.spend_note.nullifier[5] ^= 1;
    assert_eq!(verify_spend_input(&input), Err(SpendError::InvalidNullifier));

    let mut input = example_spend();
    input.spend_note.nullifier_data.salt[0] = 1;
    assert_eq!(verify_spend_input(&input), Err(SpendError::InvalidNullifier));

    let mut input = example_spend();
    input.spend_note.wallet_address[19] = 2;
    assert_eq!(verify_spend_input(&input), Err(SpendError::InvalidNullifier));
}

#[test]
fn engine_reports_malformed_input() {
    let mut input = example_spend();
    input.merkle_proof.indices.pop();
    assert_eq!(verify_spend_input(&input), Err(SpendError::MalformedInput));

    let mut input = example_spend();
    input.merkle_proof.path.push([0u8; 32]);
    assert_eq!(verify_spend_input(&input), Err(SpendError::MalformedInput));

    // A blinding factor that is no canonical scalar.
    let mut input = example_spend();
    input.spend_note.amount_commitment.blinding_factor = GROUP_ORDER_BYTES;
    assert_eq!(verify_spend_input(&input), Err(SpendError::MalformedInput));

    // A commitment that encodes no group element.
    let mut input = example_spend();
    input.spend_note.amount_commitment.commitment = [0xffu8; 32];
    assert_eq!(verify_spend_input(&input), Err(SpendError::MalformedInput));
}

#[test]
fn engine_reports_the_first_failing_check() {
    // Everything is wrong at once: the shape is reported.
    let mut input = example_spend();
    input.merkle_proof.indices.pop();
    input.spend_note.nullifier[0] ^= 1;
    input.expected_amount = 5;
    input.merkle_root = [0u8; 32];
    assert_eq!(verify_spend_input(&input), Err(SpendError::MalformedInput));

    // Nullifier, commitment and membership are wrong: the nullifier is reported.
    let mut input = example_spend();
    input.spend_note.nullifier[0] ^= 1;
    input.expected_amount = 5;
    input.merkle_root = [0u8; 32];
    assert_eq!(verify_spend_input(&input), Err(SpendError::InvalidNullifier));

    // Commitment and membership are wrong: the commitment is reported.
    let mut input = example_spend();
    input.expected_amount = 5;
    input.merkle_root = [0u8; 32];
    assert_eq!(verify_spend_input(&input), Err(SpendError::InvalidAmountCommitment));

    // Only membership is wrong.
    let mut input = example_spend();
    input.merkle_root = [0u8; 32];
    assert_eq!(verify_spend_input(&input), Err(SpendError::InvalidMerkleProof));
}

#[test]
fn engine_rejects_a_commitment_swapped_for_another_valid_one() {
    let mut input = example_spend();
    input.spend_note.amount_commitment.commitment =
        PedersenCommitment::commit(1_000_000, &scalar_from_u64(8));
    assert_eq!(verify_spend_input(&input), Err(SpendError::InvalidAmountCommitment));
}

#[test]
fn engine_accepts_a_tree_of_depth_zero() {
    let mut input = example_spend();
    input.merkle_proof = MerkleProof { path: vec![], indices: vec![] };
    input.merkle_root = unhex(EXAMPLE_LEAF);
    assert_eq!(
        verify_spend_input(&input),
        Ok(PublicOutputs {
            merkle_root: unhex(EXAMPLE_LEAF),
            nullifier: unhex(EXAMPLE_NULLIFIER),
            amount: 1_000_000,
        })
    );
}

#[test]
fn leaf_message_layout() {
    let input = example_spend();
    let message = leaf_message(&input.spend_note);
    assert_eq!(message.len(), 20 + 32 + 32 + 32 + 32 + 8);
    assert_eq!(&message[0..20], &[1u8; 20]);
    assert_eq!(&message[20..52], &unhex(EXAMPLE_NULLIFIER));
    assert_eq!(&message[52..84], &unhex(EXAMPLE_COMMITMENT));
    assert_eq!(&message[84..116], &scalar_from_u64(7));
    assert_eq!(&message[116..148], &[0u8; 32]);
    assert_eq!(&message[148..156], &[0x00, 0x00, 0x00, 0x00, 0x65, 0x53, 0xf1, 0x00]);
    let digest: [u8; 32] = sha2::Sha256::digest(&message).into();
    assert_eq!(compute_leaf_hash(&input.spend_note), digest.to_vec());
}

#[test]
fn verify_amount_commitment_cases() {
    let blinding_factor = scalar_from_u64(7);
    let good = AmountCommitment {
        commitment: unhex(EXAMPLE_COMMITMENT),
        amount: 1_000_000,
        blinding_factor,
    };
    assert!(verify_amount_commitment(&good, 1_000_000));
    assert!(!verify_amount_commitment(&good, 1_000_001));
    let altered = AmountCommitment { amount: 1, ..good };
    assert!(!verify_amount_commitment(&altered, 1_000_000));
    assert!(!verify_amount_commitment(&altered, 1));
    let reblinded = AmountCommitment { blinding_factor: scalar_from_u64(8), ..good };
    assert!(!verify_amount_commitment(&reblinded, 1_000_000));
}

#[test]
fn assembled_input_passes_the_engine_with_an_authentic_root() {
    let merkle_proof = MerkleProof {
        path: vec![[0x11u8; 32], [0x22u8; 32], [0x33u8; 32]],
        indices: vec![true, false, true],
    };
    let input = ProofGenerator::assemble_input(
        [1u8; 20],
        1_000_000,
        merkle_proof,
        unhex(EXAMPLE_ROOT),
        [0u8; 32],
        1_700_000_000,
        scalar_from_u64(7),
    );
    assert_eq!(input, example_spend());
    assert!(verify_spend_input(&input).is_ok());
}

#[test]
fn every_failure_has_its_message() {
    assert_eq!(SpendError::InvalidNullifier.message(), "Invalid nullifier");
    assert_eq!(SpendError::InvalidAmountCommitment.message(), "Invalid amount commitment");
    assert_eq!(SpendError::InvalidMerkleProof.message(), "Invalid merkle proof");
    assert_eq!(SpendError::MalformedInput.message(), "Malformed input");
    assert_eq!(SpendError::ProvingFailure.message(), "Proving failed");
    assert_eq!(SpendError::VerificationFailure.message(), "Verification failed");
    assert_eq!(SpendError::OutputMismatch.message(), "Public outputs do not match the claim");
}

#[test]
fn leaf_hash_has_thirty_two_bytes() {
    assert_eq!(compute_leaf_hash(&example_spend().spend_note).len(), 32);
}

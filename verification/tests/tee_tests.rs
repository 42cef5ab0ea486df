use aes_gcm::aead::{Aead, KeyInit};
use sha2::Digest;
use privacy_zkp::tee::{
    decrypt_data, derive_address_from_private_key, generate_or_load_tee_key, parse_opened_fields,
    placeholder_spend_note, plaintext_or_dummy, process_face_verification, tee_key_from_hex,
    EncryptedData, VerifierContext, PLACEHOLDER_AMOUNT,
};
use privacy_zkp::types::{MerkleProof, SpendError};

#[test]
fn test_encrypted_data() {
    let data = EncryptedData {
        encrypted_nullifier: vec![1, 2, 3],
        encrypted_private_key: vec![4, 5, 6],
        encrypted_index: vec![7, 8, 9],
        encrypted_merkle_path: vec![10, 11, 12],
        note_hash: [0u8; 32],
    };

    assert_eq!(data.encrypted_nullifier, vec![1, 2, 3]);
    assert_eq!(data.encrypted_private_key, vec![4, 5, 6]);
    assert_eq!(data.encrypted_index, vec![7, 8, 9]);
    assert_eq!(data.encrypted_merkle_path, vec![10, 11, 12]);
}

#[test]
fn test_verifier_context() {
    let context = VerifierContext { tee_private_key: [0u8; 32] };

    assert_eq!(context.tee_private_key.len(), 32);
}

#[test]
fn test_verifier_context_creation() {
    // Create verifier context
    let context = VerifierContext { tee_private_key: [0u8; 32] };

    // Verify context properties
    assert_eq!(context.tee_private_key.len(), 32);
}

#[test]
fn test_encrypted_data_creation() {
    // Create encrypted data
    let data = EncryptedData {
        encrypted_nullifier: vec![1, 2, 3],
        encrypted_private_key: vec![4, 5, 6],
        encrypted_index: vec![],
        encrypted_merkle_path: vec![],
        note_hash: [0u8; 32],
    };

    // Verify data properties
    assert_eq!(data.encrypted_nullifier, vec![1, 2, 3]);
    assert_eq!(data.encrypted_private_key, vec![4, 5, 6]);
}

#[test]
fn test_decrypt_data() {
    let encrypted = vec![0u8; 12];
    let key = [0u8; 32];

    let decrypted = decrypt_data(&encrypted, &key);
    assert_eq!(decrypted.len(), 32);
}

#[test]
fn decrypt_data_short_input_gives_dummy() {
    let key = [9u8; 32];
    assert_eq!(decrypt_data(&[], &key), vec![0u8; 32]);
    assert_eq!(decrypt_data(&[1u8; 11], &key), vec![0u8; 32]);
}

#[test]
fn decrypt_data_opens_what_the_cipher_sealed() {
    let key = [42u8; 32];
    let nonce = [7u8; 12];
    let cipher = aes_gcm::Aes256Gcm::new(aes_gcm::Key::<aes_gcm::Aes256Gcm>::from_slice(&key));
    let sealed = cipher
        .encrypt(aes_gcm::Nonce::from_slice(&nonce), b"index-42".as_ref())
        .unwrap();
    let mut field = nonce.to_vec();
    field.extend_from_slice(&sealed);
    assert_eq!(decrypt_data(&field, &key), b"index-42".to_vec());

    // A plaintext that is itself not the dummy shows that the field was
    // really opened and not handed back.
    assert_ne!(decrypt_data(&field, &key), field);
}

#[test]
fn decrypt_data_rejects_a_tampered_field() {
    let key = [42u8; 32];
    let nonce = [7u8; 12];
    let cipher = aes_gcm::Aes256Gcm::new(aes_gcm::Key::<aes_gcm::Aes256Gcm>::from_slice(&key));
    let sealed = cipher
        .encrypt(aes_gcm::Nonce::from_slice(&nonce), b"some secret bytes".as_ref())
        .unwrap();
    let mut field = nonce.to_vec();
    field.extend_from_slice(&sealed);
    let last = field.len() - 1;
    field[last] ^= 1;
    assert_eq!(decrypt_data(&field, &key), vec![0u8; 32]);

    // The wrong key opens nothing either.
    field[last] ^= 1;
    assert_eq!(decrypt_data(&field, &[43u8; 32]), vec![0u8; 32]);
}

#[test]
fn plaintext_or_dummy_cases() {
    assert_eq!(plaintext_or_dummy(Some(vec![1, 2, 3])), vec![1, 2, 3]);
    assert_eq!(plaintext_or_dummy(Some(vec![])), Vec::<u8>::new());
    assert_eq!(plaintext_or_dummy(None), vec![0u8; 32]);
}

#[test]
fn address_is_tail_of_key_hash() {
    let key = [5u8; 32];
    let digest = sha2::Sha256::digest(key);
    let address = derive_address_from_private_key(&key);
    assert_eq!(&address[..], &digest[12..32]);
    assert_ne!(&address[..], &key[..20]);
}

fn seal_field(key: &[u8; 32], nonce_byte: u8, plaintext: &[u8]) -> Vec<u8> {
    let nonce = [nonce_byte; 12];
    let cipher = aes_gcm::Aes256Gcm::new(aes_gcm::Key::<aes_gcm::Aes256Gcm>::from_slice(key));
    let sealed = cipher.encrypt(aes_gcm::Nonce::from_slice(&nonce), plaintext).unwrap();
    let mut field = nonce.to_vec();
    field.extend_from_slice(&sealed);
    field
}

fn example_merkle_proof() -> MerkleProof {
    MerkleProof { path: vec![[0x11u8; 32], [0x22u8; 32]], indices: vec![true, false] }
}

#[test]
fn address_known_answer() {
    let address = derive_address_from_private_key(&[5u8; 32]);
    // Last 20 bytes of f849d67325facf04177bc663b2dc544051831c589ef581d412f2eba44834e77c.
    assert_eq!(
        address,
        [
            0xb2, 0xdc, 0x54, 0x40, 0x51, 0x83, 0x1c, 0x58, 0x9e, 0xf5, 0x81, 0xd4, 0x12, 0xf2,
            0xeb, 0xa4, 0x48, 0x34, 0xe7, 0x7c
        ]
    );
}

#[test]
fn placeholder_note_values() {
    let note = placeholder_spend_note(&[5u8; 32], &[6u8; 32], 1_700_000_000);
    assert_eq!(note.wallet_address, derive_address_from_private_key(&[5u8; 32]));
    assert_eq!(note.nullifier, [6u8; 32]);
    assert_eq!(note.amount_commitment.commitment, [0u8; 32]);
    assert_eq!(note.amount_commitment.amount, 100_000_000);
    assert_eq!(note.amount_commitment.blinding_factor, [0u8; 32]);
    assert_eq!(note.nullifier_data.salt, [0u8; 32]);
    assert_eq!(note.nullifier_data.timestamp, 1_700_000_000);
}

#[test]
fn parse_opened_fields_builds_the_input() {
    let proof = example_merkle_proof();
    let mut path_field = proof.to_bytes();
    path_field.extend_from_slice(&[0xee; 4]);
    let input =
        parse_opened_fields(&[6u8; 32], &[5u8; 32], &7u64.to_be_bytes(), &path_field, 99).unwrap();
    assert_eq!(input.spend_note, placeholder_spend_note(&[5u8; 32], &[6u8; 32], 99));
    assert_eq!(input.merkle_proof, proof);
    assert_eq!(input.merkle_root, [0u8; 32]);
    assert_eq!(input.expected_amount, PLACEHOLDER_AMOUNT);
    assert_eq!(PLACEHOLDER_AMOUNT, 100_000_000);
}

#[test]
fn parse_opened_fields_rejects_bad_shapes() {
    let path_field = example_merkle_proof().to_bytes();
    let index = 7u64.to_be_bytes();
    assert!(parse_opened_fields(&[6u8; 32], &[5u8; 32], &index, &path_field, 1).is_ok());
    assert_eq!(
        parse_opened_fields(&[6u8; 31], &[5u8; 32], &index, &path_field, 1),
        Err(SpendError::MalformedInput)
    );
    assert_eq!(
        parse_opened_fields(&[6u8; 32], &[5u8; 33], &index, &path_field, 1),
        Err(SpendError::MalformedInput)
    );
    assert_eq!(
        parse_opened_fields(&[6u8; 32], &[5u8; 32], &[0u8; 32], &path_field, 1),
        Err(SpendError::MalformedInput)
    );
    assert_eq!(
        parse_opened_fields(&[6u8; 32], &[5u8; 32], &index, &path_field[..path_field.len() - 1], 1),
        Err(SpendError::MalformedInput)
    );
    let mut bad_bit = path_field.clone();
    let last = bad_bit.len() - 1;
    bad_bit[last] = 7;
    assert_eq!(
        parse_opened_fields(&[6u8; 32], &[5u8; 32], &index, &bad_bit, 1),
        Err(SpendError::MalformedInput)
    );
}

#[test]
fn process_face_verification_opens_and_parses() {
    let key = [0x42u8; 32];
    let proof = example_merkle_proof();
    let data = EncryptedData {
        encrypted_nullifier: seal_field(&key, 1, &[6u8; 32]),
        encrypted_private_key: seal_field(&key, 2, &[5u8; 32]),
        encrypted_index: seal_field(&key, 3, &7u64.to_be_bytes()),
        encrypted_merkle_path: seal_field(&key, 4, &proof.to_bytes()),
        note_hash: [0u8; 32],
    };
    let input = process_face_verification(&VerifierContext { tee_private_key: key }, &data, 1_700_000_000).unwrap();
    assert_eq!(input.spend_note, placeholder_spend_note(&[5u8; 32], &[6u8; 32], 1_700_000_000));
    assert_eq!(input.merkle_proof, proof);
    assert_eq!(input.merkle_root, [0u8; 32]);
    assert_eq!(input.expected_amount, 100_000_000);
}

#[test]
fn process_face_verification_fails_on_fields_that_do_not_open() {
    let key = [0x42u8; 32];
    let proof = example_merkle_proof();
    let good = EncryptedData {
        encrypted_nullifier: seal_field(&key, 1, &[6u8; 32]),
        encrypted_private_key: seal_field(&key, 2, &[5u8; 32]),
        encrypted_index: seal_field(&key, 3, &7u64.to_be_bytes()),
        encrypted_merkle_path: seal_field(&key, 4, &proof.to_bytes()),
        note_hash: [0u8; 32],
    };
    let context = VerifierContext { tee_private_key: key };
    // Under another key every field opens to 32 zero bytes, which is no index.
    assert_eq!(
        process_face_verification(&VerifierContext { tee_private_key: [0x43u8; 32] }, &good, 5),
        Err(SpendError::MalformedInput)
    );
    // A nullifier and a key that do not open stand as zero bytes.
    let unopened = EncryptedData {
        encrypted_nullifier: vec![1, 2, 3],
        encrypted_private_key: vec![],
        ..good.clone()
    };
    let input = process_face_verification(&context, &unopened, 5).unwrap();
    assert_eq!(input.spend_note.nullifier, [0u8; 32]);
    assert_eq!(
        input.spend_note.wallet_address,
        derive_address_from_private_key(&[0u8; 32])
    );
    // A membership proof that does not open stands as the empty proof.
    let no_path = EncryptedData { encrypted_merkle_path: vec![9u8; 40], ..good.clone() };
    let input = process_face_verification(&context, &no_path, 5).unwrap();
    assert_eq!(input.merkle_proof, MerkleProof { path: vec![], indices: vec![] });
    // A nullifier of the wrong length.
    let short = EncryptedData { encrypted_nullifier: seal_field(&key, 1, &[6u8; 31]), ..good };
    assert_eq!(process_face_verification(&context, &short, 5), Err(SpendError::MalformedInput));
}

#[test]
fn tee_key_from_hex_exact() {
    let text = b"000102030405060708090a0b0c0d0e0f101112131415161718191A1B1C1D1E1Fff";
    assert_eq!(tee_key_from_hex(text), None);
    let key = tee_key_from_hex(&text[..64]).unwrap();
    let expected: Vec<u8> = (0u8..32).collect();
    assert_eq!(key.to_vec(), expected);
    assert_eq!(tee_key_from_hex(&[b'f'; 64]), Some([0xffu8; 32]));
    assert_eq!(tee_key_from_hex(b""), None);
    assert_eq!(tee_key_from_hex(&[b'0'; 63]), None);
}

#[test]
fn tee_key_from_hex_agrees_with_std_on_every_pair() {
    let candidates: Vec<u8> = (0u8..128).collect();
    for &first in &candidates {
        for &second in &candidates {
            let mut text = [b'0'; 64];
            text[10] = first;
            text[11] = second;
            let pair = [first, second];
            let expected =
                u8::from_str_radix(std::str::from_utf8(&pair).unwrap(), 16).unwrap_or(0);
            let key = tee_key_from_hex(&text).unwrap();
            assert_eq!(key[5], expected);
            assert_eq!(key[4], 0);
            assert_eq!(key[6], 0);
        }
    }
}

#[test]
fn tee_key_pairs_that_are_no_digits_count_as_zero() {
    let mut text = [b'1'; 64];
    text[0] = b'g';
    text[2] = b'+';
    text[3] = b'a';
    text[4] = b'-';
    text[5] = b'1';
    text[6] = 0xc3;
    text[7] = 0xa9;
    text[9] = b' ';
    let key = tee_key_from_hex(&text).unwrap();
    assert_eq!(&key[..6], &[0, 0x0a, 0, 0, 0, 0x11]);
}

#[test]
fn generate_or_load_uses_the_configured_key() {
    assert_eq!(generate_or_load_tee_key(Some(&[b'a'; 64])), [0xaau8; 32]);
    // Without a usable text a key is drawn, and not the same one twice.
    let first = generate_or_load_tee_key(None);
    let second = generate_or_load_tee_key(None);
    assert_ne!(first, second);
    let third = generate_or_load_tee_key(Some(b"abcd"));
    assert_ne!(third, first);
}

#[test]
fn decrypt_data_field_too_short_for_a_tag_gives_zero_bytes() {
    let key = [9u8; 32];
    for len in 0..28 {
        assert_eq!(decrypt_data(&vec![0x5au8; len], &key), vec![0u8; 32]);
    }
}

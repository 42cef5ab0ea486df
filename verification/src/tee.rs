//! What runs inside the trusted execution environment around a spend: the
//! sealed fields of a commitment event are opened with the environment's key
//! and turned into the values that the verification engine works on.

use vstd::prelude::*;
use crate::bytes::{read_array_20, read_array_32};
use crate::hash::{sha256, sha256_digest};
use crate::types::{
    AmountCommitment, MerkleProof, NullifierData, SpendError, SpendNoteInput,
    SpendVerificationInput,
};
use crate::wire::proof_starts_at;

verus! {

/// The number of bytes of the nonce that precedes every sealed field.
pub const NONCE_LEN: usize = 12;

/// The number of bytes of the authentication tag that ends every sealed
/// field.
pub const TAG_LEN: usize = 16;

/// What a job carries besides its event: the key of the environment, with
/// which the sealed fields of events are opened.
#[derive(Debug, Clone, Copy, PartialEq, Eq)]
pub struct VerifierContext {
    /// The private key of the environment.
    pub tee_private_key: [u8; 32],
}

/// The sealed fields of one commitment event.
#[derive(Debug, Clone, PartialEq, Eq)]
pub struct EncryptedData {
    /// The sealed nullifier.
    pub encrypted_nullifier: Vec<u8>,
    /// The sealed private key of the spender.
    pub encrypted_private_key: Vec<u8>,
    /// The sealed index of the note.
    pub encrypted_index: Vec<u8>,
    /// The sealed membership proof.
    pub encrypted_merkle_path: Vec<u8>,
    /// The hash of the note, in the clear.
    pub note_hash: [u8; 32],
}

/// What AES-256-GCM, without associated data, opens `sealed` to under `key`
/// and `nonce`: the plaintext, or nothing where the tag at the end of
/// `sealed` does not authenticate the rest.
pub uninterp spec fn aes256_gcm_open(key: Seq<u8>, nonce: Seq<u8>, sealed: Seq<u8>) -> Option<
    Seq<u8>,
>;

/// Thirty-two zero bytes: what stands in for a field that could not be
/// opened, and for every value of a note that the event does not carry yet.
pub open spec fn zero_bytes() -> Seq<u8> {
    Seq::new(32, |i: int| 0u8)
}

/// What a sealed field opens to under `private_key`: its first twelve bytes
/// are the nonce and the rest is ciphertext and tag. A field that is shorter
/// than a nonce, or that does not authenticate, opens to zero bytes.
pub open spec fn opened_field(encrypted: Seq<u8>, private_key: Seq<u8>) -> Seq<u8> {
    if encrypted.len() < NONCE_LEN {
        zero_bytes()
    } else {
        match aes256_gcm_open(
            private_key,
            encrypted.take(NONCE_LEN as int),
            encrypted.skip(NONCE_LEN as int),
        ) {
            Some(plaintext) => plaintext,
            None => zero_bytes(),
        }
    }
}

/// Calls `decrypt` of `aes_gcm::Aes256Gcm` (trait `aead::Aead`) on a cipher
/// made of `key`, with `nonce` and `sealed`.
///
/// Trusted: whether the call succeeds, and the plaintext it yields, depend on
/// the three byte strings alone; and the call fails on a sealed text that is
/// too short to end in a tag.
#[verifier::external_body]
pub(crate) fn aes256_gcm_decrypt(key: &[u8; 32], nonce: &[u8], sealed: &[u8]) -> (opened: Option<
    Vec<u8>,
>)
    requires
        nonce@.len() == NONCE_LEN,
    ensures
        opened matches Some(plaintext) ==> aes256_gcm_open(key@, nonce@, sealed@) == Some(
            plaintext@,
        ),
        opened is None ==> aes256_gcm_open(key@, nonce@, sealed@) is None,
        sealed@.len() < TAG_LEN ==> opened is None,
{
    let cipher = <aes_gcm::Aes256Gcm as aes_gcm::KeyInit>::new(
        aes_gcm::Key::<aes_gcm::Aes256Gcm>::from_slice(key),
    );
    aes_gcm::aead::Aead::decrypt(&cipher, aes_gcm::Nonce::from_slice(nonce), sealed).ok()
}

/// The plaintext of a field, or zero bytes where there is none.
pub fn plaintext_or_dummy(opened: Option<Vec<u8>>) -> (plaintext: Vec<u8>)
    ensures
        opened matches Some(p) ==> plaintext@ == p@,
        opened is None ==> plaintext@ == zero_bytes(),
{
    match opened {
        Some(plaintext) => plaintext,
        None => {
            let mut dummy: Vec<u8> = Vec::new();
            let mut i: usize = 0;
            while i < 32
                invariant
                    i <= 32,
                    dummy@.len() == i,
                    forall|j: int| 0 <= j < i ==> dummy@[j] == 0,
                decreases 32 - i,
            {
                dummy.push(0);
                i += 1;
            }
            assert(dummy@ =~= zero_bytes());
            dummy
        },
    }
}

/// Opens one sealed field with the environment's key. A field that is too
/// short to hold a nonce and a tag opens to zero bytes.
pub fn decrypt_data(encrypted: &[u8], private_key: &[u8; 32]) -> (plaintext: Vec<u8>)
    ensures
        plaintext@ == opened_field(encrypted@, private_key@),
        encrypted@.len() < NONCE_LEN + TAG_LEN ==> plaintext@ == zero_bytes(),
{
    if encrypted.len() < NONCE_LEN {
        return plaintext_or_dummy(None);
    }
    let nonce = vstd::slice::slice_subrange(encrypted, 0, NONCE_LEN);
    let sealed = vstd::slice::slice_subrange(encrypted, NONCE_LEN, encrypted.len());
    let opened = aes256_gcm_decrypt(private_key, nonce, sealed);
    plaintext_or_dummy(opened)
}

/// The wallet identity that belongs to a private key: the last 20 bytes of
/// the hash of the key.
pub open spec fn address_of_private_key(private_key: Seq<u8>) -> Seq<u8> {
    sha256_digest(private_key).subrange(12, 32)
}

/// Derives the wallet identity that belongs to `private_key`.
pub fn derive_address_from_private_key(private_key: &[u8; 32]) -> (address: [u8; 20])
    ensures
        address@ == address_of_private_key(private_key@),
{
    let digest = sha256(private_key.as_slice());
    read_array_20(digest.as_slice(), 12)
}

/// The amount that stands in every note prepared here until amounts are
/// carried by the event itself.
pub const PLACEHOLDER_AMOUNT: u64 = 100_000_000;

/// Whether `note` is the note prepared for a private key and a nullifier at
/// `timestamp`: the wallet identity belongs to the key, the nullifier is the
/// given one, and commitment, blinding factor and salt are zero bytes beside
/// the placeholder amount.
pub open spec fn is_placeholder_note(
    note: SpendNoteInput,
    private_key: Seq<u8>,
    nullifier: Seq<u8>,
    timestamp: u64,
) -> bool {
    &&& note.wallet_address@ == address_of_private_key(private_key)
    &&& note.nullifier@ == nullifier
    &&& note.amount_commitment.commitment@ == zero_bytes()
    &&& note.amount_commitment.amount == PLACEHOLDER_AMOUNT
    &&& note.amount_commitment.blinding_factor@ == zero_bytes()
    &&& note.nullifier_data.salt@ == zero_bytes()
    &&& note.nullifier_data.timestamp == timestamp
}

/// Prepares the note of a spend from the opened private key and nullifier.
pub fn placeholder_spend_note(private_key: &[u8; 32], nullifier: &[u8; 32], timestamp: u64) -> (note:
    SpendNoteInput)
    ensures
        is_placeholder_note(note, private_key@, nullifier@, timestamp),
{
    let wallet_address = derive_address_from_private_key(private_key);
    let zeros = [0u8; 32];
    assert(zeros@ =~= zero_bytes());
    SpendNoteInput {
        wallet_address,
        nullifier: *nullifier,
        amount_commitment: AmountCommitment {
            commitment: zeros,
            amount: PLACEHOLDER_AMOUNT,
            blinding_factor: zeros,
        },
        nullifier_data: NullifierData { salt: zeros, timestamp },
    }
}

/// Whether the four opened fields of an event have the shape of a spend: a
/// nullifier of 32 bytes, a private key of 32 bytes, an index of 8 bytes,
/// and a serialized membership proof at the start of the last field.
pub open spec fn fields_well_formed(
    nullifier: Seq<u8>,
    private_key: Seq<u8>,
    index: Seq<u8>,
    merkle_path: Seq<u8>,
) -> bool {
    &&& nullifier.len() == 32
    &&& private_key.len() == 32
    &&& index.len() == 8
    &&& exists|proof: MerkleProof| proof_starts_at(merkle_path, 0, proof)
}

/// Whether `outcome` is what the four opened fields of an event give at
/// `timestamp`: `MalformedInput` where they do not have the shape of a
/// spend; otherwise the input made of the placeholder note, the membership
/// proof read from the last field, a root of zero bytes and the placeholder
/// amount.
pub open spec fn is_fields_outcome(
    nullifier: Seq<u8>,
    private_key: Seq<u8>,
    index: Seq<u8>,
    merkle_path: Seq<u8>,
    timestamp: u64,
    outcome: Result<SpendVerificationInput, SpendError>,
) -> bool {
    match outcome {
        Err(e) => e == SpendError::MalformedInput && !fields_well_formed(
            nullifier,
            private_key,
            index,
            merkle_path,
        ),
        Ok(input) => {
            &&& fields_well_formed(nullifier, private_key, index, merkle_path)
            &&& is_placeholder_note(input.spend_note, private_key, nullifier, timestamp)
            &&& proof_starts_at(merkle_path, 0, input.merkle_proof)
            &&& input.merkle_root@ == zero_bytes()
            &&& input.expected_amount == PLACEHOLDER_AMOUNT
        },
    }
}

/// Turns the four opened fields of an event into a verification input.
pub fn parse_opened_fields(
    nullifier: &[u8],
    private_key: &[u8],
    index: &[u8],
    merkle_path: &[u8],
    timestamp: u64,
) -> (outcome: Result<SpendVerificationInput, SpendError>)
    ensures
        is_fields_outcome(nullifier@, private_key@, index@, merkle_path@, timestamp, outcome),
{
    if nullifier.len() != 32 || private_key.len() != 32 || index.len() != 8 {
        return Err(SpendError::MalformedInput);
    }
    let merkle_proof = match MerkleProof::read_from(merkle_path, 0) {
        Some((merkle_proof, _)) => merkle_proof,
        None => {
            return Err(SpendError::MalformedInput);
        },
    };
    let nullifier_bytes = read_array_32(nullifier, 0);
    let private_key_bytes = read_array_32(private_key, 0);
    assert(nullifier_bytes@ =~= nullifier@);
    assert(private_key_bytes@ =~= private_key@);
    let spend_note = placeholder_spend_note(&private_key_bytes, &nullifier_bytes, timestamp);
    let merkle_root = [0u8; 32];
    assert(merkle_root@ =~= zero_bytes());
    Ok(
        SpendVerificationInput {
            spend_note,
            merkle_proof,
            merkle_root,
            expected_amount: PLACEHOLDER_AMOUNT,
        },
    )
}

/// Opens the sealed fields of a commitment event with the environment's key
/// and turns them into a verification input.
pub fn process_face_verification(
    context: &VerifierContext,
    encrypted_data: &EncryptedData,
    timestamp: u64,
) -> (outcome: Result<SpendVerificationInput, SpendError>)
    ensures
        is_fields_outcome(
            opened_field(encrypted_data.encrypted_nullifier@, context.tee_private_key@),
            opened_field(encrypted_data.encrypted_private_key@, context.tee_private_key@),
            opened_field(encrypted_data.encrypted_index@, context.tee_private_key@),
            opened_field(encrypted_data.encrypted_merkle_path@, context.tee_private_key@),
            timestamp,
            outcome,
        ),
{
    let key = &context.tee_private_key;
    let nullifier = decrypt_data(encrypted_data.encrypted_nullifier.as_slice(), key);
    let private_key = decrypt_data(encrypted_data.encrypted_private_key.as_slice(), key);
    let index = decrypt_data(encrypted_data.encrypted_index.as_slice(), key);
    let merkle_path = decrypt_data(encrypted_data.encrypted_merkle_path.as_slice(), key);
    parse_opened_fields(
        nullifier.as_slice(),
        private_key.as_slice(),
        index.as_slice(),
        merkle_path.as_slice(),
        timestamp,
    )
}

/// The value of a hexadecimal digit, or nothing for any other byte.
pub open spec fn hex_digit_value(digit: u8) -> Option<u8> {
    if 0x30 <= digit <= 0x39 {
        Some((digit - 0x30) as u8)
    } else if 0x61 <= digit <= 0x66 {
        Some((digit - 0x61 + 10) as u8)
    } else if 0x41 <= digit <= 0x46 {
        Some((digit - 0x41 + 10) as u8)
    } else {
        None
    }
}

/// The byte that two characters spell in base 16: two digits, or a plus
/// sign and one digit. Any other pair counts as zero.
pub open spec fn hex_pair_value(first: u8, second: u8) -> u8 {
    match (hex_digit_value(first), hex_digit_value(second)) {
        (Some(high), Some(low)) => (16 * high + low) as u8,
        (None, Some(low)) => if first == 0x2b {
            low
        } else {
            0
        },
        _ => 0,
    }
}

/// The key that a text of 64 characters spells, two characters per byte.
pub open spec fn key_of_hex(text: Seq<u8>) -> Seq<u8> {
    Seq::new(32, |i: int| hex_pair_value(text[2 * i], text[2 * i + 1]))
}

fn hex_digit(digit: u8) -> (value: Option<u8>)
    ensures
        value == hex_digit_value(digit),
{
    if 0x30 <= digit && digit <= 0x39 {
        Some(digit - 0x30)
    } else if 0x61 <= digit && digit <= 0x66 {
        Some(digit - 0x61 + 10)
    } else if 0x41 <= digit && digit <= 0x46 {
        Some(digit - 0x41 + 10)
    } else {
        None
    }
}

/// Reads a key from its hexadecimal text. There is a key exactly where the
/// text has 64 bytes.
pub fn tee_key_from_hex(text: &[u8]) -> (key: Option<[u8; 32]>)
    ensures
        key.is_some() <==> text@.len() == 64,
        key matches Some(k) ==> k@ == key_of_hex(text@),
{
    if text.len() != 64 {
        return None;
    }
    let mut key = [0u8; 32];
    let mut i: usize = 0;
    while i < 32
        invariant
            i <= 32,
            text@.len() == 64,
            forall|j: int| 0 <= j < i ==> key@[j] == hex_pair_value(text@[2 * j], text@[2 * j + 1]),
        decreases 32 - i,
    {
        let first = text[2 * i];
        let second = text[2 * i + 1];
        let byte: u8 = match (hex_digit(first), hex_digit(second)) {
            (Some(high), Some(low)) => 16 * high + low,
            (None, Some(low)) => if first == 0x2b {
                low
            } else {
                0
            },
            _ => 0,
        };
        key[i] = byte;
        i += 1;
    }
    assert(key@ =~= key_of_hex(text@));
    Some(key)
}

/// Calls `fill` of `rand::Rng` on the thread's generator, for 32 bytes.
///
/// Trusted: nothing. Whatever bytes come back are a key.
#[verifier::external_body]
fn random_key() -> (key: [u8; 32]) {
    let mut key = [0u8; 32];
    rand::Rng::fill(&mut rand::thread_rng(), &mut key);
    key
}

/// The key of the environment: the one that the configured text spells
/// where there is such a text and it has 64 bytes, a freshly drawn one
/// otherwise.
pub fn generate_or_load_tee_key(configured: Option<&[u8]>) -> (key: [u8; 32])
    ensures
        configured matches Some(text) ==> (text@.len() == 64 ==> key@ == key_of_hex(text@)),
{
    match configured {
        Some(text) => match tee_key_from_hex(text) {
            Some(key) => key,
            None => random_key(),
        },
        None => random_key(),
    }
}

} // verus!

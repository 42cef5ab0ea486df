//! The serialized form of a verification input, as it is handed to the
//! proving backend.
//!
//! Fields follow one another in a fixed order, without padding: wallet
//! identity (20 bytes), nullifier (32), commitment (32), amount (8), blinding
//! factor (32), salt (32), timestamp (8); then the number of siblings (8) and
//! the siblings (32 each); the number of direction bits (8) and the bits (one
//! byte each, `1` for `true` and `0` for `false`); the Merkle root (32); the
//! expected amount (8). Every integer is written least significant byte
//! first.

use vstd::prelude::*;
use crate::bytes::{
    append_bytes, lemma_le_digits_len, lemma_u64_bytes_injective, read_array_20, read_array_32,
    u64_le_bytes, u64_read_le, u64_to_le,
};
use crate::types::{
    AmountCommitment, MerkleProof, NullifierData, SpendNoteInput, SpendVerificationInput,
};

verus! {

/// The byte that stands for a direction bit.
pub open spec fn bool_byte(bit: bool) -> u8 {
    if bit {
        1
    } else {
        0
    }
}

/// The bytes that stand for a sequence of direction bits.
pub open spec fn bools_bytes(bits: Seq<bool>) -> Seq<u8> {
    Seq::new(bits.len(), |i: int| bool_byte(bits[i]))
}

/// The siblings of a path, one after the other.
pub open spec fn path_bytes(path: Seq<[u8; 32]>) -> Seq<u8> {
    Seq::new(32 * path.len(), |i: int| path[i / 32]@[i % 32])
}

/// The serialized form of a note.
pub open spec fn note_bytes(note: SpendNoteInput) -> Seq<u8> {
    note.wallet_address@ + note.nullifier@ + note.amount_commitment.commitment@ + u64_le_bytes(
        note.amount_commitment.amount,
    ) + note.amount_commitment.blinding_factor@ + note.nullifier_data.salt@ + u64_le_bytes(
        note.nullifier_data.timestamp,
    )
}

/// The serialized form of a membership proof.
pub open spec fn proof_bytes(proof: MerkleProof) -> Seq<u8> {
    u64_le_bytes(proof.path.len() as u64) + path_bytes(proof.path@) + u64_le_bytes(
        proof.indices.len() as u64,
    ) + bools_bytes(proof.indices@)
}

/// The serialized form of a verification input.
pub open spec fn input_bytes(input: SpendVerificationInput) -> Seq<u8> {
    note_bytes(input.spend_note) + proof_bytes(input.merkle_proof) + input.merkle_root@
        + u64_le_bytes(input.expected_amount)
}

/// Where each part of a serialized input lies.
pub proof fn lemma_input_bytes_layout(input: SpendVerificationInput)
    ensures
        ({
            let b = input_bytes(input);
            let n = input.merkle_proof.path.len() as int;
            let m = input.merkle_proof.indices.len() as int;
            &&& n == input.merkle_proof.path@.len()
            &&& m == input.merkle_proof.indices@.len()
            &&& b.len() == 220 + 32 * n + m
            &&& b.subrange(0, 164) == note_bytes(input.spend_note)
            &&& b.subrange(164, 172) == u64_le_bytes(n as u64)
            &&& b.subrange(172, 172 + 32 * n) == path_bytes(input.merkle_proof.path@)
            &&& b.subrange(172 + 32 * n, 180 + 32 * n) == u64_le_bytes(m as u64)
            &&& b.subrange(180 + 32 * n, 180 + 32 * n + m) == bools_bytes(
                input.merkle_proof.indices@,
            )
            &&& b.subrange(180 + 32 * n + m, 212 + 32 * n + m) == input.merkle_root@
            &&& b.subrange(212 + 32 * n + m, 220 + 32 * n + m) == u64_le_bytes(
                input.expected_amount,
            )
        }),
{
    let b = input_bytes(input);
    let note = input.spend_note;
    let n = input.merkle_proof.path.len() as int;
    let m = input.merkle_proof.indices.len() as int;
    lemma_le_digits_len(note.amount_commitment.amount as nat, 8);
    lemma_le_digits_len(note.nullifier_data.timestamp as nat, 8);
    lemma_le_digits_len(n as u64 as nat, 8);
    lemma_le_digits_len(m as u64 as nat, 8);
    lemma_le_digits_len(input.expected_amount as nat, 8);
    assert(note_bytes(note).len() == 164);
    assert(proof_bytes(input.merkle_proof).len() == 16 + 32 * n + m);
    assert(b.subrange(0, 164) =~= note_bytes(input.spend_note));
    assert(b.subrange(164, 172) =~= u64_le_bytes(n as u64));
    assert(b.subrange(172, 172 + 32 * n) =~= path_bytes(input.merkle_proof.path@));
    assert(b.subrange(172 + 32 * n, 180 + 32 * n) =~= u64_le_bytes(m as u64));
    assert(b.subrange(180 + 32 * n, 180 + 32 * n + m) =~= bools_bytes(
        input.merkle_proof.indices@,
    ));
    assert(b.subrange(180 + 32 * n + m, 212 + 32 * n + m) =~= input.merkle_root@);
    assert(b.subrange(212 + 32 * n + m, 220 + 32 * n + m) =~= u64_le_bytes(
        input.expected_amount,
    ));
}

/// Where each field of a serialized note lies.
pub proof fn lemma_note_bytes_layout(note: SpendNoteInput)
    ensures
        ({
            let b = note_bytes(note);
            &&& b.len() == 164
            &&& b.subrange(0, 20) == note.wallet_address@
            &&& b.subrange(20, 52) == note.nullifier@
            &&& b.subrange(52, 84) == note.amount_commitment.commitment@
            &&& b.subrange(84, 92) == u64_le_bytes(note.amount_commitment.amount)
            &&& b.subrange(92, 124) == note.amount_commitment.blinding_factor@
            &&& b.subrange(124, 156) == note.nullifier_data.salt@
            &&& b.subrange(156, 164) == u64_le_bytes(note.nullifier_data.timestamp)
        }),
{
    let b = note_bytes(note);
    lemma_le_digits_len(note.amount_commitment.amount as nat, 8);
    lemma_le_digits_len(note.nullifier_data.timestamp as nat, 8);
    assert(b.subrange(0, 20) =~= note.wallet_address@);
    assert(b.subrange(20, 52) =~= note.nullifier@);
    assert(b.subrange(52, 84) =~= note.amount_commitment.commitment@);
    assert(b.subrange(84, 92) =~= u64_le_bytes(note.amount_commitment.amount));
    assert(b.subrange(92, 124) =~= note.amount_commitment.blinding_factor@);
    assert(b.subrange(124, 156) =~= note.nullifier_data.salt@);
    assert(b.subrange(156, 164) =~= u64_le_bytes(note.nullifier_data.timestamp));
}

/// Where each part of a serialized membership proof lies.
pub proof fn lemma_proof_bytes_layout(proof: MerkleProof)
    ensures
        ({
            let b = proof_bytes(proof);
            let n = proof.path.len() as int;
            let m = proof.indices.len() as int;
            &&& n == proof.path@.len()
            &&& m == proof.indices@.len()
            &&& b.len() == 16 + 32 * n + m
            &&& b.subrange(0, 8) == u64_le_bytes(n as u64)
            &&& b.subrange(8, 8 + 32 * n) == path_bytes(proof.path@)
            &&& b.subrange(8 + 32 * n, 16 + 32 * n) == u64_le_bytes(m as u64)
            &&& b.subrange(16 + 32 * n, 16 + 32 * n + m) == bools_bytes(proof.indices@)
        }),
{
    let b = proof_bytes(proof);
    let n = proof.path.len() as int;
    let m = proof.indices.len() as int;
    lemma_le_digits_len(n as u64 as nat, 8);
    lemma_le_digits_len(m as u64 as nat, 8);
    assert(b.subrange(0, 8) =~= u64_le_bytes(n as u64));
    assert(b.subrange(8, 8 + 32 * n) =~= path_bytes(proof.path@));
    assert(b.subrange(8 + 32 * n, 16 + 32 * n) =~= u64_le_bytes(m as u64));
    assert(b.subrange(16 + 32 * n, 16 + 32 * n + m) =~= bools_bytes(proof.indices@));
}

/// Whether the serialized form of `proof` stands in `bytes` from position
/// `at` on.
pub open spec fn proof_starts_at(bytes: Seq<u8>, at: int, proof: MerkleProof) -> bool {
    &&& 0 <= at
    &&& at + proof_bytes(proof).len() <= bytes.len()
    &&& bytes.subrange(at, at + proof_bytes(proof).len()) == proof_bytes(proof)
}

/// At one position of a byte string at most one membership proof starts:
/// two proofs that both start there hold the same siblings and bits.
pub proof fn lemma_proof_start_unique(bytes: Seq<u8>, at: int, p: MerkleProof, q: MerkleProof)
    requires
        proof_starts_at(bytes, at, p),
        proof_starts_at(bytes, at, q),
    ensures
        p.path@ == q.path@,
        p.indices@ == q.indices@,
{
    lemma_proof_bytes_layout(p);
    lemma_proof_bytes_layout(q);
    let bp = proof_bytes(p);
    let bq = proof_bytes(q);
    let n = p.path.len() as int;
    let m = p.indices.len() as int;
    assert(bytes.subrange(at, at + 8) =~= bp.subrange(0, 8));
    assert(bytes.subrange(at, at + 8) =~= bq.subrange(0, 8));
    lemma_u64_bytes_injective(p.path.len() as u64, q.path.len() as u64);
    assert(bytes.subrange(at + 8 + 32 * n, at + 16 + 32 * n) =~= bp.subrange(
        8 + 32 * n,
        16 + 32 * n,
    ));
    assert(bytes.subrange(at + 8 + 32 * n, at + 16 + 32 * n) =~= bq.subrange(
        8 + 32 * n,
        16 + 32 * n,
    ));
    lemma_u64_bytes_injective(p.indices.len() as u64, q.indices.len() as u64);
    assert(bp =~= bq);
    lemma_proof_bytes_injective(p, q);
}

/// Membership proofs with the same serialized form hold the same siblings
/// and bits.
pub proof fn lemma_proof_bytes_injective(p: MerkleProof, q: MerkleProof)
    requires
        proof_bytes(p) == proof_bytes(q),
    ensures
        p.path@ == q.path@,
        p.indices@ == q.indices@,
{
    lemma_proof_bytes_layout(p);
    lemma_proof_bytes_layout(q);
    lemma_u64_bytes_injective(p.path.len() as u64, q.path.len() as u64);
    lemma_u64_bytes_injective(p.indices.len() as u64, q.indices.len() as u64);
    let pa = p.path@;
    let pb = q.path@;
    assert(path_bytes(pa) == path_bytes(pb));
    assert forall|i: int| 0 <= i < pa.len() implies pa[i] == pb[i] by {
        assert forall|j: int| 0 <= j < 32 implies pa[i]@[j] == pb[i]@[j] by {
            let at = 32 * i + j;
            assert(at / 32 == i && at % 32 == j);
            assert(0 <= at < 32 * pa.len());
            assert(path_bytes(pa)[at] == pa[i]@[j]);
            assert(path_bytes(pb)[at] == pb[i]@[j]);
        }
        assert(pa[i] =~= pb[i]);
    }
    assert(pa =~= pb);
    let ia = p.indices@;
    let ib = q.indices@;
    assert(bools_bytes(ia) == bools_bytes(ib));
    assert forall|i: int| 0 <= i < ia.len() implies ia[i] == ib[i] by {
        assert(bools_bytes(ia)[i] == bool_byte(ia[i]));
        assert(bools_bytes(ib)[i] == bool_byte(ib[i]));
    }
    assert(ia =~= ib);
}

fn write_note(out: &mut Vec<u8>, note: &SpendNoteInput)
    ensures
        final(out)@ == old(out)@ + note_bytes(*note),
{
    let ghost before = out@;
    append_bytes(out, note.wallet_address.as_slice());
    append_bytes(out, note.nullifier.as_slice());
    append_bytes(out, note.amount_commitment.commitment.as_slice());
    let amount = u64_to_le(note.amount_commitment.amount);
    append_bytes(out, amount.as_slice());
    append_bytes(out, note.amount_commitment.blinding_factor.as_slice());
    append_bytes(out, note.nullifier_data.salt.as_slice());
    let stamp = u64_to_le(note.nullifier_data.timestamp);
    append_bytes(out, stamp.as_slice());
    assert(out@ =~= before + note_bytes(*note));
}

fn write_proof(out: &mut Vec<u8>, proof: &MerkleProof)
    ensures
        final(out)@ == old(out)@ + proof_bytes(*proof),
{
    let ghost before = out@;
    let n = proof.path.len();
    let count = u64_to_le(n as u64);
    append_bytes(out, count.as_slice());
    let ghost head = out@;
    let mut i: usize = 0;
    while i < n
        invariant
            i <= n,
            n == proof.path@.len(),
            out@ == head + path_bytes(proof.path@.take(i as int)),
        decreases n - i,
    {
        append_bytes(out, proof.path[i].as_slice());
        assert(path_bytes(proof.path@.take(i + 1)) =~= path_bytes(proof.path@.take(i as int))
            + proof.path@[i as int]@);
        i += 1;
    }
    assert(proof.path@.take(n as int) =~= proof.path@);
    assert(out@ =~= head + path_bytes(proof.path@));
    let m = proof.indices.len();
    let count = u64_to_le(m as u64);
    append_bytes(out, count.as_slice());
    let ghost mid = out@;
    let mut k: usize = 0;
    while k < m
        invariant
            k <= m,
            m == proof.indices@.len(),
            out@ == mid + bools_bytes(proof.indices@.take(k as int)),
        decreases m - k,
    {
        let byte: u8 = if proof.indices[k] {
            1
        } else {
            0
        };
        out.push(byte);
        assert(bools_bytes(proof.indices@.take(k + 1)) =~= bools_bytes(
            proof.indices@.take(k as int),
        ).push(byte));
        k += 1;
    }
    assert(proof.indices@.take(m as int) =~= proof.indices@);
    assert(out@ =~= before + proof_bytes(*proof));
}

impl SpendVerificationInput {
    /// Serializes the input.
    pub fn to_bytes(&self) -> (out: Vec<u8>)
        ensures
            out@ == input_bytes(*self),
    {
        let mut out: Vec<u8> = Vec::new();
        write_note(&mut out, &self.spend_note);
        write_proof(&mut out, &self.merkle_proof);
        append_bytes(&mut out, self.merkle_root.as_slice());
        let expected = u64_to_le(self.expected_amount);
        append_bytes(&mut out, expected.as_slice());
        assert(out@ =~= input_bytes(*self));
        out
    }
}

/// Whether two inputs hold the same values.
pub open spec fn same_input(a: SpendVerificationInput, b: SpendVerificationInput) -> bool {
    &&& a.spend_note == b.spend_note
    &&& a.merkle_proof.path@ == b.merkle_proof.path@
    &&& a.merkle_proof.indices@ == b.merkle_proof.indices@
    &&& a.merkle_root == b.merkle_root
    &&& a.expected_amount == b.expected_amount
}

fn read_note(bytes: &[u8]) -> (note: SpendNoteInput)
    requires
        bytes@.len() >= 164,
    ensures
        note_bytes(note) == bytes@.subrange(0, 164),
{
    let wallet_address = read_array_20(bytes, 0);
    let nullifier = read_array_32(bytes, 20);
    let commitment = read_array_32(bytes, 52);
    let amount = u64_read_le(bytes, 84);
    let blinding_factor = read_array_32(bytes, 92);
    let salt = read_array_32(bytes, 124);
    let timestamp = u64_read_le(bytes, 156);
    let note = SpendNoteInput {
        wallet_address,
        nullifier,
        amount_commitment: AmountCommitment { commitment, amount, blinding_factor },
        nullifier_data: NullifierData { salt, timestamp },
    };
    proof {
        lemma_le_digits_len(amount as nat, 8);
        lemma_le_digits_len(timestamp as nat, 8);
        assert(note_bytes(note) =~= bytes@.subrange(0, 164));
    }
    note
}

fn read_path(bytes: &[u8], at: usize, n: usize) -> (path: Vec<[u8; 32]>)
    requires
        at + 32 * n <= bytes@.len(),
    ensures
        path@.len() == n,
        path_bytes(path@) == bytes@.subrange(at as int, at + 32 * n),
{
    let len = bytes.len();
    let mut path: Vec<[u8; 32]> = Vec::new();
    let mut i: usize = 0;
    while i < n
        invariant
            i <= n,
            len == bytes@.len(),
            at + 32 * n <= len,
            path@.len() == i,
            path_bytes(path@) == bytes@.subrange(at as int, at + 32 * i),
        decreases n - i,
    {
        let ghost before = path@;
        let sibling = read_array_32(bytes, at + 32 * i);
        path.push(sibling);
        assert(path_bytes(path@) =~= path_bytes(before) + sibling@);
        assert(path_bytes(before) + sibling@ =~= bytes@.subrange(at as int, at + 32 * (i + 1)));
        i += 1;
    }
    path
}

fn read_bits(bytes: &[u8], at: usize, m: usize) -> (bits: Option<Vec<bool>>)
    requires
        at + m <= bytes@.len(),
    ensures
        bits matches Some(v) ==> v@.len() == m && bools_bytes(v@) == bytes@.subrange(
            at as int,
            at + m,
        ),
        bits is None ==> exists|k: int| at <= k < at + m && bytes@[k] != 0 && bytes@[k] != 1,
{
    let len = bytes.len();
    let mut v: Vec<bool> = Vec::new();
    let mut k: usize = 0;
    while k < m
        invariant
            k <= m,
            len == bytes@.len(),
            at + m <= len,
            v@.len() == k,
            bools_bytes(v@) == bytes@.subrange(at as int, at + k),
        decreases m - k,
    {
        let ghost before = v@;
        let byte = bytes[at + k];
        if byte == 0 {
            v.push(false);
        } else if byte == 1 {
            v.push(true);
        } else {
            return None;
        }
        assert(bools_bytes(v@) =~= bools_bytes(before).push(byte));
        assert(bools_bytes(before).push(byte) =~= bytes@.subrange(at as int, at + k + 1));
        k += 1;
    }
    Some(v)
}

impl MerkleProof {
    /// Serializes the proof.
    pub fn to_bytes(&self) -> (out: Vec<u8>)
        ensures
            out@ == proof_bytes(*self),
    {
        let mut out: Vec<u8> = Vec::new();
        write_proof(&mut out, self);
        assert(Seq::<u8>::empty() + proof_bytes(*self) =~= proof_bytes(*self));
        out
    }

    /// Reads the proof whose serialized form starts at position `at` of
    /// `bytes`, and tells where it ends. What follows the proof is not
    /// looked at.
    ///
    /// A proof is handed out exactly where one starts at `at`.
    pub fn read_from(bytes: &[u8], at: usize) -> (decoded: Option<(MerkleProof, usize)>)
        ensures
            decoded matches Some((proof, end)) ==> proof_starts_at(bytes@, at as int, proof)
                && end == at + proof_bytes(proof).len(),
            decoded is None ==> forall|proof: MerkleProof|
                !proof_starts_at(bytes@, at as int, proof),
    {
        let len = bytes.len();
        if len < 16 || at > len - 16 {
            proof {
                assert forall|proof: MerkleProof| !proof_starts_at(bytes@, at as int, proof) by {
                    lemma_proof_bytes_layout(proof);
                }
            }
            return None;
        }
        let room = len - at - 16;
        let n64 = u64_read_le(bytes, at);
        if n64 > (room / 32) as u64 {
            proof {
                assert forall|proof: MerkleProof| !proof_starts_at(bytes@, at as int, proof) by {
                    lemma_proof_bytes_layout(proof);
                    if proof_starts_at(bytes@, at as int, proof) {
                        assert(bytes@.subrange(at as int, at + 8) =~= proof_bytes(proof).subrange(
                            0,
                            8,
                        ));
                        lemma_u64_bytes_injective(n64, proof.path.len() as u64);
                    }
                }
            }
            return None;
        }
        let n = n64 as usize;
        let path = read_path(bytes, at + 8, n);
        let m64 = u64_read_le(bytes, at + 8 + 32 * n);
        if m64 > (room - 32 * n) as u64 {
            proof {
                assert forall|proof: MerkleProof| !proof_starts_at(bytes@, at as int, proof) by {
                    lemma_proof_bytes_layout(proof);
                    if proof_starts_at(bytes@, at as int, proof) {
                        let b = proof_bytes(proof);
                        assert(bytes@.subrange(at as int, at + 8) =~= b.subrange(0, 8));
                        lemma_u64_bytes_injective(n64, proof.path.len() as u64);
                        assert(bytes@.subrange(at + 8 + 32 * n, at + 16 + 32 * n) =~= b.subrange(
                            8 + 32 * n,
                            16 + 32 * n,
                        ));
                        lemma_u64_bytes_injective(m64, proof.indices.len() as u64);
                    }
                }
            }
            return None;
        }
        let m = m64 as usize;
        let indices = match read_bits(bytes, at + 16 + 32 * n, m) {
            Some(indices) => indices,
            None => {
                proof {
                    let k = choose|k: int|
                        at + 16 + 32 * n <= k < at + 16 + 32 * n + m && bytes@[k] != 0
                            && bytes@[k] != 1;
                    assert forall|proof: MerkleProof| !proof_starts_at(
                        bytes@,
                        at as int,
                        proof,
                    ) by {
                        lemma_proof_bytes_layout(proof);
                        if proof_starts_at(bytes@, at as int, proof) {
                            let b = proof_bytes(proof);
                            assert(bytes@.subrange(at as int, at + 8) =~= b.subrange(0, 8));
                            lemma_u64_bytes_injective(n64, proof.path.len() as u64);
                            assert(bytes@.subrange(at + 8 + 32 * n, at + 16 + 32 * n)
                                =~= b.subrange(8 + 32 * n, 16 + 32 * n));
                            lemma_u64_bytes_injective(m64, proof.indices.len() as u64);
                            let bits = bools_bytes(proof.indices@);
                            let j = k - (at + 16 + 32 * n);
                            assert(bytes@[k] == bytes@.subrange(
                                at as int,
                                at + b.len(),
                            )[16 + 32 * n + j]);
                            assert(b[16 + 32 * n + j] == b.subrange(
                                16 + 32 * n,
                                16 + 32 * n + m,
                            )[j]);
                            assert(bits[j] == 0 || bits[j] == 1);
                        }
                    }
                }
                return None;
            },
        };
        let proof = MerkleProof { path, indices };
        let end = at + 16 + 32 * n + m;
        proof {
            lemma_le_digits_len(n64 as nat, 8);
            lemma_le_digits_len(m64 as nat, 8);
            assert(proof_bytes(proof) =~= bytes@.subrange(at as int, end as int));
        }
        Some((proof, end))
    }
}

impl SpendVerificationInput {
    /// Reads an input back from its serialized form.
    ///
    /// An input is handed out exactly where `bytes` is the serialized form of
    /// one, from the first byte to the last; it is then that input.
    pub fn from_bytes(bytes: &[u8]) -> (decoded: Option<SpendVerificationInput>)
        ensures
            decoded matches Some(input) ==> input_bytes(input) == bytes@,
            decoded is None ==> forall|input: SpendVerificationInput|
                input_bytes(input) != bytes@,
    {
        let len = bytes.len();
        if len < 220 {
            proof {
                assert forall|input: SpendVerificationInput| input_bytes(input) != bytes@ by {
                    lemma_input_bytes_layout(input);
                }
            }
            return None;
        }
        let spend_note = read_note(bytes);
        let (merkle_proof, end) = match MerkleProof::read_from(bytes, 164) {
            Some(found) => found,
            None => {
                proof {
                    assert forall|input: SpendVerificationInput| input_bytes(input)
                        != bytes@ by {
                        lemma_input_starts_proof(input);
                    }
                }
                return None;
            },
        };
        if len - end != 40 {
            proof {
                assert forall|input: SpendVerificationInput| input_bytes(input) != bytes@ by {
                    lemma_input_starts_proof(input);
                    if input_bytes(input) == bytes@ {
                        lemma_proof_start_unique(bytes@, 164, input.merkle_proof, merkle_proof);
                        lemma_proof_bytes_layout(input.merkle_proof);
                        lemma_proof_bytes_layout(merkle_proof);
                        lemma_input_bytes_layout(input);
                        assert(input.merkle_proof.path@.len() == merkle_proof.path@.len());
                        assert(input.merkle_proof.indices@.len() == merkle_proof.indices@.len());
                        assert(proof_bytes(input.merkle_proof).len() == end - 164);
                        assert(bytes@.len() == end + 40);
                    }
                }
            }
            return None;
        }
        let merkle_root = read_array_32(bytes, end);
        let expected_amount = u64_read_le(bytes, end + 32);
        let input = SpendVerificationInput {
            spend_note,
            merkle_proof,
            merkle_root,
            expected_amount,
        };
        proof {
            lemma_le_digits_len(expected_amount as nat, 8);
            assert(input_bytes(input) =~= bytes@);
        }
        Some(input)
    }
}

/// In the serialized form of an input, the membership proof starts right
/// after the note.
pub proof fn lemma_input_starts_proof(input: SpendVerificationInput)
    ensures
        proof_starts_at(input_bytes(input), 164, input.merkle_proof),
{
    lemma_input_bytes_layout(input);
    lemma_proof_bytes_layout(input.merkle_proof);
    let b = input_bytes(input);
    let pb = proof_bytes(input.merkle_proof);
    lemma_le_digits_len(input.spend_note.amount_commitment.amount as nat, 8);
    lemma_le_digits_len(input.spend_note.nullifier_data.timestamp as nat, 8);
    assert(b.subrange(164, 164 + pb.len() as int) =~= pb);
}

/// Serialization loses nothing: inputs with the same serialized form hold
/// the same values. Reading back what was written therefore gives the input
/// that was written.
pub proof fn lemma_input_bytes_injective(a: SpendVerificationInput, b: SpendVerificationInput)
    requires
        input_bytes(a) == input_bytes(b),
    ensures
        same_input(a, b),
{
    lemma_input_bytes_layout(a);
    lemma_input_bytes_layout(b);
    lemma_note_bytes_layout(a.spend_note);
    lemma_note_bytes_layout(b.spend_note);
    lemma_input_starts_proof(a);
    lemma_input_starts_proof(b);
    lemma_proof_start_unique(input_bytes(a), 164, a.merkle_proof, b.merkle_proof);
    lemma_u64_bytes_injective(a.expected_amount, b.expected_amount);
    lemma_u64_bytes_injective(
        a.spend_note.amount_commitment.amount,
        b.spend_note.amount_commitment.amount,
    );
    lemma_u64_bytes_injective(
        a.spend_note.nullifier_data.timestamp,
        b.spend_note.nullifier_data.timestamp,
    );
    assert(a.spend_note.wallet_address =~= b.spend_note.wallet_address);
    assert(a.spend_note.nullifier =~= b.spend_note.nullifier);
    assert(a.spend_note.amount_commitment.commitment =~= b.spend_note.amount_commitment.commitment);
    assert(a.spend_note.amount_commitment.blinding_factor
        =~= b.spend_note.amount_commitment.blinding_factor);
    assert(a.spend_note.nullifier_data.salt =~= b.spend_note.nullifier_data.salt);
    assert(a.merkle_root =~= b.merkle_root);
}

} // verus!

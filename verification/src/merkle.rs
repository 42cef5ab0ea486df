//! Merkle membership: a leaf is folded up a path of siblings, and the result
//! is compared with a claimed root.

use vstd::prelude::*;
use crate::bytes::{append_bytes, ct_eq};
use crate::hash::{sha256, sha256_collides, sha256_digest};
use crate::types::{siblings, MerkleProof};

verus! {

/// The message that is hashed at one level of the fold: the running hash and
/// the sibling, the running hash first where it is the left child and last
/// otherwise.
pub open spec fn merkle_preimage(current: Seq<u8>, sibling: Seq<u8>, current_is_left: bool) -> Seq<
    u8,
> {
    if current_is_left {
        current + sibling
    } else {
        sibling + current
    }
}

/// One level of the fold: the parent of `current` and `sibling`.
pub open spec fn merkle_step(current: Seq<u8>, sibling: Seq<u8>, current_is_left: bool) -> Seq<
    u8,
> {
    sha256_digest(merkle_preimage(current, sibling, current_is_left))
}

/// The node reached from `leaf` by going up through all of `path`, level
/// `i` being taken in the direction `indices[i]`.
pub open spec fn merkle_fold(leaf: Seq<u8>, path: Seq<Seq<u8>>, indices: Seq<bool>) -> Seq<u8>
    recommends
        path.len() == indices.len(),
    decreases path.len(),
{
    if path.len() == 0 {
        leaf
    } else {
        merkle_step(
            merkle_fold(leaf, path.drop_last(), indices.drop_last()),
            path.last(),
            indices.last(),
        )
    }
}

/// Whether `proof` leads from `leaf` to `root`: it has as many direction bits
/// as siblings, and the fold ends in `root`.
pub open spec fn merkle_proof_valid(
    leaf: Seq<u8>,
    path: Seq<Seq<u8>>,
    indices: Seq<bool>,
    root: Seq<u8>,
) -> bool {
    path.len() == indices.len() && merkle_fold(leaf, path, indices) == root
}

/// Builds the message that is hashed at one level of the fold.
pub fn merkle_message(current: &[u8], sibling: &[u8; 32], current_is_left: bool) -> (message: Vec<
    u8,
>)
    ensures
        message@ == merkle_preimage(current@, sibling@, current_is_left),
{
    let mut message: Vec<u8> = Vec::new();
    if current_is_left {
        append_bytes(&mut message, current);
        append_bytes(&mut message, sibling.as_slice());
    } else {
        append_bytes(&mut message, sibling.as_slice());
        append_bytes(&mut message, current);
    }
    assert(message@ =~= merkle_preimage(current@, sibling@, current_is_left));
    message
}

/// Checks a membership proof. The depth of the tree is the length of the
/// path; a proof whose direction bits and siblings differ in number proves
/// nothing.
pub fn verify_merkle_proof(leaf: &[u8], proof: &MerkleProof, root: &[u8; 32]) -> (ok: bool)
    ensures
        ok == merkle_proof_valid(leaf@, siblings(proof.path@), proof.indices@, root@),
{
    let depth = proof.path.len();
    if proof.indices.len() != depth {
        return false;
    }
    let ghost path = siblings(proof.path@);
    let ghost indices = proof.indices@;
    let mut current: Vec<u8> = Vec::new();
    append_bytes(&mut current, leaf);
    assert(current@ =~= leaf@);
    assert(path.take(0) =~= Seq::<Seq<u8>>::empty());
    let mut i: usize = 0;
    while i < depth
        invariant
            i <= depth,
            depth == proof.path@.len(),
            depth == proof.indices@.len(),
            path == siblings(proof.path@),
            indices == proof.indices@,
            current@ == merkle_fold(leaf@, path.take(i as int), indices.take(i as int)),
        decreases depth - i,
    {
        let message = merkle_message(current.as_slice(), &proof.path[i], proof.indices[i]);
        let parent = sha256(message.as_slice());
        proof {
            let p = path.take(i + 1);
            let d = indices.take(i + 1);
            assert(p.drop_last() =~= path.take(i as int));
            assert(d.drop_last() =~= indices.take(i as int));
            assert(p.last() == proof.path@[i as int]@);
            assert(d.last() == proof.indices@[i as int]);
        }
        current = Vec::new();
        append_bytes(&mut current, parent.as_slice());
        assert(current@ =~= parent@);
        i += 1;
    }
    assert(path.take(depth as int) =~= path);
    assert(indices.take(depth as int) =~= indices);
    ct_eq(current.as_slice(), root.as_slice())
}


/// At one level, no two distinct pairs of a running hash and a sibling are
/// hashed as the same message, as long as they agree in their lengths and in
/// the direction. A sibling that was tampered with can therefore lead to the
/// same parent only through a collision of the hash.
pub proof fn lemma_merkle_preimage_injective(
    current1: Seq<u8>,
    sibling1: Seq<u8>,
    current2: Seq<u8>,
    sibling2: Seq<u8>,
    current_is_left: bool,
)
    requires
        current1.len() == current2.len(),
        sibling1.len() == sibling2.len(),
        merkle_preimage(current1, sibling1, current_is_left) == merkle_preimage(
            current2,
            sibling2,
            current_is_left,
        ),
    ensures
        current1 == current2,
        sibling1 == sibling2,
{
    let m1 = merkle_preimage(current1, sibling1, current_is_left);
    let m2 = merkle_preimage(current2, sibling2, current_is_left);
    let c = current1.len() as int;
    let s = sibling1.len() as int;
    if current_is_left {
        assert(m1.subrange(0, c) =~= current1);
        assert(m2.subrange(0, c) =~= current2);
        assert(m1.subrange(c, c + s) =~= sibling1);
        assert(m2.subrange(c, c + s) =~= sibling2);
    } else {
        assert(m1.subrange(0, s) =~= sibling1);
        assert(m2.subrange(0, s) =~= sibling2);
        assert(m1.subrange(s, s + c) =~= current1);
        assert(m2.subrange(s, s + c) =~= current2);
    }
}

/// With one sibling and one direction, the hashed message tells the running
/// hash.
proof fn lemma_merkle_preimage_cancels(
    current1: Seq<u8>,
    current2: Seq<u8>,
    sibling: Seq<u8>,
    current_is_left: bool,
)
    requires
        merkle_preimage(current1, sibling, current_is_left) == merkle_preimage(
            current2,
            sibling,
            current_is_left,
        ),
    ensures
        current1 == current2,
{
    let m1 = merkle_preimage(current1, sibling, current_is_left);
    let m2 = merkle_preimage(current2, sibling, current_is_left);
    assert(m1.len() == current1.len() + sibling.len());
    assert(m2.len() == current2.len() + sibling.len());
    lemma_merkle_preimage_injective(current1, sibling, current2, sibling, current_is_left);
}

/// Two proofs for one leaf that differ at one level only, and lead to the
/// same root, hash the same message at that level, unless the hash collides.
pub proof fn lemma_tampered_level(
    leaf: Seq<u8>,
    path1: Seq<Seq<u8>>,
    indices1: Seq<bool>,
    path2: Seq<Seq<u8>>,
    indices2: Seq<bool>,
    level: int,
)
    requires
        path1.len() == indices1.len(),
        path2.len() == path1.len(),
        indices2.len() == path1.len(),
        0 <= level < path1.len(),
        forall|j: int|
            0 <= j < path1.len() && j != level ==> path1[j] == path2[j] && indices1[j]
                == indices2[j],
        merkle_fold(leaf, path1, indices1) == merkle_fold(leaf, path2, indices2),
    ensures
        sha256_collides() || ({
            let current = merkle_fold(leaf, path1.take(level), indices1.take(level));
            merkle_preimage(current, path1[level], indices1[level]) == merkle_preimage(
                current,
                path2[level],
                indices2[level],
            )
        }),
    decreases path1.len(),
{
    let n = path1.len() as int;
    let below1 = merkle_fold(leaf, path1.drop_last(), indices1.drop_last());
    let below2 = merkle_fold(leaf, path2.drop_last(), indices2.drop_last());
    let m1 = merkle_preimage(below1, path1.last(), indices1.last());
    let m2 = merkle_preimage(below2, path2.last(), indices2.last());
    assert(sha256_digest(m1) == sha256_digest(m2));
    if m1 != m2 {
        assert(sha256_collides());
    } else if level == n - 1 {
        assert(path1.drop_last() =~= path2.drop_last());
        assert(indices1.drop_last() =~= indices2.drop_last());
        assert(path1.take(level) =~= path1.drop_last());
        assert(indices1.take(level) =~= indices1.drop_last());
    } else {
        lemma_merkle_preimage_cancels(below1, below2, path1.last(), indices1.last());
        lemma_tampered_level(
            leaf,
            path1.drop_last(),
            indices1.drop_last(),
            path2.drop_last(),
            indices2.drop_last(),
            level,
        );
        assert(path1.drop_last().take(level) =~= path1.take(level));
        assert(indices1.drop_last().take(level) =~= indices1.take(level));
    }
}

/// A proof in which one sibling was replaced by another of the same length
/// does not lead to the same root, unless the hash collides.
pub proof fn lemma_tampered_sibling_fails(
    leaf: Seq<u8>,
    path: Seq<Seq<u8>>,
    indices: Seq<bool>,
    level: int,
    sibling: Seq<u8>,
)
    requires
        path.len() == indices.len(),
        0 <= level < path.len(),
        sibling.len() == path[level].len(),
        sibling != path[level],
    ensures
        merkle_fold(leaf, path.update(level, sibling), indices) != merkle_fold(
            leaf,
            path,
            indices,
        ) || sha256_collides(),
{
    let tampered = path.update(level, sibling);
    if merkle_fold(leaf, tampered, indices) == merkle_fold(leaf, path, indices) {
        lemma_tampered_level(leaf, path, indices, tampered, indices, level);
        if !sha256_collides() {
            let current = merkle_fold(leaf, path.take(level), indices.take(level));
            lemma_merkle_preimage_injective(
                current,
                path[level],
                current,
                sibling,
                indices[level],
            );
        }
    }
}

/// A proof in which one direction bit was flipped does not lead to the same
/// root, unless the hash collides or the two nodes at that level give the
/// same message in either order.
pub proof fn lemma_flipped_bit_fails(
    leaf: Seq<u8>,
    path: Seq<Seq<u8>>,
    indices: Seq<bool>,
    level: int,
)
    requires
        path.len() == indices.len(),
        0 <= level < path.len(),
    ensures
        ({
            let current = merkle_fold(leaf, path.take(level), indices.take(level));
            let flipped = indices.update(level, !indices[level]);
            ||| merkle_fold(leaf, path, flipped) != merkle_fold(leaf, path, indices)
            ||| sha256_collides()
            ||| current + path[level] == path[level] + current
        }),
{
    let flipped = indices.update(level, !indices[level]);
    if merkle_fold(leaf, path, flipped) == merkle_fold(leaf, path, indices) {
        lemma_tampered_level(leaf, path, indices, path, flipped, level);
    }
}

/// `2` raised to the power `n`.
pub open spec fn pow2(n: nat) -> nat
    decreases n,
{
    if n == 0 {
        1
    } else {
        2 * pow2((n - 1) as nat)
    }
}

/// The root of the complete binary tree of depth `depth` whose leaves are,
/// from left to right, the `2^depth` byte strings of `leaves`.
pub open spec fn tree_root(leaves: Seq<Seq<u8>>, depth: nat) -> Seq<u8>
    recommends
        leaves.len() == pow2(depth),
    decreases depth,
{
    if depth == 0 {
        leaves[0]
    } else {
        let half = pow2((depth - 1) as nat) as int;
        sha256_digest(
            tree_root(leaves.take(half), (depth - 1) as nat) + tree_root(
                leaves.skip(half),
                (depth - 1) as nat,
            ),
        )
    }
}

/// The siblings met on the way from leaf number `index` up to the root of
/// that tree, lowest level first.
pub open spec fn authentic_path(leaves: Seq<Seq<u8>>, depth: nat, index: nat) -> Seq<Seq<u8>>
    recommends
        leaves.len() == pow2(depth),
        index < leaves.len(),
    decreases depth,
{
    if depth == 0 {
        Seq::empty()
    } else {
        let half = pow2((depth - 1) as nat);
        if index < half {
            authentic_path(leaves.take(half as int), (depth - 1) as nat, index).push(
                tree_root(leaves.skip(half as int), (depth - 1) as nat),
            )
        } else {
            authentic_path(
                leaves.skip(half as int),
                (depth - 1) as nat,
                (index - half) as nat,
            ).push(tree_root(leaves.take(half as int), (depth - 1) as nat))
        }
    }
}

/// The direction bits of that way, lowest level first: `true` where the way
/// passes through a left child.
pub open spec fn authentic_indices(depth: nat, index: nat) -> Seq<bool>
    recommends
        index < pow2(depth),
    decreases depth,
{
    if depth == 0 {
        Seq::empty()
    } else {
        let half = pow2((depth - 1) as nat);
        if index < half {
            authentic_indices((depth - 1) as nat, index).push(true)
        } else {
            authentic_indices((depth - 1) as nat, (index - half) as nat).push(false)
        }
    }
}

/// Membership round trip: in the complete tree of any depth over any leaves,
/// every leaf is accepted with its authentic path and direction bits against
/// the root of the tree. The proof has one sibling and one bit per level.
pub proof fn lemma_authentic_proof_verifies(leaves: Seq<Seq<u8>>, depth: nat, index: nat)
    requires
        leaves.len() == pow2(depth),
        index < leaves.len(),
    ensures
        authentic_path(leaves, depth, index).len() == depth,
        authentic_indices(depth, index).len() == depth,
        merkle_proof_valid(
            leaves[index as int],
            authentic_path(leaves, depth, index),
            authentic_indices(depth, index),
            tree_root(leaves, depth),
        ),
    decreases depth,
{
    if depth > 0 {
        let below = (depth - 1) as nat;
        let half = pow2(below);
        let left = leaves.take(half as int);
        let right = leaves.skip(half as int);
        let path = authentic_path(leaves, depth, index);
        let bits = authentic_indices(depth, index);
        if index < half {
            lemma_authentic_proof_verifies(left, below, index);
            assert(path.drop_last() =~= authentic_path(left, below, index));
            assert(bits.drop_last() =~= authentic_indices(below, index));
        } else {
            let shifted = (index - half) as nat;
            lemma_authentic_proof_verifies(right, below, shifted);
            assert(path.drop_last() =~= authentic_path(right, below, shifted));
            assert(bits.drop_last() =~= authentic_indices(below, shifted));
        }
    }
}

} // verus!

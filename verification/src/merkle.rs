//! Content hashing and the evaluation of Merkle paths.

use crate::encoding::CanonicalBytes;
use crate::MerkleHash;
use sha2::Digest;
use vstd::prelude::*;

verus! {

/// On which side of the running hash a sibling is combined.
#[derive(Debug, Clone, PartialEq, Eq)]
pub enum Direction {
    Left,
    Right,
}

/// One step of a Merkle path: a sibling and the side it stands on.
#[derive(Debug, Clone, PartialEq, Eq)]
pub struct MerklePathItem {
    pub hash: MerkleHash,
    pub direction: Direction,
}

/// The steps from a leaf up to the root.
pub type MerklePath = Vec<MerklePathItem>;

/// The SHA-256 digest of a byte string.
pub uninterp spec fn sha256(data: Seq<u8>) -> [u8; 32];

/// Two different byte strings with one digest.
pub open spec fn sha256_collision(first: Seq<u8>, second: Seq<u8>) -> bool {
    first != second && sha256(first) == sha256(second)
}

/// The digest of the encoding of the pair `(left, right)`.
pub open spec fn spec_combine(left: MerkleHash, right: MerkleHash) -> MerkleHash {
    sha256(left@ + right@)
}

/// The running hash after one step of a path.
pub open spec fn merkle_step(running: MerkleHash, item: MerklePathItem) -> MerkleHash {
    match item.direction {
        Direction::Left => spec_combine(item.hash, running),
        Direction::Right => spec_combine(running, item.hash),
    }
}

/// The root that a path leads to from a leaf: the steps applied in order.
pub open spec fn merkle_root(path: Seq<MerklePathItem>, leaf: MerkleHash) -> MerkleHash
    decreases path.len(),
{
    if path.len() == 0 {
        leaf
    } else {
        merkle_step(merkle_root(path.drop_last(), leaf), path.last())
    }
}

/// The path leads from the leaf to exactly this root.
pub open spec fn path_verifies(root: MerkleHash, path: Seq<MerklePathItem>, leaf: MerkleHash) -> bool {
    merkle_root(path, leaf) == root
}

/// The bytes that are hashed at one step of a path.
pub open spec fn step_preimage(running: MerkleHash, item: MerklePathItem) -> Seq<u8> {
    match item.direction {
        Direction::Left => item.hash@ + running@,
        Direction::Right => running@ + item.hash@,
    }
}

/// The other side.
pub open spec fn opposite(direction: Direction) -> Direction {
    match direction {
        Direction::Left => Direction::Right,
        Direction::Right => Direction::Left,
    }
}

/// The same sibling on the other side.
pub open spec fn mirrored(item: MerklePathItem) -> MerklePathItem {
    MerklePathItem { hash: item.hash, direction: opposite(item.direction) }
}

/// Feeds `data` to a fresh `sha2::Sha256` with `update` and returns what
/// `finalize` gives: the SHA-256 digest of `data`, which depends on the bytes
/// alone.
#[verifier::external_body]
pub fn hash(data: &[u8]) -> (digest: MerkleHash)
    ensures
        digest == sha256(data@),
{
    let mut hasher = sha2::Sha256::default();
    hasher.update(data);
    hasher.finalize().into()
}

/// The digest of the canonical encoding of `value`.
pub fn digest_canonical<T: CanonicalBytes>(value: &T) -> (digest: MerkleHash)
    requires
        value.encodable(),
    ensures
        digest == sha256(value.canonical()),
{
    let mut bytes: Vec<u8> = Vec::new();
    value.write_canonical(&mut bytes);
    assert(bytes@ == value.canonical());
    hash(bytes.as_slice())
}

/// The digest of the canonical encoding of `value`.
pub fn hash_borsh<T: CanonicalBytes>(value: T) -> (digest: MerkleHash)
    requires
        value.encodable(),
    ensures
        digest == sha256(value.canonical()),
{
    digest_canonical(&value)
}

/// The digest of the pair, which depends on the order of its halves.
pub fn combine_hash(hash1: &MerkleHash, hash2: &MerkleHash) -> (combined: MerkleHash)
    ensures
        combined == spec_combine(*hash1, *hash2),
{
    hash_borsh((*hash1, *hash2))
}

/// Whether two digests hold the same bytes.
pub fn same_hash(first: &MerkleHash, second: &MerkleHash) -> (same: bool)
    ensures
        same == (*first == *second),
{
    let mut i: usize = 0;
    while i < 32
        invariant
            i <= 32,
            forall|j: int| 0 <= j < i ==> first[j] == second[j],
        decreases 32 - i,
    {
        if first[i] != second[i] {
            return false;
        }
        i += 1;
    }
    assert(*first =~= *second);
    true
}

/// Folds the path over the leaf, a left sibling in front of the running hash
/// and a right sibling behind it.
pub fn compute_root_from_path(path: &[MerklePathItem], item_hash: MerkleHash) -> (root: MerkleHash)
    ensures
        root == merkle_root(path@, item_hash),
{
    let mut hash_so_far = item_hash;
    let mut i: usize = 0;
    while i < path.len()
        invariant
            i <= path.len(),
            hash_so_far == merkle_root(path@.take(i as int), item_hash),
        decreases path.len() - i,
    {
        let uncle = &path[i];
        proof {
            lemma_root_of_extended_path(path@.take(i as int), path@[i as int], item_hash);
            assert(path@.take(i + 1) == path@.take(i as int).push(path@[i as int]));
        }
        match uncle.direction {
            Direction::Left => {
                hash_so_far = combine_hash(&uncle.hash, &hash_so_far);
            },
            Direction::Right => {
                hash_so_far = combine_hash(&hash_so_far, &uncle.hash);
            },
        }
        i += 1;
    }
    assert(path@.take(path.len() as int) == path@);
    hash_so_far
}

/// Whether the path leads from the leaf to `root`. An empty path asks that
/// the leaf is the root.
pub fn verify_hash(root: MerkleHash, path: &[MerklePathItem], item_hash: MerkleHash) -> (ok: bool)
    ensures
        ok == path_verifies(root, path@, item_hash),
{
    let computed = compute_root_from_path(path, item_hash);
    same_hash(&computed, &root)
}

/// The root that the path leads to from the digest of the encoding of `item`.
pub fn compute_root_from_path_and_item<T: CanonicalBytes>(path: &[MerklePathItem], item: T) -> (root:
    MerkleHash)
    requires
        item.encodable(),
    ensures
        root == merkle_root(path@, sha256(item.canonical())),
{
    compute_root_from_path(path, hash_borsh(item))
}

/// Appending a step to a path applies that step to the root of the path.
pub proof fn lemma_root_of_extended_path(path: Seq<MerklePathItem>, item: MerklePathItem, leaf: MerkleHash)
    ensures
        merkle_root(path.push(item), leaf) == merkle_step(merkle_root(path, leaf), item),
{
    assert(path.push(item).drop_last() == path);
}

/// A path that is built bottom-up verifies at every stage: the empty path
/// verifies the leaf against itself, and a path that verifies against a root
/// still verifies, with one more step, against that step applied to the root.
pub proof fn law_constructed_path_verifies(
    root: MerkleHash,
    path: Seq<MerklePathItem>,
    item: MerklePathItem,
    leaf: MerkleHash,
)
    ensures
        path_verifies(leaf, Seq::empty(), leaf),
        path_verifies(merkle_root(path, leaf), path, leaf),
        path_verifies(root, path, leaf) ==> path_verifies(
            merkle_step(root, item),
            path.push(item),
            leaf,
        ),
{
    lemma_root_of_extended_path(path, item, leaf);
}

/// Two digests laid end to end determine both digests.
pub proof fn lemma_joined_digests_split(a: MerkleHash, b: MerkleHash, c: MerkleHash, d: MerkleHash)
    requires
        a@ + b@ == c@ + d@,
    ensures
        a == c,
        b == d,
{
    let left = a@ + b@;
    let right = c@ + d@;
    assert forall|i: int| 0 <= i < 32 implies a[i] == c[i] by {
        assert(left[i] == a@[i]);
        assert(right[i] == c@[i]);
    }
    assert forall|i: int| 0 <= i < 32 implies b[i] == d[i] by {
        assert(left[i + 32] == b@[i]);
        assert(right[i + 32] == d@[i]);
    }
    assert(a =~= c);
    assert(b =~= d);
}

/// Changing siblings cannot go unnoticed without a collision: two different
/// paths of one length, with the same direction at every step, that lead
/// from one leaf to one root contain two different byte strings with the
/// same SHA-256 digest, and the proof hands them out.
pub proof fn law_changed_sibling_needs_collision(
    root: MerkleHash,
    path: Seq<MerklePathItem>,
    other: Seq<MerklePathItem>,
    leaf: MerkleHash,
) -> (found: (Seq<u8>, Seq<u8>))
    requires
        path.len() == other.len(),
        forall|i: int| 0 <= i < path.len() ==> path[i].direction == other[i].direction,
        path != other,
        path_verifies(root, path, leaf),
        path_verifies(root, other, leaf),
    ensures
        sha256_collision(found.0, found.1),
    decreases path.len(),
{
    if path.len() == 0 {
        assert(path =~= other);
        (Seq::empty(), Seq::empty())
    } else {
        let below = merkle_root(path.drop_last(), leaf);
        let other_below = merkle_root(other.drop_last(), leaf);
        let first = step_preimage(below, path.last());
        let second = step_preimage(other_below, other.last());
        assert(path.last().direction == other.last().direction);
        if first != second {
            (first, second)
        } else {
            match path.last().direction {
                Direction::Left => {
                    lemma_joined_digests_split(
                        path.last().hash,
                        below,
                        other.last().hash,
                        other_below,
                    );
                },
                Direction::Right => {
                    lemma_joined_digests_split(
                        below,
                        path.last().hash,
                        other_below,
                        other.last().hash,
                    );
                },
            }
            assert(path.last() == other.last());
            if path.drop_last() == other.drop_last() {
                assert(path =~= path.drop_last().push(path.last()));
                assert(other =~= other.drop_last().push(other.last()));
                assert(false);
            }
            law_changed_sibling_needs_collision(below, path.drop_last(), other.drop_last(), leaf)
        }
    }
}

/// Swapping a direction cannot go unnoticed without a collision, unless the
/// sibling at that step is the running hash itself, in which case both sides
/// hash the same bytes: if a path and the same path with step `k` mirrored
/// lead from one leaf to one root, and the sibling at `k` differs from the
/// root of the steps below it, then the proof hands out two different byte
/// strings with the same SHA-256 digest.
pub proof fn law_swapped_direction_needs_collision(
    root: MerkleHash,
    path: Seq<MerklePathItem>,
    k: int,
    leaf: MerkleHash,
) -> (found: (Seq<u8>, Seq<u8>))
    requires
        0 <= k < path.len(),
        path[k].hash != merkle_root(path.take(k), leaf),
        path_verifies(root, path, leaf),
        path_verifies(root, path.update(k, mirrored(path[k])), leaf),
    ensures
        sha256_collision(found.0, found.1),
    decreases path.len(),
{
    let other = path.update(k, mirrored(path[k]));
    let below = merkle_root(path.drop_last(), leaf);
    let other_below = merkle_root(other.drop_last(), leaf);
    let first = step_preimage(below, path.last());
    let second = step_preimage(other_below, other.last());
    if first != second {
        (first, second)
    } else if k == path.len() - 1 {
        assert(other.drop_last() =~= path.drop_last());
        assert(path.take(k) =~= path.drop_last());
        match path.last().direction {
            Direction::Left => {
                lemma_joined_digests_split(path[k].hash, below, below, path[k].hash);
            },
            Direction::Right => {
                lemma_joined_digests_split(below, path[k].hash, path[k].hash, below);
            },
        }
        (first, second)
    } else {
        assert(other.last() == path.last());
        match path.last().direction {
            Direction::Left => {
                lemma_joined_digests_split(
                    path.last().hash,
                    below,
                    other.last().hash,
                    other_below,
                );
            },
            Direction::Right => {
                lemma_joined_digests_split(
                    below,
                    path.last().hash,
                    other_below,
                    other.last().hash,
                );
            },
        }
        assert(other.drop_last() =~= path.drop_last().update(k, mirrored(path[k])));
        assert(path.drop_last().take(k) =~= path.take(k));
        law_swapped_direction_needs_collision(below, path.drop_last(), k, leaf)
    }
}

} // verus!

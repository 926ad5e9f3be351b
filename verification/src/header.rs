//! Light block headers and the hash that identifies one.

use crate::encoding::{lemma_array_of_bytes, lemma_concat_split, CanonicalBytes};
use crate::merkle::{combine_hash, hash_borsh, sha256, sha256_collision, spec_combine};
use crate::{BlockHeight, EpochId, MerkleHash};
use vstd::bytes::{lemma_auto_spec_u64_to_from_le_bytes, spec_u64_to_le_bytes};
use vstd::prelude::*;
use vstd::std_specs::convert::FromSpecImpl;

verus! {

/// The fields of a header that its hash commits to, in the order in which
/// they are encoded.
#[derive(Debug, Clone, Eq, PartialEq)]
pub struct BlockHeaderInnerLite {
    /// Height of this block.
    pub height: BlockHeight,
    /// The epoch of this block.
    pub epoch_id: EpochId,
    pub next_epoch_id: EpochId,
    /// Root hash of the state at the previous block.
    pub prev_state_root: MerkleHash,
    /// Root of the outcomes of the previous block.
    pub prev_outcome_root: MerkleHash,
    /// Nanoseconds since the Unix epoch at which the block was built.
    pub timestamp: u64,
    /// Hash of the block producers of the next epoch.
    pub next_bp_hash: crate::Hash,
    /// Merkle root of the block hashes up to this block.
    pub block_merkle_root: crate::Hash,
}

/// The inner fields of a header as a node reports them.
#[derive(PartialEq, Eq, Debug, Clone)]
pub struct BlockHeaderInnerLiteView {
    pub height: BlockHeight,
    pub epoch_id: crate::Hash,
    pub next_epoch_id: crate::Hash,
    pub prev_state_root: crate::Hash,
    pub outcome_root: crate::Hash,
    /// A legacy rendering of the time, which no hash commits to.
    pub timestamp: u64,
    pub timestamp_nanosec: u64,
    pub next_bp_hash: crate::Hash,
    pub block_merkle_root: crate::Hash,
}

/// A light client's view of a block header.
#[derive(Debug, Clone)]
pub struct LightClientBlockLiteView {
    pub prev_block_hash: crate::Hash,
    pub inner_rest_hash: crate::Hash,
    pub inner_lite: BlockHeaderInnerLiteView,
}

impl CanonicalBytes for BlockHeaderInnerLite {
    open spec fn encodable(&self) -> bool {
        true
    }

    open spec fn canonical(&self) -> Seq<u8> {
        spec_u64_to_le_bytes(self.height) + self.epoch_id@ + self.next_epoch_id@
            + self.prev_state_root@ + self.prev_outcome_root@ + spec_u64_to_le_bytes(
            self.timestamp,
        ) + self.next_bp_hash@ + self.block_merkle_root@
    }

    fn is_encodable(&self) -> (ok: bool) {
        true
    }

    fn write_canonical(&self, out: &mut Vec<u8>) {
        self.height.write_canonical(out);
        self.epoch_id.write_canonical(out);
        self.next_epoch_id.write_canonical(out);
        self.prev_state_root.write_canonical(out);
        self.prev_outcome_root.write_canonical(out);
        self.timestamp.write_canonical(out);
        self.next_bp_hash.write_canonical(out);
        self.block_merkle_root.write_canonical(out);
        assert(out@ =~= old(out)@ + self.canonical());
    }
}

impl BlockHeaderInnerLiteView {
    /// The fields that the header's hash commits to: all but the legacy
    /// rendering of the time.
    pub open spec fn committed(self) -> BlockHeaderInnerLite {
        BlockHeaderInnerLite {
            height: self.height,
            epoch_id: self.epoch_id,
            next_epoch_id: self.next_epoch_id,
            prev_state_root: self.prev_state_root,
            prev_outcome_root: self.outcome_root,
            timestamp: self.timestamp_nanosec,
            next_bp_hash: self.next_bp_hash,
            block_merkle_root: self.block_merkle_root,
        }
    }

    /// A copy of the view.
    pub fn duplicate(&self) -> (copy: Self)
        ensures
            copy == *self,
    {
        BlockHeaderInnerLiteView {
            height: self.height,
            epoch_id: self.epoch_id,
            next_epoch_id: self.next_epoch_id,
            prev_state_root: self.prev_state_root,
            outcome_root: self.outcome_root,
            timestamp: self.timestamp,
            timestamp_nanosec: self.timestamp_nanosec,
            next_bp_hash: self.next_bp_hash,
            block_merkle_root: self.block_merkle_root,
        }
    }
}

impl From<BlockHeaderInnerLiteView> for BlockHeaderInnerLite {
    fn from(view: BlockHeaderInnerLiteView) -> (inner: Self) {
        BlockHeaderInnerLite {
            height: view.height,
            epoch_id: view.epoch_id,
            next_epoch_id: view.next_epoch_id,
            prev_state_root: view.prev_state_root,
            prev_outcome_root: view.outcome_root,
            timestamp: view.timestamp_nanosec,
            next_bp_hash: view.next_bp_hash,
            block_merkle_root: view.block_merkle_root,
        }
    }
}

impl FromSpecImpl<BlockHeaderInnerLiteView> for BlockHeaderInnerLite {
    open spec fn obeys_from_spec() -> bool {
        true
    }

    open spec fn from_spec(view: BlockHeaderInnerLiteView) -> Self {
        view.committed()
    }
}

impl LightClientBlockLiteView {
    /// The hash that identifies the header: the digest of the committed inner
    /// fields, combined with the hash of the remaining fields, and that
    /// combined with the hash of the previous block.
    pub open spec fn spec_hash(self) -> crate::Hash {
        spec_combine(
            spec_combine(sha256(self.inner_lite.committed().canonical()), self.inner_rest_hash),
            self.prev_block_hash,
        )
    }

    /// Computes the identifying hash anew from the three parts of the header.
    pub fn hash(&self) -> (digest: crate::Hash)
        ensures
            digest == self.spec_hash(),
    {
        let block_header_inner_lite = BlockHeaderInnerLite::from(self.inner_lite.duplicate());
        combine_hash(
            &combine_hash(&hash_borsh(block_header_inner_lite), &self.inner_rest_hash),
            &self.prev_block_hash,
        )
    }

    /// A copy of the header.
    pub fn duplicate(&self) -> (copy: Self)
        ensures
            copy == *self,
    {
        LightClientBlockLiteView {
            prev_block_hash: self.prev_block_hash,
            inner_rest_hash: self.inner_rest_hash,
            inner_lite: self.inner_lite.duplicate(),
        }
    }
}

/// The encoding of the committed fields determines each of them.
pub proof fn lemma_inner_lite_encoding_injective(a: BlockHeaderInnerLite, b: BlockHeaderInnerLite)
    requires
        a.canonical() == b.canonical(),
    ensures
        a == b,
{
    lemma_auto_spec_u64_to_from_le_bytes();
    let a1 = spec_u64_to_le_bytes(a.height);
    let b1 = spec_u64_to_le_bytes(b.height);
    let a2 = a1 + a.epoch_id@;
    let b2 = b1 + b.epoch_id@;
    let a3 = a2 + a.next_epoch_id@;
    let b3 = b2 + b.next_epoch_id@;
    let a4 = a3 + a.prev_state_root@;
    let b4 = b3 + b.prev_state_root@;
    let a5 = a4 + a.prev_outcome_root@;
    let b5 = b4 + b.prev_outcome_root@;
    let a6 = a5 + spec_u64_to_le_bytes(a.timestamp);
    let b6 = b5 + spec_u64_to_le_bytes(b.timestamp);
    let a7 = a6 + a.next_bp_hash@;
    let b7 = b6 + b.next_bp_hash@;
    lemma_concat_split(a7, a.block_merkle_root@, b7, b.block_merkle_root@);
    lemma_concat_split(a6, a.next_bp_hash@, b6, b.next_bp_hash@);
    lemma_concat_split(
        a5,
        spec_u64_to_le_bytes(a.timestamp),
        b5,
        spec_u64_to_le_bytes(b.timestamp),
    );
    lemma_concat_split(a4, a.prev_outcome_root@, b4, b.prev_outcome_root@);
    lemma_concat_split(a3, a.prev_state_root@, b3, b.prev_state_root@);
    lemma_concat_split(a2, a.next_epoch_id@, b2, b.next_epoch_id@);
    lemma_concat_split(a1, a.epoch_id@, b1, b.epoch_id@);
    assert(a.height == b.height);
    assert(a.timestamp == b.timestamp);
    lemma_array_of_bytes(a.epoch_id, b.epoch_id);
    lemma_array_of_bytes(a.next_epoch_id, b.next_epoch_id);
    lemma_array_of_bytes(a.prev_state_root, b.prev_state_root);
    lemma_array_of_bytes(a.prev_outcome_root, b.prev_outcome_root);
    lemma_array_of_bytes(a.next_bp_hash, b.next_bp_hash);
    lemma_array_of_bytes(a.block_merkle_root, b.block_merkle_root);
}

/// The identifying hash binds every part of a header that it commits to:
/// two headers with one identifying hash that differ in a committed inner
/// field, in the hash of the remaining fields or in the hash of the previous
/// block contain two different byte strings with the same SHA-256 digest,
/// and the proof hands them out.
pub proof fn law_header_hash_binds(a: LightClientBlockLiteView, b: LightClientBlockLiteView) -> (found:
    (Seq<u8>, Seq<u8>))
    requires
        a.spec_hash() == b.spec_hash(),
        a.inner_lite.committed() != b.inner_lite.committed() || a.inner_rest_hash
            != b.inner_rest_hash || a.prev_block_hash != b.prev_block_hash,
    ensures
        sha256_collision(found.0, found.1),
{
    let a_inner = a.inner_lite.committed().canonical();
    let b_inner = b.inner_lite.committed().canonical();
    let a_mid = sha256(a_inner)@ + a.inner_rest_hash@;
    let b_mid = sha256(b_inner)@ + b.inner_rest_hash@;
    let a_top = sha256(a_mid)@ + a.prev_block_hash@;
    let b_top = sha256(b_mid)@ + b.prev_block_hash@;
    if a_top != b_top {
        (a_top, b_top)
    } else {
        lemma_concat_split(sha256(a_mid)@, a.prev_block_hash@, sha256(b_mid)@, b.prev_block_hash@);
        lemma_array_of_bytes(a.prev_block_hash, b.prev_block_hash);
        lemma_array_of_bytes(sha256(a_mid), sha256(b_mid));
        if a_mid != b_mid {
            (a_mid, b_mid)
        } else {
            lemma_concat_split(
                sha256(a_inner)@,
                a.inner_rest_hash@,
                sha256(b_inner)@,
                b.inner_rest_hash@,
            );
            lemma_array_of_bytes(a.inner_rest_hash, b.inner_rest_hash);
            lemma_array_of_bytes(sha256(a_inner), sha256(b_inner));
            if a_inner == b_inner {
                lemma_inner_lite_encoding_injective(
                    a.inner_lite.committed(),
                    b.inner_lite.committed(),
                );
            }
            (a_inner, b_inner)
        }
    }
}

} // verus!

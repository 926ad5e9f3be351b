//! Proof verification for a light client of a proof-of-stake chain.
//!
//! A verifier keeps a small trusted checkpoint and advances it one block at a
//! time, and it checks that a transaction's execution outcome is committed
//! under a header it already trusts. Every function here is verified against
//! a contract stated over the crate's spec functions.

use vstd::prelude::*;

pub mod encoding;
pub mod finality;
pub mod header;
pub mod inclusion;
pub mod merkle;
pub mod outcome;
pub mod signature;
pub mod validator;

pub use encoding::CanonicalBytes;
pub use finality::{advance, tally_stake, Checkpoint, FinalityError, LightClientBlockView};
pub use header::{BlockHeaderInnerLite, BlockHeaderInnerLiteView, LightClientBlockLiteView};
pub use merkle::{
    combine_hash, compute_root_from_path, compute_root_from_path_and_item, digest_canonical, hash,
    hash_borsh, same_hash, verify_hash, Direction, MerklePath, MerklePathItem,
};
pub use outcome::{
    ActionError, ExecutionOutcomeView, ExecutionOutcomeWithIdView, ExecutionStatusView,
    PartialExecutionOutcome, PartialExecutionStatus, TxExecutionError,
};
pub use inclusion::{
    verify_inclusion, InclusionError, LcProof, RpcLightClientExecutionProofResponse,
};
pub use signature::{ApprovalInner, MalformedInput, Signature};
pub use validator::{StakeInfo, ValidatorStake, ValidatorStakeView, ValidatorStakeViewV1};

verus! {

/// The height of a block in the chain.
pub type BlockHeight = u64;

/// A 32-byte digest.
pub type Hash = [u8; 32];

/// The digest that names an epoch.
pub type EpochId = Hash;

/// An amount of stake or of tokens.
pub type Balance = u128;

/// The name of an account.
pub type AccountId = String;

/// A digest that names a node of a Merkle tree.
pub type MerkleHash = Hash;

/// The 32 bytes of an Ed25519 public key.
pub type PublicKey = [u8; 32];

/// A light block header.
pub type Header = LightClientBlockLiteView;

/// A proof that an execution outcome is included.
pub type BasicProof = RpcLightClientExecutionProofResponse;

} // verus!

//! The inclusion check: whether an execution outcome is committed under a
//! header that the trusted running root contains.

use crate::finality::Checkpoint;
use crate::header::LightClientBlockLiteView;
use crate::merkle::{path_verifies, verify_hash, MerklePath};
use crate::outcome::{ExecutionOutcomeView, ExecutionOutcomeWithIdView};
use vstd::prelude::*;
use vstd::std_specs::convert::FromSpecImpl;

verus! {

/// A proof that an outcome is included: the outcome with its id, the path
/// from its leaf to the outcome root of a header, that header, and the path
/// from the header's hash to a root of block hashes.
#[derive(Debug)]
pub struct RpcLightClientExecutionProofResponse {
    pub outcome_proof: ExecutionOutcomeWithIdView,
    pub outcome_root_proof: MerklePath,
    pub block_header_lite: LightClientBlockLiteView,
    pub block_proof: MerklePath,
}

/// A proof together with the root of block hashes that it is to be checked
/// against.
#[derive(Debug)]
pub enum LcProof {
    Basic { head_block_root: crate::Hash, proof: Box<RpcLightClientExecutionProofResponse> },
}

/// Why an inclusion proof was refused.
#[derive(Debug, Clone, Copy, PartialEq, Eq, Structural)]
pub enum InclusionError {
    /// The outcome cannot be committed to: a length in it does not fit the
    /// four bytes that the layout gives it.
    MalformedInput,
    /// A computed root is not the expected one.
    MerklePathMismatch,
}

impl RpcLightClientExecutionProofResponse {
    /// The leaf of the outcome leads to the outcome root that the proof's
    /// own header commits to.
    pub open spec fn outcome_committed(self) -> bool {
        path_verifies(
            self.block_header_lite.inner_lite.outcome_root,
            self.outcome_root_proof@,
            self.outcome_proof.outcome@.leaf(self.outcome_proof.id),
        )
    }

    /// The hash of the proof's header leads to `block_merkle_root`.
    pub open spec fn header_committed(self, block_merkle_root: crate::Hash) -> bool {
        path_verifies(block_merkle_root, self.block_proof@, self.block_header_lite.spec_hash())
    }

    /// The reason for which the proof is refused against `block_merkle_root`;
    /// `None` where it is accepted. Both paths have to verify.
    pub open spec fn rejection(self, block_merkle_root: crate::Hash) -> Option<InclusionError> {
        if !self.outcome_proof.outcome@.committable() {
            Some(InclusionError::MalformedInput)
        } else if !self.outcome_committed() || !self.header_committed(block_merkle_root) {
            Some(InclusionError::MerklePathMismatch)
        } else {
            None
        }
    }

    /// Checks the proof against `block_merkle_root` and hands out the outcome
    /// that it proves.
    pub fn verify(self, block_merkle_root: &crate::Hash) -> (verified: Result<
        ExecutionOutcomeView,
        InclusionError,
    >)
        ensures
            match verified {
                Ok(outcome) => self.rejection(*block_merkle_root) is None && outcome
                    == self.outcome_proof.outcome,
                Err(error) => self.rejection(*block_merkle_root) == Some(error),
            },
    {
        if !self.outcome_proof.outcome.is_committable() {
            return Err(InclusionError::MalformedInput);
        }
        let leaf = self.outcome_proof.outcome.leaf_hash(self.outcome_proof.id);
        if !verify_hash(
            self.block_header_lite.inner_lite.outcome_root,
            self.outcome_root_proof.as_slice(),
            leaf,
        ) {
            return Err(InclusionError::MerklePathMismatch);
        }
        let header_hash = self.block_header_lite.hash();
        if !verify_hash(*block_merkle_root, self.block_proof.as_slice(), header_hash) {
            return Err(InclusionError::MerklePathMismatch);
        }
        Ok(self.outcome_proof.outcome)
    }
}

/// Checks the proof against the running root of the trusted checkpoint and
/// hands out the outcome that it proves.
pub fn verify_inclusion(trusted: &Checkpoint, inclusion: RpcLightClientExecutionProofResponse) -> (verified:
    Result<ExecutionOutcomeView, InclusionError>)
    ensures
        match verified {
            Ok(outcome) => inclusion.rejection(trusted.block_merkle_root) is None && outcome
                == inclusion.outcome_proof.outcome,
            Err(error) => inclusion.rejection(trusted.block_merkle_root) == Some(error),
        },
{
    inclusion.verify(&trusted.block_merkle_root)
}

impl From<(crate::Hash, RpcLightClientExecutionProofResponse)> for LcProof {
    fn from(parts: (crate::Hash, RpcLightClientExecutionProofResponse)) -> (wrapped: Self) {
        Self::Basic { head_block_root: parts.0, proof: Box::new(parts.1) }
    }
}

impl FromSpecImpl<(crate::Hash, RpcLightClientExecutionProofResponse)> for LcProof {
    open spec fn obeys_from_spec() -> bool {
        true
    }

    /// The proof with the root that it is to be checked against.
    open spec fn from_spec(parts: (crate::Hash, RpcLightClientExecutionProofResponse)) -> Self {
        LcProof::Basic { head_block_root: parts.0, proof: Box::new(parts.1) }
    }
}

impl LcProof {
    /// The root that the proof is to be checked against.
    pub fn block_merkle_root(&self) -> (root: &crate::Hash)
        ensures
            root == self->head_block_root,
    {
        match self {
            Self::Basic { head_block_root, .. } => head_block_root,
        }
    }

    /// Checks the proof against the root that it carries and hands out the
    /// outcome that it proves.
    pub fn verify(self) -> (verified: Result<ExecutionOutcomeView, InclusionError>)
        ensures
            match verified {
                Ok(outcome) => self->proof.rejection(self->head_block_root) is None && outcome
                    == self->proof.outcome_proof.outcome,
                Err(error) => self->proof.rejection(self->head_block_root) == Some(error),
            },
    {
        match self {
            Self::Basic { head_block_root, proof: boxed } => {
                let inclusion: RpcLightClientExecutionProofResponse = *boxed;
                inclusion.verify(&head_block_root)
            },
        }
    }
}

/// A proof is accepted only where both of its paths verify: the outcome's
/// leaf against the outcome root of the proof's own header, and that
/// header's hash against the trusted root.
pub proof fn law_accepted_proof_is_committed(
    inclusion: RpcLightClientExecutionProofResponse,
    block_merkle_root: crate::Hash,
)
    ensures
        inclusion.rejection(block_merkle_root) is None
            <==> inclusion.outcome_proof.outcome@.committable() && inclusion.outcome_committed()
            && inclusion.header_committed(block_merkle_root),
{
}

} // verus!

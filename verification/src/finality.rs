//! The finality check: whether a proposed block legitimately succeeds a
//! trusted checkpoint, and the checkpoint that follows if it does.

use crate::encoding::CanonicalBytes;
use crate::header::{BlockHeaderInnerLiteView, LightClientBlockLiteView};
use crate::merkle::{combine_hash, digest_canonical, same_hash, sha256, spec_combine};
use crate::signature::{ed25519_accepts, ApprovalInner, Signature};
use crate::validator::{StakeInfo, ValidatorStakeView};
use vstd::prelude::*;

verus! {

/// A proposed next block with the approvals of it: untrusted evidence.
#[derive(PartialEq, Eq, Debug, Clone)]
pub struct LightClientBlockView {
    pub prev_block_hash: crate::Hash,
    pub next_block_inner_hash: crate::Hash,
    pub inner_lite: BlockHeaderInnerLiteView,
    pub inner_rest_hash: crate::Hash,
    /// The validators of the next epoch, where the block announces them.
    pub next_bps: Option<Vec<ValidatorStakeView>>,
    /// One slot for each validator of the current epoch, in their order;
    /// `None` where a validator did not approve.
    pub approvals_after_next: Vec<Option<Box<Signature>>>,
}

/// The trusted state of a light client.
#[derive(Debug, Clone)]
pub struct Checkpoint {
    /// The newest header that is trusted.
    pub header: LightClientBlockLiteView,
    /// The validators whose approvals decide on the next block.
    pub validators: Vec<ValidatorStakeView>,
    /// The running Merkle root over the hashes of the blocks seen so far.
    pub block_merkle_root: crate::Hash,
}

/// Why evidence was refused.
#[derive(Debug, Clone, Copy, PartialEq, Eq, Structural)]
pub enum FinalityError {
    /// The evidence is not at a greater height than the trusted header.
    NonMonotonicHeight,
    /// The evidence does not build on the trusted header.
    DiscontinuousChain,
    /// The evidence does not have the shape that the checkpoint asks for.
    MalformedInput,
    /// A signature that is present is not accepted.
    InvalidSignature,
    /// The signatures are accepted, but the stake behind them is not more
    /// than two thirds of the total.
    InsufficientStake,
    /// The hash of the announced validators is not the one committed to.
    ValidatorSetMismatch,
}

/// What a `Checkpoint` holds.
pub struct CheckpointModel {
    pub header: LightClientBlockLiteView,
    pub validators: Seq<ValidatorStakeView>,
    pub block_merkle_root: crate::Hash,
}

impl View for Checkpoint {
    type V = CheckpointModel;

    open spec fn view(&self) -> CheckpointModel {
        CheckpointModel {
            header: self.header,
            validators: self.validators@,
            block_merkle_root: self.block_merkle_root,
        }
    }
}

/// The sum of the stakes of the validators.
pub open spec fn total_stake(validators: Seq<ValidatorStakeView>) -> nat
    decreases validators.len(),
{
    if validators.len() == 0 {
        0
    } else {
        total_stake(validators.drop_last()) + validators.last().validator().stake as nat
    }
}

/// The sum of the stakes of the validators whose slot holds a signature.
pub open spec fn approved_stake(
    validators: Seq<ValidatorStakeView>,
    approvals: Seq<Option<Box<Signature>>>,
) -> nat
    recommends
        validators.len() == approvals.len(),
    decreases validators.len(),
{
    if validators.len() == 0 {
        0
    } else {
        approved_stake(validators.drop_last(), approvals.drop_last()) + if approvals.last()
            is Some {
            validators.last().validator().stake as nat
        } else {
            0
        }
    }
}

/// The slot is empty, or its signature is one of `message` under the key of
/// the validator.
pub open spec fn slot_accepted(
    validator: ValidatorStakeView,
    slot: Option<Box<Signature>>,
    message: Seq<u8>,
) -> bool {
    match slot {
        Some(signature) => ed25519_accepts(validator.validator().public_key@, message, signature.0@),
        None => true,
    }
}

/// Every signature that is present is accepted for its validator.
pub open spec fn signatures_accepted(
    validators: Seq<ValidatorStakeView>,
    approvals: Seq<Option<Box<Signature>>>,
    message: Seq<u8>,
) -> bool {
    forall|i: int|
        0 <= i < validators.len() ==> #[trigger] slot_accepted(validators[i], approvals[i], message)
}

/// The bytes that an approval of the block with hash `block_hash` signs: the
/// encoding of the endorsement of that hash.
pub open spec fn approval_message(block_hash: crate::Hash) -> Seq<u8> {
    ApprovalInner::Endorsement(block_hash).canonical()
}

impl LightClientBlockView {
    /// The evidence viewed as a header.
    pub open spec fn spec_header(self) -> LightClientBlockLiteView {
        LightClientBlockLiteView {
            prev_block_hash: self.prev_block_hash,
            inner_rest_hash: self.inner_rest_hash,
            inner_lite: self.inner_lite,
        }
    }

    /// The evidence viewed as a header.
    pub fn header(&self) -> (header: LightClientBlockLiteView)
        ensures
            header == self.spec_header(),
    {
        LightClientBlockLiteView {
            prev_block_hash: self.prev_block_hash,
            inner_rest_hash: self.inner_rest_hash,
            inner_lite: self.inner_lite.duplicate(),
        }
    }
}

/// The evidence has the shape that the checkpoint asks for: one slot for
/// each trusted validator, a total stake that 128 bits hold, and announced
/// validators, if any, that have an encoding.
pub open spec fn evidence_well_formed(trusted: CheckpointModel, evidence: LightClientBlockView) -> bool {
    &&& evidence.approvals_after_next@.len() == trusted.validators.len()
    &&& total_stake(trusted.validators) <= u128::MAX
    &&& (evidence.next_bps matches Some(next_bps) ==> next_bps.encodable())
}

/// The hash of the announced validators is the one that the evidence commits
/// to, where validators are announced.
pub open spec fn announced_validators_match(evidence: LightClientBlockView) -> bool {
    evidence.next_bps matches Some(next_bps) ==> sha256(next_bps.canonical())
        == evidence.inner_lite.next_bp_hash
}

/// The first reason, in the order of the checks, for which the evidence is
/// refused; `None` where it is accepted.
pub open spec fn rejection(trusted: CheckpointModel, evidence: LightClientBlockView) -> Option<
    FinalityError,
> {
    let message = approval_message(evidence.spec_header().spec_hash());
    if evidence.inner_lite.height <= trusted.header.inner_lite.height {
        Some(FinalityError::NonMonotonicHeight)
    } else if evidence.prev_block_hash != trusted.header.spec_hash() {
        Some(FinalityError::DiscontinuousChain)
    } else if !evidence_well_formed(trusted, evidence) {
        Some(FinalityError::MalformedInput)
    } else if !signatures_accepted(trusted.validators, evidence.approvals_after_next@, message) {
        Some(FinalityError::InvalidSignature)
    } else if !StakeInfo::quorum(
        total_stake(trusted.validators),
        approved_stake(trusted.validators, evidence.approvals_after_next@),
    ) {
        Some(FinalityError::InsufficientStake)
    } else if !announced_validators_match(evidence) {
        Some(FinalityError::ValidatorSetMismatch)
    } else {
        None
    }
}

/// The checkpoint that follows when the evidence is accepted: the header of
/// the evidence, the announced validators where there are any and the
/// trusted ones where not, and the running root combined with the hash of
/// the new header.
pub open spec fn successor(trusted: CheckpointModel, evidence: LightClientBlockView) -> CheckpointModel {
    CheckpointModel {
        header: evidence.spec_header(),
        validators: match evidence.next_bps {
            Some(next_bps) => next_bps@,
            None => trusted.validators,
        },
        block_merkle_root: spec_combine(
            trusted.block_merkle_root,
            evidence.spec_header().spec_hash(),
        ),
    }
}

/// The stake of the first validators of a list is part of the stake of all.
pub proof fn lemma_total_stake_prefix(validators: Seq<ValidatorStakeView>, i: int)
    requires
        0 <= i <= validators.len(),
    ensures
        total_stake(validators.take(i)) <= total_stake(validators),
        i < validators.len() ==> total_stake(validators.take(i + 1)) == total_stake(
            validators.take(i),
        ) + validators[i].validator().stake,
    decreases validators.len() - i,
{
    if i == validators.len() {
        assert(validators.take(i) == validators);
    } else {
        assert(validators.take(i + 1).drop_last() == validators.take(i));
        lemma_total_stake_prefix(validators, i + 1);
    }
}

/// The stake that approved is part of the total stake.
pub proof fn lemma_approved_within_total(
    validators: Seq<ValidatorStakeView>,
    approvals: Seq<Option<Box<Signature>>>,
)
    requires
        validators.len() == approvals.len(),
    ensures
        approved_stake(validators, approvals) <= total_stake(validators),
    decreases validators.len(),
{
    if validators.len() > 0 {
        lemma_approved_within_total(validators.drop_last(), approvals.drop_last());
    }
}

/// The total stake of the validators, where 128 bits hold it.
pub fn sum_stake(validators: &[ValidatorStakeView]) -> (total: Option<u128>)
    ensures
        match total {
            Some(sum) => sum == total_stake(validators@),
            None => total_stake(validators@) > u128::MAX,
        },
{
    let mut sum: u128 = 0;
    let mut i: usize = 0;
    while i < validators.len()
        invariant
            i <= validators.len(),
            sum == total_stake(validators@.take(i as int)),
        decreases validators.len() - i,
    {
        proof {
            lemma_total_stake_prefix(validators@, i as int);
            lemma_total_stake_prefix(validators@, i + 1);
        }
        match sum.checked_add(validators[i].stake()) {
            Some(next) => {
                sum = next;
            },
            None => {
                return None;
            },
        }
        i += 1;
    }
    assert(validators@.take(validators.len() as int) == validators@);
    Some(sum)
}

/// Checks every signature that is present against `message` and the key of
/// its validator, and adds up the stake. A signature that is not accepted
/// refuses the whole; an empty slot only adds nothing to the approved stake.
pub fn tally_stake(
    validators: &[ValidatorStakeView],
    approvals: &[Option<Box<Signature>>],
    message: &[u8],
) -> (tally: Result<StakeInfo, FinalityError>)
    ensures
        match tally {
            Ok(info) => {
                &&& validators@.len() == approvals@.len()
                &&& total_stake(validators@) <= u128::MAX
                &&& signatures_accepted(validators@, approvals@, message@)
                &&& info.total == total_stake(validators@)
                &&& info.approved == approved_stake(validators@, approvals@)
            },
            Err(FinalityError::MalformedInput) => validators@.len() != approvals@.len()
                || total_stake(validators@) > u128::MAX,
            Err(FinalityError::InvalidSignature) => {
                &&& validators@.len() == approvals@.len()
                &&& total_stake(validators@) <= u128::MAX
                &&& !signatures_accepted(validators@, approvals@, message@)
            },
            Err(_) => false,
        },
{
    if validators.len() != approvals.len() {
        return Err(FinalityError::MalformedInput);
    }
    let total = match sum_stake(validators) {
        Some(total) => total,
        None => {
            return Err(FinalityError::MalformedInput);
        },
    };
    let mut approved: u128 = 0;
    let mut i: usize = 0;
    while i < validators.len()
        invariant
            i <= validators.len(),
            validators@.len() == approvals@.len(),
            total == total_stake(validators@),
            approved == approved_stake(validators@.take(i as int), approvals@.take(i as int)),
            forall|j: int|
                0 <= j < i ==> #[trigger] slot_accepted(validators@[j], approvals@[j], message@),
        decreases validators.len() - i,
    {
        proof {
            lemma_total_stake_prefix(validators@, i + 1);
            lemma_approved_within_total(
                validators@.take(i + 1),
                approvals@.take(i + 1),
            );
            assert(validators@.take(i + 1).drop_last() == validators@.take(i as int));
            assert(approvals@.take(i + 1).drop_last() == approvals@.take(i as int));
        }
        match &approvals[i] {
            Some(signature) => {
                if !signature.verify(message, validators[i].public_key()) {
                    assert(!slot_accepted(validators@[i as int], approvals@[i as int], message@));
                    return Err(FinalityError::InvalidSignature);
                }
                approved = approved + validators[i].stake();
            },
            None => {},
        }
        i += 1;
    }
    assert(validators@.take(validators.len() as int) == validators@);
    assert(approvals@.take(validators.len() as int) == approvals@);
    Ok(StakeInfo { total, approved })
}

/// A copy of the validators.
pub fn copy_validators(validators: &[ValidatorStakeView]) -> (copy: Vec<ValidatorStakeView>)
    ensures
        copy@ == validators@,
{
    let mut copy: Vec<ValidatorStakeView> = Vec::new();
    let mut i: usize = 0;
    while i < validators.len()
        invariant
            i <= validators.len(),
            copy@ == validators@.take(i as int),
        decreases validators.len() - i,
    {
        copy.push(validators[i].duplicate());
        assert(validators@.take(i + 1) == validators@.take(i as int).push(validators@[i as int]));
        i += 1;
    }
    assert(validators@.take(validators.len() as int) == validators@);
    copy
}

/// The bytes that an approval of the block with hash `block_hash` signs.
pub fn approval_bytes(block_hash: &crate::Hash) -> (message: Vec<u8>)
    ensures
        message@ == approval_message(*block_hash),
{
    let mut message: Vec<u8> = Vec::new();
    ApprovalInner::Endorsement(*block_hash).write_canonical(&mut message);
    assert(message@ == approval_message(*block_hash));
    message
}

/// Decides whether the evidence is a legitimate successor of the trusted
/// checkpoint and, if it is, returns the checkpoint that follows. The
/// trusted checkpoint itself is never changed. The checks run in this order,
/// and the first that fails names the error: the height is greater than the
/// trusted one; the evidence builds on the trusted header; the evidence has
/// the shape that the checkpoint asks for; every signature that is present
/// is accepted; the approving stake is more than two thirds of the total;
/// announced validators hash to what the evidence commits to.
///
/// Where the evidence announces no validators, the trusted ones stay. If the
/// evidence opens a new epoch, the caller has to know by other means that
/// they are the validators of that epoch: nothing here checks it.
pub fn advance(trusted: &Checkpoint, evidence: &LightClientBlockView) -> (next: Result<
    Checkpoint,
    FinalityError,
>)
    ensures
        match next {
            Ok(checkpoint) => rejection(trusted@, *evidence) is None && checkpoint@ == successor(
                trusted@,
                *evidence,
            ),
            Err(error) => rejection(trusted@, *evidence) == Some(error),
        },
{
    if evidence.inner_lite.height <= trusted.header.inner_lite.height {
        return Err(FinalityError::NonMonotonicHeight);
    }
    let trusted_hash = trusted.header.hash();
    if !same_hash(&evidence.prev_block_hash, &trusted_hash) {
        return Err(FinalityError::DiscontinuousChain);
    }
    if evidence.approvals_after_next.len() != trusted.validators.len() {
        return Err(FinalityError::MalformedInput);
    }
    if sum_stake(trusted.validators.as_slice()).is_none() {
        return Err(FinalityError::MalformedInput);
    }
    match &evidence.next_bps {
        Some(next_bps) => {
            if !next_bps.is_encodable() {
                return Err(FinalityError::MalformedInput);
            }
        },
        None => {},
    }
    let header = evidence.header();
    let next_hash = header.hash();
    let message = approval_bytes(&next_hash);
    let info = match tally_stake(
        trusted.validators.as_slice(),
        evidence.approvals_after_next.as_slice(),
        message.as_slice(),
    ) {
        Ok(info) => info,
        Err(error) => {
            return Err(error);
        },
    };
    if !info.has_quorum() {
        return Err(FinalityError::InsufficientStake);
    }
    let validators = match &evidence.next_bps {
        Some(next_bps) => {
            let announced = digest_canonical(next_bps);
            if !same_hash(&announced, &evidence.inner_lite.next_bp_hash) {
                return Err(FinalityError::ValidatorSetMismatch);
            }
            copy_validators(next_bps.as_slice())
        },
        None => copy_validators(trusted.validators.as_slice()),
    };
    let block_merkle_root = combine_hash(&trusted.block_merkle_root, &next_hash);
    Ok(Checkpoint { header, validators, block_merkle_root })
}

impl Checkpoint {
    pub fn new(
        header: LightClientBlockLiteView,
        validators: Vec<ValidatorStakeView>,
        block_merkle_root: crate::Hash,
    ) -> (checkpoint: Self)
        ensures
            checkpoint.header == header,
            checkpoint.validators == validators,
            checkpoint.block_merkle_root == block_merkle_root,
    {
        Checkpoint { header, validators, block_merkle_root }
    }
}

/// Evidence at or below the trusted height is refused for its height,
/// whatever its signatures are.
pub proof fn law_stale_height_rejected(trusted: CheckpointModel, evidence: LightClientBlockView)
    requires
        evidence.inner_lite.height <= trusted.header.inner_lite.height,
    ensures
        rejection(trusted, evidence) == Some(FinalityError::NonMonotonicHeight),
{
}

/// Evidence that holds a signature which is not accepted for the validator
/// of its slot is refused, however much stake the other signatures carry.
pub proof fn law_forged_signature_rejected(
    trusted: CheckpointModel,
    evidence: LightClientBlockView,
    slot: int,
)
    requires
        0 <= slot < trusted.validators.len(),
        slot < evidence.approvals_after_next@.len(),
        !slot_accepted(
            trusted.validators[slot],
            evidence.approvals_after_next@[slot],
            approval_message(evidence.spec_header().spec_hash()),
        ),
    ensures
        rejection(trusted, evidence) is Some,
        rejection(trusted, evidence) != Some(FinalityError::InsufficientStake),
        rejection(trusted, evidence) != Some(FinalityError::ValidatorSetMismatch),
{
}

/// Evidence whose approving stake is exactly two thirds of the total is
/// refused, and it is refused for want of stake where nothing else is wrong
/// with it.
pub proof fn law_exact_two_thirds_rejected(trusted: CheckpointModel, evidence: LightClientBlockView)
    requires
        approved_stake(trusted.validators, evidence.approvals_after_next@) * 3 == total_stake(
            trusted.validators,
        ) * 2,
    ensures
        rejection(trusted, evidence) is Some,
        evidence.inner_lite.height > trusted.header.inner_lite.height && evidence.prev_block_hash
            == trusted.header.spec_hash() && evidence_well_formed(trusted, evidence)
            && signatures_accepted(
            trusted.validators,
            evidence.approvals_after_next@,
            approval_message(evidence.spec_header().spec_hash()),
        ) ==> rejection(trusted, evidence) == Some(FinalityError::InsufficientStake),
{
}

/// A checkpoint that follows a trusted one stands at a greater height,
/// builds on the trusted header, and changes the validators only to a set
/// whose hash the accepted evidence commits to.
pub proof fn law_successor_moves_forward(trusted: CheckpointModel, evidence: LightClientBlockView)
    requires
        rejection(trusted, evidence) is None,
    ensures
        successor(trusted, evidence).header.inner_lite.height > trusted.header.inner_lite.height,
        successor(trusted, evidence).header.prev_block_hash == trusted.header.spec_hash(),
        successor(trusted, evidence).validators != trusted.validators ==> (evidence.next_bps
            matches Some(next_bps) && sha256(next_bps.canonical())
            == evidence.inner_lite.next_bp_hash),
{
}

} // verus!

//! Validators and the stake behind them.

use crate::encoding::CanonicalBytes;
use crate::{AccountId, Balance, PublicKey};
use vstd::bytes::spec_u128_to_le_bytes;
use vstd::prelude::*;
use vstd::std_specs::convert::FromSpecImpl;

verus! {

/// A validator and its stake.
#[derive(Debug, Clone, PartialEq, Eq)]
pub struct ValidatorStake {
    /// Account that stakes money.
    pub account_id: AccountId,
    /// Public key of the validator.
    pub public_key: PublicKey,
    /// Stake of the validator.
    pub stake: Balance,
}

/// The first version of a validator's record.
#[derive(Debug, Clone, Eq, PartialEq)]
pub struct ValidatorStakeViewV1 {
    pub account_id: AccountId,
    pub public_key: PublicKey,
    pub stake: Balance,
}

/// A validator's record, by version.
#[derive(Debug, Clone, Eq, PartialEq)]
pub enum ValidatorStakeView {
    V1(ValidatorStakeViewV1),
}

/// The stake of an epoch and the part of it that approved a block.
#[derive(Debug, Clone, PartialEq, Eq)]
pub struct StakeInfo {
    pub total: u128,
    pub approved: u128,
}

impl ValidatorStake {
    pub fn new(account_id: AccountId, public_key: PublicKey, stake: Balance) -> (validator: Self)
        ensures
            validator.account_id == account_id,
            validator.public_key == public_key,
            validator.stake == stake,
    {
        Self { account_id, public_key, stake }
    }
}

impl ValidatorStakeViewV1 {
    pub fn new(account_id: AccountId, public_key: PublicKey, stake: Balance) -> (record: Self)
        ensures
            record.account_id == account_id,
            record.public_key == public_key,
            record.stake == stake,
    {
        Self { account_id, public_key, stake }
    }
}

impl ValidatorStakeView {
    /// The validator that the record describes.
    pub open spec fn validator(self) -> ValidatorStake {
        match self {
            ValidatorStakeView::V1(v1) => ValidatorStake {
                account_id: v1.account_id,
                public_key: v1.public_key,
                stake: v1.stake,
            },
        }
    }

    pub fn new(account_id: AccountId, public_key: PublicKey, stake: Balance) -> (record: Self)
        ensures
            record == ValidatorStakeView::V1(ValidatorStakeViewV1 { account_id, public_key, stake }),
    {
        Self::V1(ValidatorStakeViewV1::new(account_id, public_key, stake))
    }

    pub fn into_validator_stake(self) -> (validator: ValidatorStake)
        ensures
            validator == self.validator(),
    {
        ValidatorStake::from(self)
    }

    pub fn take_account_id(self) -> (account_id: AccountId)
        ensures
            account_id == self.validator().account_id,
    {
        match self {
            Self::V1(v1) => v1.account_id,
        }
    }

    pub fn account_id(&self) -> (account_id: &AccountId)
        ensures
            *account_id == self.validator().account_id,
    {
        match self {
            Self::V1(v1) => &v1.account_id,
        }
    }

    /// The key that the validator signs with.
    pub fn public_key(&self) -> (public_key: &PublicKey)
        ensures
            *public_key == self.validator().public_key,
    {
        match self {
            Self::V1(v1) => &v1.public_key,
        }
    }

    /// The stake behind the validator.
    pub fn stake(&self) -> (stake: Balance)
        ensures
            stake == self.validator().stake,
    {
        match self {
            Self::V1(v1) => v1.stake,
        }
    }

    /// A copy of the record.
    pub fn duplicate(&self) -> (copy: Self)
        ensures
            copy == *self,
    {
        match self {
            Self::V1(v1) => Self::V1(
                ValidatorStakeViewV1 {
                    account_id: v1.account_id.clone(),
                    public_key: v1.public_key,
                    stake: v1.stake,
                },
            ),
        }
    }
}

impl From<ValidatorStakeView> for ValidatorStake {
    fn from(view: ValidatorStakeView) -> (validator: Self) {
        match view {
            ValidatorStakeView::V1(v1) => Self::new(v1.account_id, v1.public_key, v1.stake),
        }
    }
}

impl FromSpecImpl<ValidatorStakeView> for ValidatorStake {
    open spec fn obeys_from_spec() -> bool {
        true
    }

    open spec fn from_spec(view: ValidatorStakeView) -> Self {
        view.validator()
    }
}

impl CanonicalBytes for ValidatorStakeViewV1 {
    open spec fn encodable(&self) -> bool {
        self.account_id.encodable()
    }

    open spec fn canonical(&self) -> Seq<u8> {
        self.account_id.canonical() + self.public_key@ + spec_u128_to_le_bytes(self.stake)
    }

    fn is_encodable(&self) -> (ok: bool) {
        self.account_id.is_encodable()
    }

    fn write_canonical(&self, out: &mut Vec<u8>) {
        self.account_id.write_canonical(out);
        self.public_key.write_canonical(out);
        self.stake.write_canonical(out);
        assert(out@ =~= old(out)@ + self.canonical());
    }
}

impl CanonicalBytes for ValidatorStakeView {
    open spec fn encodable(&self) -> bool {
        match *self {
            ValidatorStakeView::V1(v1) => v1.encodable(),
        }
    }

    /// The tag of the version, then the record.
    open spec fn canonical(&self) -> Seq<u8> {
        match *self {
            ValidatorStakeView::V1(v1) => seq![0u8] + v1.canonical(),
        }
    }

    fn is_encodable(&self) -> (ok: bool) {
        match self {
            ValidatorStakeView::V1(v1) => v1.is_encodable(),
        }
    }

    fn write_canonical(&self, out: &mut Vec<u8>) {
        match self {
            ValidatorStakeView::V1(v1) => {
                out.push(0u8);
                v1.write_canonical(out);
                assert(out@ =~= old(out)@ + (seq![0u8] + v1.canonical()));
            },
        }
    }
}

impl StakeInfo {
    /// Strictly more than two thirds of the total approved.
    pub open spec fn quorum(total: nat, approved: nat) -> bool {
        approved * 3 > total * 2
    }

    /// Whether the approved stake is strictly more than two thirds of the
    /// total. The comparison is exact for every pair of amounts.
    pub fn has_quorum(&self) -> (reached: bool)
        ensures
            reached == Self::quorum(self.total as nat, self.approved as nat),
    {
        let third = self.total / 3;
        let rest = self.total % 3;
        let two_thirds = if rest == 2 {
            third + third + 1
        } else {
            third + third
        };
        self.approved > two_thirds
    }
}

impl From<(u128, u128)> for StakeInfo {
    fn from(amounts: (u128, u128)) -> (info: Self) {
        Self { total: amounts.0, approved: amounts.1 }
    }
}

impl FromSpecImpl<(u128, u128)> for StakeInfo {
    open spec fn obeys_from_spec() -> bool {
        true
    }

    open spec fn from_spec(amounts: (u128, u128)) -> Self {
        StakeInfo { total: amounts.0, approved: amounts.1 }
    }
}

/// At exactly two thirds the quorum is missed, and one unit more of approved
/// stake reaches it.
pub proof fn law_quorum_boundary(total: nat, approved: nat)
    requires
        approved * 3 == total * 2,
    ensures
        !StakeInfo::quorum(total, approved),
        StakeInfo::quorum(total, approved + 1),
{
}

} // verus!

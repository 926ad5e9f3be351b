use ed25519_dalek::Signer;
use near_light_client_types::{
    advance, combine_hash, digest_canonical, hash, tally_stake, BlockHeaderInnerLiteView,
    Checkpoint, FinalityError, LightClientBlockLiteView, LightClientBlockView, Signature,
    StakeInfo, ValidatorStake, ValidatorStakeView,
};

fn key(seed: u8) -> ed25519_dalek::SigningKey {
    ed25519_dalek::SigningKey::from_bytes(&[seed; 32])
}

fn validator(seed: u8, stake: u128) -> ValidatorStakeView {
    ValidatorStakeView::new(
        format!("validator{}.near", seed),
        key(seed).verifying_key().to_bytes(),
        stake,
    )
}

fn inner(height: u64) -> BlockHeaderInnerLiteView {
    BlockHeaderInnerLiteView {
        height,
        epoch_id: [1u8; 32],
        next_epoch_id: [2u8; 32],
        prev_state_root: [3u8; 32],
        outcome_root: [4u8; 32],
        timestamp: 0,
        timestamp_nanosec: 1_700_000_000_000_000_000 + height,
        next_bp_hash: [5u8; 32],
        block_merkle_root: [6u8; 32],
    }
}

fn checkpoint(stakes: &[u128]) -> Checkpoint {
    let validators =
        stakes.iter().enumerate().map(|(i, stake)| validator(i as u8 + 1, *stake)).collect();
    Checkpoint::new(
        LightClientBlockLiteView {
            prev_block_hash: [9u8; 32],
            inner_rest_hash: [8u8; 32],
            inner_lite: inner(100),
        },
        validators,
        [7u8; 32],
    )
}

fn message(evidence: &LightClientBlockView) -> Vec<u8> {
    let mut bytes = vec![0u8];
    bytes.extend_from_slice(&evidence.header().hash());
    bytes
}

fn sign(seed: u8, message: &[u8]) -> Option<Box<Signature>> {
    Some(Box::new(Signature(key(seed).sign(message).to_bytes())))
}

/// Evidence at `height` on top of `base`, signed by the validators whose
/// seeds are listed; the validators have the seeds 1, 2, 3, ...
fn evidence(base: &LightClientBlockLiteView, height: u64, slots: usize, signers: &[u8]) -> LightClientBlockView {
    let mut block = LightClientBlockView {
        prev_block_hash: base.hash(),
        next_block_inner_hash: [10u8; 32],
        inner_lite: inner(height),
        inner_rest_hash: [11u8; 32],
        next_bps: None,
        approvals_after_next: Vec::new(),
    };
    let signed = message(&block);
    for slot in 0..slots {
        let seed = slot as u8 + 1;
        block.approvals_after_next.push(if signers.contains(&seed) {
            sign(seed, &signed)
        } else {
            None
        });
    }
    block
}

#[test]
fn signature_verification_accepts_only_the_signed_message() {
    let signed = b"approved block".to_vec();
    let signature = Signature(key(1).sign(&signed).to_bytes());
    let public_key = key(1).verifying_key().to_bytes();
    assert!(signature.verify(&signed, &public_key));
    assert!(!signature.verify(b"another block", &public_key));
    assert!(!signature.verify(&signed, &key(2).verifying_key().to_bytes()));
    let mut forged = signature.clone();
    forged.0[5] ^= 1;
    assert!(!forged.verify(&signed, &public_key));
    assert!(!Signature([0u8; 64]).verify(&signed, &public_key));
}

#[test]
fn bytes_that_are_no_key_or_no_signature_are_refused_without_a_panic() {
    let signed = b"approved block".to_vec();
    let signature = Signature(key(1).sign(&signed).to_bytes());
    let mut found_invalid_key = false;
    for first in 0..=255u8 {
        let mut candidate = [0u8; 32];
        candidate[0] = first;
        if ed25519_dalek::VerifyingKey::from_bytes(&candidate).is_err() {
            found_invalid_key = true;
            assert!(!signature.verify(&signed, &candidate));
        }
    }
    assert!(found_invalid_key);
    assert!(!Signature([0xff; 64]).verify(&signed, &key(1).verifying_key().to_bytes()));
}

#[test]
fn quorum_is_strictly_more_than_two_thirds() {
    assert!(!StakeInfo { total: 3, approved: 2 }.has_quorum());
    assert!(StakeInfo { total: 3, approved: 3 }.has_quorum());
    assert!(!StakeInfo { total: 300, approved: 200 }.has_quorum());
    assert!(StakeInfo { total: 300, approved: 201 }.has_quorum());
    assert!(!StakeInfo { total: 4, approved: 2 }.has_quorum());
    assert!(StakeInfo { total: 4, approved: 3 }.has_quorum());
    assert!(!StakeInfo { total: 5, approved: 3 }.has_quorum());
    assert!(StakeInfo { total: 5, approved: 4 }.has_quorum());
    assert!(!StakeInfo { total: 0, approved: 0 }.has_quorum());
    assert!(!StakeInfo { total: 1, approved: 0 }.has_quorum());
    assert!(StakeInfo { total: 1, approved: 1 }.has_quorum());
}

#[test]
fn quorum_is_exact_for_amounts_that_would_overflow_when_tripled() {
    let total = u128::MAX;
    let two_thirds = total / 3 * 2;
    assert_eq!(total % 3, 0);
    assert!(!StakeInfo { total, approved: two_thirds }.has_quorum());
    assert!(StakeInfo { total, approved: two_thirds + 1 }.has_quorum());
    assert!(StakeInfo { total, approved: total }.has_quorum());
    let total = u128::MAX - 1;
    assert_eq!(total % 3, 2);
    assert!(!StakeInfo { total, approved: total / 3 * 2 + 1 }.has_quorum());
    assert!(StakeInfo { total, approved: total / 3 * 2 + 2 }.has_quorum());
    let total = u128::MAX - 2;
    assert_eq!(total % 3, 1);
    assert!(!StakeInfo { total, approved: total / 3 * 2 }.has_quorum());
    assert!(StakeInfo { total, approved: total / 3 * 2 + 1 }.has_quorum());
}

#[test]
fn stake_info_is_built_from_total_and_approved() {
    assert_eq!(StakeInfo::from((30, 20)), StakeInfo { total: 30, approved: 20 });
}

#[test]
fn tally_adds_the_stake_of_the_signed_slots() {
    let validators = vec![validator(1, 10), validator(2, 20), validator(3, 30)];
    let signed = b"block".to_vec();
    let approvals = vec![sign(1, &signed), None, sign(3, &signed)];
    assert_eq!(
        tally_stake(&validators, &approvals, &signed),
        Ok(StakeInfo { total: 60, approved: 40 })
    );
    let none = vec![None, None, None];
    assert_eq!(tally_stake(&validators, &none, &signed), Ok(StakeInfo { total: 60, approved: 0 }));
    let empty: Vec<ValidatorStakeView> = Vec::new();
    assert_eq!(tally_stake(&empty, &[], &signed), Ok(StakeInfo { total: 0, approved: 0 }));
}

#[test]
fn tally_refuses_a_signature_of_another_validator() {
    let validators = vec![validator(1, 10), validator(2, 20), validator(3, 30)];
    let signed = b"block".to_vec();
    let approvals = vec![sign(1, &signed), sign(3, &signed), sign(3, &signed)];
    assert_eq!(tally_stake(&validators, &approvals, &signed), Err(FinalityError::InvalidSignature));
}

#[test]
fn tally_refuses_a_wrong_number_of_slots_and_a_total_beyond_128_bits() {
    let signed = b"block".to_vec();
    let validators = vec![validator(1, 10), validator(2, 20)];
    assert_eq!(
        tally_stake(&validators, &[None], &signed),
        Err(FinalityError::MalformedInput)
    );
    assert_eq!(
        tally_stake(&validators, &[None, None, None], &signed),
        Err(FinalityError::MalformedInput)
    );
    let heavy = vec![validator(1, u128::MAX), validator(2, 1)];
    assert_eq!(tally_stake(&heavy, &[None, None], &signed), Err(FinalityError::MalformedInput));
    let full = vec![validator(1, u128::MAX - 1), validator(2, 1)];
    assert_eq!(
        tally_stake(&full, &[None, sign(2, &signed)], &signed),
        Ok(StakeInfo { total: u128::MAX, approved: 1 })
    );
}

#[test]
fn exactly_two_thirds_is_refused_and_one_unit_more_is_accepted() {
    let trusted = checkpoint(&[1, 1, 1]);
    let two = evidence(&trusted.header, 101, 3, &[1, 2]);
    assert_eq!(advance(&trusted, &two).err(), Some(FinalityError::InsufficientStake));
    let three = evidence(&trusted.header, 101, 3, &[1, 2, 3]);
    assert!(advance(&trusted, &three).is_ok());
    let weighted = checkpoint(&[2, 2, 2]);
    let exact = evidence(&weighted.header, 101, 3, &[1, 3]);
    assert_eq!(advance(&weighted, &exact).err(), Some(FinalityError::InsufficientStake));
    let uneven = checkpoint(&[2, 2, 3]);
    let above = evidence(&uneven.header, 101, 3, &[1, 3]);
    assert!(advance(&uneven, &above).is_ok());
}

#[test]
fn no_signature_at_all_is_insufficient_stake() {
    let trusted = checkpoint(&[1, 1, 1]);
    let unsigned = evidence(&trusted.header, 101, 3, &[]);
    assert_eq!(advance(&trusted, &unsigned).err(), Some(FinalityError::InsufficientStake));
}

#[test]
fn a_forged_signature_in_any_slot_is_refused() {
    let trusted = checkpoint(&[1, 1, 1, 1]);
    for slot in 0..4 {
        let mut block = evidence(&trusted.header, 101, 4, &[1, 2, 3, 4]);
        assert!(advance(&trusted, &block).is_ok());
        let mut forged = *block.approvals_after_next[slot].clone().unwrap();
        forged.0[0] ^= 0x01;
        block.approvals_after_next[slot] = Some(Box::new(forged));
        assert_eq!(advance(&trusted, &block).err(), Some(FinalityError::InvalidSignature));
    }
}

#[test]
fn a_signature_over_another_message_is_refused() {
    let trusted = checkpoint(&[1, 1, 1]);
    let mut block = evidence(&trusted.header, 101, 3, &[1, 2, 3]);
    block.approvals_after_next[1] = sign(2, b"something else");
    assert_eq!(advance(&trusted, &block).err(), Some(FinalityError::InvalidSignature));
}

#[test]
fn evidence_at_or_below_the_trusted_height_is_refused() {
    let trusted = checkpoint(&[1, 1, 1]);
    for height in [0, 99, 100] {
        let signed = evidence(&trusted.header, height, 3, &[1, 2, 3]);
        assert_eq!(advance(&trusted, &signed).err(), Some(FinalityError::NonMonotonicHeight));
        let mut forged = evidence(&trusted.header, height, 3, &[1, 2, 3]);
        forged.approvals_after_next[0] = Some(Box::new(Signature([0u8; 64])));
        assert_eq!(advance(&trusted, &forged).err(), Some(FinalityError::NonMonotonicHeight));
        let mut detached = evidence(&trusted.header, height, 1, &[]);
        detached.prev_block_hash = [0u8; 32];
        assert_eq!(advance(&trusted, &detached).err(), Some(FinalityError::NonMonotonicHeight));
    }
}

#[test]
fn evidence_that_does_not_build_on_the_trusted_header_is_refused() {
    let trusted = checkpoint(&[1, 1, 1]);
    let mut block = evidence(&trusted.header, 101, 3, &[1, 2, 3]);
    block.prev_block_hash[0] ^= 1;
    assert_eq!(advance(&trusted, &block).err(), Some(FinalityError::DiscontinuousChain));
}

#[test]
fn evidence_with_a_wrong_number_of_slots_is_malformed() {
    let trusted = checkpoint(&[1, 1, 1]);
    let short = evidence(&trusted.header, 101, 2, &[1, 2]);
    assert_eq!(advance(&trusted, &short).err(), Some(FinalityError::MalformedInput));
    let long = evidence(&trusted.header, 101, 4, &[1, 2, 3]);
    assert_eq!(advance(&trusted, &long).err(), Some(FinalityError::MalformedInput));
}

#[test]
fn a_total_stake_beyond_128_bits_is_malformed() {
    let trusted = checkpoint(&[u128::MAX, 1]);
    let block = evidence(&trusted.header, 101, 2, &[1, 2]);
    assert_eq!(advance(&trusted, &block).err(), Some(FinalityError::MalformedInput));
}

#[test]
fn accepted_evidence_gives_the_next_checkpoint() {
    let trusted = checkpoint(&[1, 1, 1]);
    let block = evidence(&trusted.header, 101, 3, &[1, 2, 3]);
    let next = advance(&trusted, &block).unwrap();
    assert_eq!(next.header.inner_lite, block.inner_lite);
    assert_eq!(next.header.prev_block_hash, trusted.header.hash());
    assert_eq!(next.header.inner_rest_hash, block.inner_rest_hash);
    assert_eq!(next.header.inner_lite.height, 101);
    assert_eq!(next.validators, trusted.validators);
    assert_eq!(
        next.block_merkle_root,
        combine_hash(&trusted.block_merkle_root, &block.header().hash())
    );
    assert_eq!(trusted.header.inner_lite.height, 100);
    assert_eq!(trusted.block_merkle_root, [7u8; 32]);
}

#[test]
fn announced_validators_must_hash_to_the_committed_value() {
    let trusted = checkpoint(&[1, 1, 1]);
    let announced = vec![validator(7, 5), validator(8, 6)];
    let mut block = evidence(&trusted.header, 101, 3, &[]);
    block.next_bps = Some(announced.clone());
    block.inner_lite.next_bp_hash = digest_canonical(&announced);
    assert_eq!(
        block.inner_lite.next_bp_hash,
        hash(&{
            let mut bytes = vec![2u8, 0, 0, 0];
            for (seed, stake) in [(7u8, 5u128), (8, 6)] {
                bytes.push(0);
                bytes.extend_from_slice(
                    &borsh::to_vec(&(
                        format!("validator{}.near", seed),
                        key(seed).verifying_key().to_bytes(),
                        stake,
                    ))
                    .unwrap(),
                );
            }
            bytes
        })
    );
    let signed = message(&block);
    block.approvals_after_next = vec![sign(1, &signed), sign(2, &signed), sign(3, &signed)];
    let next = advance(&trusted, &block).unwrap();
    assert_eq!(next.validators, announced);

    let mut mismatched = block.clone();
    mismatched.next_bps = Some(vec![validator(7, 5), validator(8, 7)]);
    assert_eq!(advance(&trusted, &mismatched).err(), Some(FinalityError::ValidatorSetMismatch));
}

#[test]
fn chain_of_trust_end_to_end() {
    let trusted = checkpoint(&[1, 1, 1]);
    let two_of_three = evidence(&trusted.header, 101, 3, &[1, 2]);
    assert_eq!(advance(&trusted, &two_of_three).err(), Some(FinalityError::InsufficientStake));

    let block = evidence(&trusted.header, 101, 3, &[1, 2, 3]);
    let next = advance(&trusted, &block).unwrap();
    assert_eq!(next.header.inner_lite.height, 101);

    let duplicate = evidence(&next.header, 101, 3, &[1, 2, 3]);
    assert_eq!(advance(&next, &duplicate).err(), Some(FinalityError::NonMonotonicHeight));
    assert_eq!(advance(&next, &block).err(), Some(FinalityError::NonMonotonicHeight));

    let on_old_header = evidence(&trusted.header, 102, 3, &[1, 2, 3]);
    assert_eq!(advance(&next, &on_old_header).err(), Some(FinalityError::DiscontinuousChain));

    let following = evidence(&next.header, 102, 3, &[1, 2, 3]);
    let after = advance(&next, &following).unwrap();
    assert_eq!(after.header.inner_lite.height, 102);
    assert_eq!(
        after.block_merkle_root,
        combine_hash(&next.block_merkle_root, &following.header().hash())
    );
}

#[test]
fn validator_records_give_their_parts() {
    let record = ValidatorStakeView::new("carol.near".to_string(), [4u8; 32], 77);
    assert_eq!(record.account_id(), "carol.near");
    assert_eq!(record.public_key(), &[4u8; 32]);
    assert_eq!(record.stake(), 77);
    assert_eq!(record.duplicate(), record);
    let expected = ValidatorStake::new("carol.near".to_string(), [4u8; 32], 77);
    assert_eq!(record.clone().into_validator_stake(), expected);
    assert_eq!(ValidatorStake::from(record.clone()), expected);
    assert_eq!(record.take_account_id(), "carol.near".to_string());
}

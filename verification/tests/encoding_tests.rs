use near_light_client_types::{
    ApprovalInner, BlockHeaderInnerLite, BlockHeaderInnerLiteView, CanonicalBytes,
    ExecutionOutcomeView, MalformedInput, PartialExecutionOutcome, PartialExecutionStatus,
    Signature, ValidatorStakeView, ValidatorStakeViewV1,
};

fn encode<T: CanonicalBytes>(value: &T) -> Vec<u8> {
    assert!(value.is_encodable());
    let mut out = Vec::new();
    value.write_canonical(&mut out);
    out
}

#[test]
fn integers_are_little_endian_at_fixed_width() {
    assert_eq!(encode(&12u64), vec![12, 0, 0, 0, 0, 0, 0, 0]);
    assert_eq!(encode(&0x0102_0304_0506_0708u64), vec![8, 7, 6, 5, 4, 3, 2, 1]);
    assert_eq!(encode(&u64::MAX), vec![0xff; 8]);
    assert_eq!(encode(&1u128), {
        let mut bytes = vec![0u8; 16];
        bytes[0] = 1;
        bytes
    });
    assert_eq!(encode(&(1u128 << 120)), {
        let mut bytes = vec![0u8; 16];
        bytes[15] = 1;
        bytes
    });
    assert_eq!(encode(&7u8), vec![7]);
}

#[test]
fn integers_agree_with_borsh() {
    for value in [0u64, 1, 255, 256, 1_700_000_000_000_000_000, u64::MAX] {
        assert_eq!(encode(&value), borsh::to_vec(&value).unwrap());
    }
    for value in [0u128, 1, u64::MAX as u128 + 1, u128::MAX] {
        assert_eq!(encode(&value), borsh::to_vec(&value).unwrap());
    }
}

#[test]
fn encoding_appends_to_what_is_there() {
    let mut out = vec![9u8, 9];
    5u64.write_canonical(&mut out);
    assert_eq!(out, vec![9, 9, 5, 0, 0, 0, 0, 0, 0, 0]);
}

#[test]
fn byte_arrays_are_written_as_they_stand() {
    let mut digest = [0u8; 32];
    digest[0] = 1;
    digest[31] = 2;
    assert_eq!(encode(&digest), digest.to_vec());
    assert_eq!(encode(&digest), borsh::to_vec(&digest).unwrap());
}

#[test]
fn strings_are_length_prefixed_utf8() {
    assert_eq!(encode(&"abc".to_string()), vec![3, 0, 0, 0, b'a', b'b', b'c']);
    assert_eq!(encode(&String::new()), vec![0, 0, 0, 0]);
    let accented = "n\u{e9}ar".to_string();
    assert_eq!(encode(&accented), vec![5, 0, 0, 0, b'n', 0xc3, 0xa9, b'a', b'r']);
    assert_eq!(encode(&accented), borsh::to_vec(&accented).unwrap());
}

#[test]
fn sequences_are_length_prefixed() {
    let hashes = vec![[1u8; 32], [2u8; 32]];
    let mut expected = vec![2u8, 0, 0, 0];
    expected.extend_from_slice(&[1u8; 32]);
    expected.extend_from_slice(&[2u8; 32]);
    assert_eq!(encode(&hashes), expected);
    assert_eq!(encode(&hashes), borsh::to_vec(&hashes).unwrap());
    let empty: Vec<[u8; 32]> = Vec::new();
    assert_eq!(encode(&empty), vec![0, 0, 0, 0]);
    let bytes = vec![5u8, 6, 7];
    assert_eq!(encode(&bytes), vec![3, 0, 0, 0, 5, 6, 7]);
    assert_eq!(encode(&bytes), borsh::to_vec(&bytes).unwrap());
}

#[test]
fn pairs_are_their_halves_in_order() {
    let value = (1u64, "a".to_string());
    assert_eq!(encode(&value), vec![1, 0, 0, 0, 0, 0, 0, 0, 1, 0, 0, 0, b'a']);
    assert_eq!(encode(&value), borsh::to_vec(&value).unwrap());
}

fn inner_lite() -> BlockHeaderInnerLite {
    BlockHeaderInnerLite {
        height: 100,
        epoch_id: [1u8; 32],
        next_epoch_id: [2u8; 32],
        prev_state_root: [3u8; 32],
        prev_outcome_root: [4u8; 32],
        timestamp: 1_700_000_000_000_000_000,
        next_bp_hash: [5u8; 32],
        block_merkle_root: [6u8; 32],
    }
}

#[test]
fn inner_lite_is_its_fields_in_order() {
    let inner = inner_lite();
    let encoded = encode(&inner);
    assert_eq!(encoded.len(), 208);
    assert_eq!(&encoded[0..8], &[100, 0, 0, 0, 0, 0, 0, 0]);
    assert_eq!(&encoded[8..40], &[1u8; 32]);
    assert_eq!(&encoded[40..72], &[2u8; 32]);
    assert_eq!(&encoded[72..104], &[3u8; 32]);
    assert_eq!(&encoded[104..136], &[4u8; 32]);
    assert_eq!(&encoded[136..144], &1_700_000_000_000_000_000u64.to_le_bytes());
    assert_eq!(&encoded[144..176], &[5u8; 32]);
    assert_eq!(&encoded[176..208], &[6u8; 32]);
    let as_tuple = (
        inner.height,
        inner.epoch_id,
        inner.next_epoch_id,
        inner.prev_state_root,
        inner.prev_outcome_root,
        inner.timestamp,
        inner.next_bp_hash,
        inner.block_merkle_root,
    );
    assert_eq!(encoded, borsh::to_vec(&as_tuple).unwrap());
}

#[test]
fn inner_lite_from_a_view_drops_the_legacy_timestamp() {
    let view = BlockHeaderInnerLiteView {
        height: 100,
        epoch_id: [1u8; 32],
        next_epoch_id: [2u8; 32],
        prev_state_root: [3u8; 32],
        outcome_root: [4u8; 32],
        timestamp: 42,
        timestamp_nanosec: 1_700_000_000_000_000_000,
        next_bp_hash: [5u8; 32],
        block_merkle_root: [6u8; 32],
    };
    assert_eq!(BlockHeaderInnerLite::from(view.clone()), inner_lite());
    let converted: BlockHeaderInnerLite = view.duplicate().into();
    assert_eq!(converted, inner_lite());
    assert_eq!(view.duplicate(), view);
}

#[test]
fn approvals_carry_the_tag_of_their_variant() {
    let mut endorsement = vec![0u8];
    endorsement.extend_from_slice(&[7u8; 32]);
    assert_eq!(encode(&ApprovalInner::Endorsement([7u8; 32])), endorsement);
    assert_eq!(encode(&ApprovalInner::Skip(258)), vec![1, 2, 1, 0, 0, 0, 0, 0, 0]);
}

#[test]
fn signature_is_the_scheme_tag_and_its_bytes() {
    let mut bytes = [0u8; 64];
    bytes[0] = 3;
    bytes[63] = 0x1f;
    let signature = Signature(bytes);
    let mut expected = vec![0u8];
    expected.extend_from_slice(&bytes);
    assert_eq!(encode(&signature), expected);
}

#[test]
fn signature_is_read_from_exactly_64_bytes_in_range() {
    let mut bytes = [9u8; 64];
    bytes[63] = 0x1f;
    assert_eq!(Signature::try_from_slice(&bytes), Ok(Signature(bytes)));
    assert_eq!(Signature::try_from_slice(&bytes[..63]), Err(MalformedInput::WrongLength));
    assert_eq!(Signature::try_from_slice(&[]), Err(MalformedInput::WrongLength));
    let mut longer = bytes.to_vec();
    longer.push(0);
    assert_eq!(Signature::try_from_slice(&longer), Err(MalformedInput::WrongLength));
    for high in [0x20u8, 0x40, 0x80, 0xe0, 0xff] {
        bytes[63] = high;
        assert_eq!(Signature::try_from_slice(&bytes), Err(MalformedInput::SignatureOutOfRange));
    }
    bytes[63] = 0;
    assert_eq!(Signature::try_from_slice(&bytes), Ok(Signature(bytes)));
}

#[test]
fn statuses_carry_the_tag_of_their_variant() {
    assert_eq!(encode(&PartialExecutionStatus::Unknown), vec![0]);
    assert_eq!(encode(&PartialExecutionStatus::Failure), vec![1]);
    assert_eq!(
        encode(&PartialExecutionStatus::SuccessValue(vec![0xaa, 0xbb])),
        vec![2, 2, 0, 0, 0, 0xaa, 0xbb]
    );
    assert_eq!(encode(&PartialExecutionStatus::SuccessValue(vec![])), vec![2, 0, 0, 0, 0]);
    let mut receipt = vec![3u8];
    receipt.extend_from_slice(&[4u8; 32]);
    assert_eq!(encode(&PartialExecutionStatus::SuccessReceiptId([4u8; 32])), receipt);
}

fn outcome() -> ExecutionOutcomeView {
    ExecutionOutcomeView {
        logs: vec!["first log".to_string(), "second".to_string()],
        receipt_ids: vec![[8u8; 32]],
        gas_burnt: 2_428_000_000_000,
        tokens_burnt: 242_800_000_000_000_000_000,
        executor_id: "alice.near".to_string(),
        status: PartialExecutionStatus::SuccessValue(vec![1, 2, 3]),
    }
}

#[test]
fn partial_outcome_leaves_the_logs_out() {
    let outcome = outcome();
    let partial = PartialExecutionOutcome::from(&outcome);
    assert_eq!(partial.receipt_ids, outcome.receipt_ids);
    assert_eq!(partial.gas_burnt, outcome.gas_burnt);
    assert_eq!(partial.tokens_burnt, outcome.tokens_burnt);
    assert_eq!(partial.executor_id, outcome.executor_id);
    assert_eq!(partial.status, outcome.status);
    let mut expected = borsh::to_vec(&(
        outcome.receipt_ids.clone(),
        outcome.gas_burnt,
        outcome.tokens_burnt,
        outcome.executor_id.clone(),
    ))
    .unwrap();
    expected.extend_from_slice(&[2, 3, 0, 0, 0, 1, 2, 3]);
    assert_eq!(encode(&partial), expected);
    let mut without_logs = outcome.clone();
    without_logs.logs.clear();
    assert_eq!(encode(&PartialExecutionOutcome::from(&without_logs)), expected);
}

#[test]
fn validator_record_carries_the_tag_of_its_version() {
    let record = ValidatorStakeView::new("bob.near".to_string(), [3u8; 32], 1_000);
    let mut expected = vec![0u8];
    expected.extend_from_slice(
        &borsh::to_vec(&("bob.near".to_string(), [3u8; 32], 1_000u128)).unwrap(),
    );
    assert_eq!(encode(&record), expected);
    let v1 = ValidatorStakeViewV1::new("bob.near".to_string(), [3u8; 32], 1_000);
    assert_eq!(encode(&v1), expected[1..].to_vec());
    let set = vec![record.clone(), record];
    let mut both = vec![2u8, 0, 0, 0];
    both.extend_from_slice(&expected);
    both.extend_from_slice(&expected);
    assert_eq!(encode(&set), both);
}

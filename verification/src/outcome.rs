//! Execution outcomes and the hashes that commit to them.

use crate::encoding::{
    concat_canonical, lemma_array_of_bytes, lemma_concat_digests, lemma_concat_split,
    lemma_length_prefix_injective, length_prefix, write_bytes, write_length, CanonicalBytes,
};
use crate::merkle::{hash, hash_borsh, sha256, sha256_collision, MerklePath};
use crate::{AccountId, Balance};
use vstd::bytes::{spec_u128_to_le_bytes, spec_u64_to_le_bytes};
use vstd::prelude::*;
use vstd::slice::slice_to_vec;
use vstd::std_specs::convert::FromSpecImpl;
use vstd::utf8::encode_utf8;

verus! {

/// An error that happened during the execution of an action.
#[derive(Debug, Clone, PartialEq, Eq)]
pub struct ActionError {
    /// Index of the failed action in the transaction, where it is defined.
    pub index: Option<u64>,
}

/// The error that an outcome reports in case of failure.
#[derive(Debug, Clone, PartialEq, Eq)]
pub enum TxExecutionError {
    /// An error happened during the execution of an action.
    ActionError(ActionError),
}

/// How an execution ended, as a node reports it.
#[derive(PartialEq, Eq, Clone)]
pub enum ExecutionStatusView {
    /// The execution is pending or unknown.
    Unknown,
    /// The execution has failed.
    Failure(TxExecutionError),
    /// The final action succeeded and returned some value or an empty vector.
    SuccessValue(Vec<u8>),
    /// The final action returned a promise, or the transaction was turned
    /// into a receipt: the id of that receipt.
    SuccessReceiptId(crate::Hash),
}

/// How an execution ended, as far as a proof commits to it: without the
/// details of a failure.
#[derive(PartialEq, Clone, Debug, Eq)]
pub enum PartialExecutionStatus {
    Unknown,
    Failure,
    SuccessValue(Vec<u8>),
    SuccessReceiptId(crate::Hash),
}

/// The part of an outcome that is hashed for inclusion: all but the logs.
#[derive(PartialEq, Clone, Debug)]
pub struct PartialExecutionOutcome {
    pub receipt_ids: Vec<crate::Hash>,
    pub gas_burnt: u64,
    pub tokens_burnt: Balance,
    pub executor_id: AccountId,
    pub status: PartialExecutionStatus,
}

/// The outcome of a transaction or of a receipt.
#[derive(Debug, Clone, PartialEq, Eq)]
pub struct ExecutionOutcomeView {
    /// Logs from this transaction or receipt.
    pub logs: Vec<String>,
    /// Ids of the receipts that this transaction or receipt generated.
    pub receipt_ids: Vec<crate::Hash>,
    /// The amount of gas burnt.
    pub gas_burnt: u64,
    /// The amount of tokens burnt for that gas.
    pub tokens_burnt: Balance,
    /// The account on which the execution happens.
    pub executor_id: AccountId,
    /// How the execution ended.
    pub status: PartialExecutionStatus,
}

/// An outcome with the id of what produced it.
#[derive(Debug, PartialEq, Eq, Clone)]
pub struct ExecutionOutcomeWithIdView {
    pub proof: MerklePath,
    pub block_hash: crate::Hash,
    pub id: crate::Hash,
    pub outcome: ExecutionOutcomeView,
}

/// What a `PartialExecutionStatus` holds.
pub enum StatusModel {
    Unknown,
    Failure,
    SuccessValue(Seq<u8>),
    SuccessReceiptId(crate::Hash),
}

/// What a `PartialExecutionOutcome` holds.
pub struct PartialOutcomeModel {
    pub receipt_ids: Seq<crate::Hash>,
    pub gas_burnt: u64,
    pub tokens_burnt: u128,
    pub executor_id: Seq<char>,
    pub status: StatusModel,
}

/// What an `ExecutionOutcomeView` holds.
pub struct OutcomeModel {
    pub logs: Seq<Seq<char>>,
    pub partial: PartialOutcomeModel,
}

impl StatusModel {
    pub open spec fn encodable(self) -> bool {
        match self {
            StatusModel::SuccessValue(value) => value.len() <= u32::MAX,
            _ => true,
        }
    }

    /// The tag of the variant, then what the variant holds.
    pub open spec fn canonical(self) -> Seq<u8> {
        match self {
            StatusModel::Unknown => seq![0u8],
            StatusModel::Failure => seq![1u8],
            StatusModel::SuccessValue(value) => seq![2u8] + (length_prefix(value.len()) + value),
            StatusModel::SuccessReceiptId(receipt_id) => seq![3u8] + receipt_id@,
        }
    }
}

impl PartialOutcomeModel {
    pub open spec fn encodable(self) -> bool {
        &&& self.receipt_ids.len() <= u32::MAX
        &&& encode_utf8(self.executor_id).len() <= u32::MAX
        &&& self.status.encodable()
    }

    /// The fields in their order.
    pub open spec fn canonical(self) -> Seq<u8> {
        (length_prefix(self.receipt_ids.len()) + concat_canonical(self.receipt_ids))
            + spec_u64_to_le_bytes(self.gas_burnt) + spec_u128_to_le_bytes(self.tokens_burnt) + (
        length_prefix(encode_utf8(self.executor_id).len()) + encode_utf8(self.executor_id))
            + self.status.canonical()
    }
}

impl OutcomeModel {
    /// The digests of the logs, in their order.
    pub open spec fn log_hashes(self) -> Seq<crate::Hash> {
        self.logs.map_values(|log: Seq<char>| sha256(encode_utf8(log)))
    }

    /// The three parts that commit to the outcome of `id`: the id, the
    /// digest of the part without logs, and the digest of each log.
    pub open spec fn hashes(self, id: crate::Hash) -> Seq<crate::Hash> {
        seq![id, sha256(self.partial.canonical())] + self.log_hashes()
    }

    /// Whether the outcome can be committed to: the part without logs has
    /// an encoding, and so has the list of the hashes.
    pub open spec fn committable(self) -> bool {
        self.partial.encodable() && self.logs.len() + 2 <= u32::MAX
    }

    /// The leaf that stands for the outcome of `id` in the outcome tree: the
    /// digest of the encoding of the list of its hashes.
    pub open spec fn leaf(self, id: crate::Hash) -> crate::Hash {
        sha256(length_prefix(self.hashes(id).len()) + concat_canonical(self.hashes(id)))
    }
}

impl View for PartialExecutionStatus {
    type V = StatusModel;

    open spec fn view(&self) -> StatusModel {
        match *self {
            PartialExecutionStatus::Unknown => StatusModel::Unknown,
            PartialExecutionStatus::Failure => StatusModel::Failure,
            PartialExecutionStatus::SuccessValue(value) => StatusModel::SuccessValue(value@),
            PartialExecutionStatus::SuccessReceiptId(receipt_id) => StatusModel::SuccessReceiptId(
                receipt_id,
            ),
        }
    }
}

impl View for PartialExecutionOutcome {
    type V = PartialOutcomeModel;

    open spec fn view(&self) -> PartialOutcomeModel {
        PartialOutcomeModel {
            receipt_ids: self.receipt_ids@,
            gas_burnt: self.gas_burnt,
            tokens_burnt: self.tokens_burnt,
            executor_id: self.executor_id@,
            status: self.status@,
        }
    }
}

impl View for ExecutionOutcomeView {
    type V = OutcomeModel;

    open spec fn view(&self) -> OutcomeModel {
        OutcomeModel {
            logs: self.logs@.map_values(|log: String| log@),
            partial: PartialOutcomeModel {
                receipt_ids: self.receipt_ids@,
                gas_burnt: self.gas_burnt,
                tokens_burnt: self.tokens_burnt,
                executor_id: self.executor_id@,
                status: self.status@,
            },
        }
    }
}

impl PartialExecutionStatus {
    /// A copy of the status.
    pub fn duplicate(&self) -> (copy: Self)
        ensures
            copy@ == self@,
    {
        match self {
            PartialExecutionStatus::Unknown => PartialExecutionStatus::Unknown,
            PartialExecutionStatus::Failure => PartialExecutionStatus::Failure,
            PartialExecutionStatus::SuccessValue(value) => PartialExecutionStatus::SuccessValue(
                slice_to_vec(value.as_slice()),
            ),
            PartialExecutionStatus::SuccessReceiptId(receipt_id) => {
                PartialExecutionStatus::SuccessReceiptId(*receipt_id)
            },
        }
    }
}

impl CanonicalBytes for PartialExecutionStatus {
    open spec fn encodable(&self) -> bool {
        self@.encodable()
    }

    open spec fn canonical(&self) -> Seq<u8> {
        self@.canonical()
    }

    fn is_encodable(&self) -> (ok: bool) {
        match self {
            PartialExecutionStatus::SuccessValue(value) => value.len() <= 0xffff_ffff,
            _ => true,
        }
    }

    fn write_canonical(&self, out: &mut Vec<u8>) {
        match self {
            PartialExecutionStatus::Unknown => {
                out.push(0u8);
                assert(out@ =~= old(out)@ + seq![0u8]);
            },
            PartialExecutionStatus::Failure => {
                out.push(1u8);
                assert(out@ =~= old(out)@ + seq![1u8]);
            },
            PartialExecutionStatus::SuccessValue(value) => {
                out.push(2u8);
                write_length(value.len(), out);
                write_bytes(value.as_slice(), out);
                assert(out@ =~= old(out)@ + (seq![2u8] + (length_prefix(value@.len()) + value@)));
            },
            PartialExecutionStatus::SuccessReceiptId(receipt_id) => {
                out.push(3u8);
                receipt_id.write_canonical(out);
                assert(out@ =~= old(out)@ + (seq![3u8] + receipt_id@));
            },
        }
    }
}

impl CanonicalBytes for PartialExecutionOutcome {
    open spec fn encodable(&self) -> bool {
        self@.encodable()
    }

    open spec fn canonical(&self) -> Seq<u8> {
        self@.canonical()
    }

    fn is_encodable(&self) -> (ok: bool) {
        self.receipt_ids.len() <= 0xffff_ffff && self.executor_id.is_encodable()
            && self.status.is_encodable()
    }

    fn write_canonical(&self, out: &mut Vec<u8>) {
        self.receipt_ids.write_canonical(out);
        self.gas_burnt.write_canonical(out);
        self.tokens_burnt.write_canonical(out);
        self.executor_id.write_canonical(out);
        self.status.write_canonical(out);
        assert(out@ =~= old(out)@ + self@.canonical());
    }
}

impl PartialExecutionOutcome {
    /// The part of `outcome` that is hashed for inclusion.
    pub fn from(outcome: &ExecutionOutcomeView) -> (partial: Self)
        ensures
            partial@ == outcome@.partial,
    {
        Self {
            receipt_ids: slice_to_vec(outcome.receipt_ids.as_slice()),
            gas_burnt: outcome.gas_burnt,
            tokens_burnt: outcome.tokens_burnt,
            executor_id: outcome.executor_id.clone(),
            status: outcome.status.duplicate(),
        }
    }
}

impl ExecutionOutcomeView {
    /// Whether the outcome can be committed to.
    pub fn is_committable(&self) -> (ok: bool)
        ensures
            ok == self@.committable(),
    {
        self.logs.len() <= 0xffff_fffd && self.receipt_ids.len() <= 0xffff_ffff
            && self.executor_id.is_encodable() && self.status.is_encodable()
    }

    /// The hashes that commit to the outcome of `id`: the id, the digest of
    /// the part without logs, and the digest of each log.
    pub fn to_hashes(&self, id: crate::Hash) -> (result: Vec<crate::Hash>)
        requires
            self@.partial.encodable(),
        ensures
            result@ == self@.hashes(id),
    {
        let mut result: Vec<crate::Hash> = Vec::new();
        result.push(id);
        result.push(hash_borsh(PartialExecutionOutcome::from(self)));
        let mut i: usize = 0;
        while i < self.logs.len()
            invariant
                i <= self.logs.len(),
                result@ == seq![id, sha256(self@.partial.canonical())] + self@.log_hashes().take(
                    i as int,
                ),
            decreases self.logs.len() - i,
        {
            let log = &self.logs[i];
            result.push(hash(log.as_str().as_bytes()));
            assert(self@.log_hashes().take(i + 1) == self@.log_hashes().take(i as int).push(
                self@.log_hashes()[i as int],
            ));
            i += 1;
        }
        assert(self@.log_hashes().take(self.logs.len() as int) == self@.log_hashes());
        result
    }

    /// The leaf that stands for the outcome of `id` in the outcome tree.
    pub fn leaf_hash(&self, id: crate::Hash) -> (leaf: crate::Hash)
        requires
            self@.committable(),
        ensures
            leaf == self@.leaf(id),
    {
        let hashes = self.to_hashes(id);
        assert(crate::encoding::all_encodable(hashes@));
        hash_borsh(hashes)
    }
}

impl From<ActionError> for TxExecutionError {
    fn from(error: ActionError) -> (wrapped: Self) {
        TxExecutionError::ActionError(error)
    }
}

impl FromSpecImpl<ActionError> for TxExecutionError {
    open spec fn obeys_from_spec() -> bool {
        true
    }

    open spec fn from_spec(error: ActionError) -> Self {
        TxExecutionError::ActionError(error)
    }
}

/// The encoding of a list of digests determines the list.
pub proof fn lemma_digest_list_encoding_injective(first: Seq<crate::Hash>, second: Seq<crate::Hash>)
    requires
        first.len() <= u32::MAX,
        second.len() <= u32::MAX,
        length_prefix(first.len()) + concat_canonical(first) == length_prefix(second.len())
            + concat_canonical(second),
    ensures
        first == second,
{
    lemma_length_prefix_injective(first.len(), first.len());
    lemma_length_prefix_injective(second.len(), second.len());
    lemma_concat_split(
        length_prefix(first.len()),
        concat_canonical(first),
        length_prefix(second.len()),
        concat_canonical(second),
    );
    lemma_length_prefix_injective(first.len(), second.len());
    assert forall|i: int| 0 <= i < first.len() implies first[i] == second[i] by {
        assert forall|j: int| 0 <= j < 32 implies first[i][j] == second[i][j] by {
            lemma_concat_digests(first, i, j);
            lemma_concat_digests(second, i, j);
        }
        assert(first[i] =~= second[i]);
    }
    assert(first =~= second);
}

/// The leaf binds everything that it commits to: two outcomes with one leaf
/// that differ in the id, in the encoding of the part without logs, or in
/// the bytes of a log contain two different byte strings with the same
/// SHA-256 digest, and the proof hands them out.
pub proof fn law_leaf_binds_outcome(
    a: OutcomeModel,
    a_id: crate::Hash,
    b: OutcomeModel,
    b_id: crate::Hash,
) -> (found: (Seq<u8>, Seq<u8>))
    requires
        a.logs.len() + 2 <= u32::MAX,
        b.logs.len() + 2 <= u32::MAX,
        a.leaf(a_id) == b.leaf(b_id),
        a_id != b_id || a.partial.canonical() != b.partial.canonical() || a.logs.len()
            != b.logs.len() || exists|i: int|
            0 <= i < a.logs.len() && encode_utf8(#[trigger] a.logs[i]) != encode_utf8(b.logs[i]),
    ensures
        sha256_collision(found.0, found.1),
{
    let a_hashes = a.hashes(a_id);
    let b_hashes = b.hashes(b_id);
    let a_list = length_prefix(a_hashes.len()) + concat_canonical(a_hashes);
    let b_list = length_prefix(b_hashes.len()) + concat_canonical(b_hashes);
    if a_list != b_list {
        (a_list, b_list)
    } else {
        lemma_digest_list_encoding_injective(a_hashes, b_hashes);
        assert(a_hashes[0] == a_id && b_hashes[0] == b_id);
        assert(a_hashes[1] == sha256(a.partial.canonical()));
        assert(b_hashes[1] == sha256(b.partial.canonical()));
        assert(a.logs.len() == b.logs.len());
        if a.partial.canonical() != b.partial.canonical() {
            (a.partial.canonical(), b.partial.canonical())
        } else {
            let i = choose|i: int|
                0 <= i < a.logs.len() && encode_utf8(#[trigger] a.logs[i]) != encode_utf8(
                    b.logs[i],
                );
            assert(a_hashes[i + 2] == a.log_hashes()[i]);
            assert(b_hashes[i + 2] == b.log_hashes()[i]);
            (encode_utf8(a.logs[i]), encode_utf8(b.logs[i]))
        }
    }
}

/// The encoding of a status determines the status.
pub proof fn lemma_status_encoding_injective(first: StatusModel, second: StatusModel)
    requires
        first.encodable(),
        second.encodable(),
        first.canonical() == second.canonical(),
    ensures
        first == second,
{
    lemma_status_tag(first);
    lemma_status_tag(second);
    match (first, second) {
        (StatusModel::SuccessValue(a), StatusModel::SuccessValue(b)) => {
            lemma_length_prefix_injective(a.len(), a.len());
            lemma_length_prefix_injective(b.len(), b.len());
            lemma_concat_split(
                seq![2u8],
                length_prefix(a.len()) + a,
                seq![2u8],
                length_prefix(b.len()) + b,
            );
            lemma_concat_split(length_prefix(a.len()), a, length_prefix(b.len()), b);
        },
        (StatusModel::SuccessReceiptId(a), StatusModel::SuccessReceiptId(b)) => {
            lemma_concat_split(seq![3u8], a@, seq![3u8], b@);
            lemma_array_of_bytes(a, b);
        },
        _ => {},
    }
}

/// The encoding of a status starts with the tag of its variant.
proof fn lemma_status_tag(status: StatusModel)
    ensures
        status.canonical().len() > 0,
        status.canonical()[0] == match status {
            StatusModel::Unknown => 0u8,
            StatusModel::Failure => 1u8,
            StatusModel::SuccessValue(_) => 2u8,
            StatusModel::SuccessReceiptId(_) => 3u8,
        },
{
    match status {
        StatusModel::Unknown => {
            assert(seq![0u8][0] == 0u8);
        },
        StatusModel::Failure => {
            assert(seq![1u8][0] == 1u8);
        },
        StatusModel::SuccessValue(value) => {
            assert(seq![2u8][0] == 2u8);
            assert((seq![2u8] + (length_prefix(value.len()) + value))[0] == 2u8);
        },
        StatusModel::SuccessReceiptId(receipt_id) => {
            assert(seq![3u8][0] == 3u8);
            assert((seq![3u8] + receipt_id@)[0] == 3u8);
        },
    }
}

/// A change of the status alone changes the encoding of the part without
/// logs, so that the leaf binds the status.
pub proof fn law_status_changes_encoding(first: PartialOutcomeModel, second: PartialOutcomeModel)
    requires
        first.encodable(),
        second.encodable(),
        first.receipt_ids == second.receipt_ids,
        first.gas_burnt == second.gas_burnt,
        first.tokens_burnt == second.tokens_burnt,
        first.executor_id == second.executor_id,
        first.status != second.status,
    ensures
        first.canonical() != second.canonical(),
{
    if first.canonical() == second.canonical() {
        let head = (length_prefix(first.receipt_ids.len()) + concat_canonical(first.receipt_ids))
            + spec_u64_to_le_bytes(first.gas_burnt) + spec_u128_to_le_bytes(first.tokens_burnt) + (
        length_prefix(encode_utf8(first.executor_id).len()) + encode_utf8(first.executor_id));
        lemma_concat_split(head, first.status.canonical(), head, second.status.canonical());
        lemma_status_encoding_injective(first.status, second.status);
    }
}

} // verus!

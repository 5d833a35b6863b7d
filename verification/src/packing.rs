//! What a packed block is: the history of the transactions that entered a block, the
//! progress that follows from it, and the laws that every such history obeys.

use crate::classifier::{lane_of, TxLane};
use crate::config::PaymentLaneConfigView;
use crate::consensus::{gas_after, general_gas_used, lane_verdict};
use crate::payload::{
    admission, contents_verdict, sidecar_verdict, Admission, BlockParameters, BuildProgress,
    LaneGasBudget, SidecarKind,
};
use crate::primitives::two_to_the_256;
use crate::transaction::{LaneReceipt, LaneTransaction};
use vstd::prelude::*;

verus! {

/// A transaction that entered a block.
pub struct Inclusion {
    /// The transaction.
    pub transaction: LaneTransaction,
    /// Length of its encoding.
    pub rlp_length: usize,
    /// Number of its blobs, where it is a blob transaction.
    pub blob_count: Option<u64>,
    /// Kind of the sidecar found for it, where it is a blob transaction.
    pub sidecar: Option<SidecarKind>,
    /// Gas it used.
    pub gas_used: u64,
}

impl Inclusion {
    /// The lane of the transaction.
    pub open spec fn lane(self, config: PaymentLaneConfigView) -> TxLane {
        lane_of(config, self.transaction.to, self.transaction.input@)
    }

    /// The tip per gas of the transaction.
    pub open spec fn tip(self, base_fee: u64) -> u128 {
        self.transaction.tip_at(base_fee).unwrap()
    }

    /// The fee that it pays to the builder.
    pub open spec fn fee(self, base_fee: u64) -> nat {
        (self.tip(base_fee) * self.gas_used) as nat
    }
}

/// How far the next transaction of the pool has come on its way into the block.
pub enum Stage {
    /// No transaction is under way.
    Idle,
    /// The transaction was admitted by its gas.
    Admitted {
        /// The transaction.
        transaction: LaneTransaction,
    },
    /// What the blob transaction holds fits the block; its sidecar is to be looked at.
    Fitting {
        /// The transaction.
        transaction: LaneTransaction,
        /// Length of its encoding.
        rlp_length: usize,
        /// Number of its blobs.
        blob_count: Option<u64>,
    },
    /// Every check is passed; the transaction is to be executed.
    Ready {
        /// The transaction.
        transaction: LaneTransaction,
        /// Length of its encoding.
        rlp_length: usize,
        /// Number of its blobs, where it is a blob transaction.
        blob_count: Option<u64>,
        /// Kind of the sidecar found for it.
        sidecar: Option<SidecarKind>,
    },
}

/// What a block is packed by.
pub struct PackingRules {
    /// Decides the lane of a transaction.
    pub config: PaymentLaneConfigView,
    /// What was fixed about the block beforehand.
    pub block: BlockParameters,
    /// Gas limit of general transactions.
    pub general_gas_limit: u64,
    /// Number of blobs that the block may hold.
    pub max_blob_count: u64,
}

impl PackingRules {
    /// The progress on the empty block.
    pub open spec fn start(self) -> BuildProgress {
        BuildProgress {
            budget: LaneGasBudget::unused(self.block.block_gas_limit, self.general_gas_limit),
            fees: 0,
            blob_count: 0,
            rlp_length: 0,
        }
    }

    /// Whether a transaction is admitted at the given progress.
    pub open spec fn admits(self, progress: BuildProgress, transaction: LaneTransaction) -> bool {
        admission(self.config, progress.budget, transaction, false) is Admit
    }

    /// Whether what a transaction holds fits the block at the given progress.
    pub open spec fn fits(
        self,
        progress: BuildProgress,
        rlp_length: usize,
        blob_count: Option<u64>,
    ) -> bool {
        contents_verdict(self.block, self.max_blob_count, progress, rlp_length, blob_count) is Ok
    }

    /// Whether the sidecar of a transaction is as it should be: any transaction without
    /// blobs, or a sidecar of the kind in force.
    pub open spec fn has_sidecar(
        self,
        blob_count: Option<u64>,
        sidecar: Option<SidecarKind>,
    ) -> bool {
        blob_count is Some ==> sidecar_verdict(self.block, sidecar) is Ok
    }

    /// Whether a transaction passes every check at the given progress.
    pub open spec fn accepts(self, progress: BuildProgress, next: Inclusion) -> bool {
        &&& self.admits(progress, next.transaction)
        &&& self.fits(progress, next.rlp_length, next.blob_count)
        &&& self.has_sidecar(next.blob_count, next.sidecar)
    }

    /// Whether the checks that the stage stands for hold at the given progress.
    pub open spec fn allows(self, progress: BuildProgress, stage: Stage) -> bool {
        match stage {
            Stage::Idle => true,
            Stage::Admitted { transaction } => self.admits(progress, transaction),
            Stage::Fitting { transaction, rlp_length, blob_count } => {
                &&& self.admits(progress, transaction)
                &&& self.fits(progress, rlp_length, blob_count)
                &&& progress.size_with(self.block, rlp_length) <= usize::MAX
            },
            Stage::Ready { transaction, rlp_length, blob_count, sidecar } => {
                &&& self.admits(progress, transaction)
                &&& self.fits(progress, rlp_length, blob_count)
                &&& self.has_sidecar(blob_count, sidecar)
                &&& progress.size_with(self.block, rlp_length) <= usize::MAX
            },
        }
    }

    /// The progress after the given transactions entered the block, in this order.
    pub open spec fn progress_after(self, packed: Seq<Inclusion>) -> BuildProgress
        decreases packed.len(),
    {
        if packed.len() == 0 {
            self.start()
        } else {
            let next = packed.last();
            self.progress_after(packed.drop_last()).with_transaction(
                next.lane(self.config),
                next.tip(self.block.base_fee),
                next.rlp_length,
                next.blob_count,
                next.gas_used,
            )
        }
    }

    /// Whether the transactions entered the block by way of every check, each at the
    /// progress it met.
    pub open spec fn is_packed(self, packed: Seq<Inclusion>) -> bool
        decreases packed.len(),
    {
        packed.len() > 0 ==> {
            &&& self.is_packed(packed.drop_last())
            &&& self.accepts(self.progress_after(packed.drop_last()), packed.last())
        }
    }

    /// The receipts of a packed block.
    pub open spec fn receipts_of(self, packed: Seq<Inclusion>) -> Seq<LaneReceipt> {
        Seq::new(
            packed.len(),
            |i: int|
                LaneReceipt {
                    cumulative_gas_used: self.progress_after(
                        packed.take(i + 1),
                    ).budget.cumulative_gas_used,
                },
        )
    }

    /// Whether the given progress keeps every limit of the block: both gas limits and
    /// the number of blobs.
    pub open spec fn keeps_limits(self, progress: BuildProgress) -> bool {
        &&& progress.budget.total_gas_limit == self.block.block_gas_limit
        &&& progress.budget.general_gas_limit == self.general_gas_limit
        &&& progress.budget.cumulative_gas_used <= self.block.block_gas_limit
        &&& progress.budget.general_gas_used <= self.general_gas_limit
        &&& progress.blob_count <= self.max_blob_count
    }
}

/// Whether no transaction used more gas than its limit, as execution guarantees.
pub open spec fn within_gas_limits(packed: Seq<Inclusion>) -> bool {
    forall|i: int|
        0 <= i < packed.len() ==> (#[trigger] packed[i]).gas_used
            <= packed[i].transaction.gas_limit
}

/// The transactions of a packed block.
pub open spec fn transactions_of(packed: Seq<Inclusion>) -> Seq<LaneTransaction> {
    Seq::new(packed.len(), |i: int| packed[i].transaction)
}

/// The sum of the fees of the given transactions.
pub open spec fn fees_of(base_fee: u64, packed: Seq<Inclusion>) -> nat
    decreases packed.len(),
{
    if packed.len() == 0 {
        0
    } else {
        fees_of(base_fee, packed.drop_last()) + packed.last().fee(base_fee)
    }
}

/// A packed block grows by what passes every check: a transaction that is admitted,
/// fits and has its sidecar takes a packed block to a packed block, and the progress on
/// by that transaction.
pub proof fn law_checked_transaction_extends_the_packing(
    rules: PackingRules,
    packed: Seq<Inclusion>,
    next: Inclusion,
)
    requires
        rules.is_packed(packed),
        rules.accepts(rules.progress_after(packed), next),
    ensures
        rules.is_packed(packed.push(next)),
        rules.progress_after(packed.push(next)) == rules.progress_after(packed).with_transaction(
            next.lane(rules.config),
            next.tip(rules.block.base_fee),
            next.rlp_length,
            next.blob_count,
            next.gas_used,
        ),
{
    assert(packed.push(next).drop_last() =~= packed);
}

/// A packed block respects its limits: general transactions use no more than the
/// general gas limit, all transactions no more than the block gas limit, the gas of the
/// two lanes makes up the gas of the block, and there are no more blobs than permitted.
pub proof fn law_packed_block_respects_limits(rules: PackingRules, packed: Seq<Inclusion>)
    requires
        rules.is_packed(packed),
        within_gas_limits(packed),
    ensures
        rules.keeps_limits(rules.progress_after(packed)),
        rules.progress_after(packed).budget.is_balanced(),
    decreases packed.len(),
{
    if packed.len() > 0 {
        lemma_prefix_within_gas_limits(packed, packed.len() - 1);
        assert(packed.drop_last() =~= packed.take(packed.len() - 1));
        law_packed_block_respects_limits(rules, packed.drop_last());
        assert(packed[packed.len() - 1].gas_used <= packed.last().transaction.gas_limit);
    }
}

/// Under the Osaka rules the encoded transactions of a packed block leave room for the
/// rest of the block.
pub proof fn law_packed_block_respects_size(rules: PackingRules, packed: Seq<Inclusion>)
    requires
        rules.is_packed(packed),
        rules.block.is_osaka,
        packed.len() > 0,
    ensures
        rules.progress_after(packed).size_with(rules.block, 0) <= rules.block.max_rlp_block_size,
{
}

/// Every blob transaction of a packed block has a sidecar of the kind in force.
pub proof fn law_packed_blobs_have_sidecars(rules: PackingRules, packed: Seq<Inclusion>, i: int)
    requires
        rules.is_packed(packed),
        0 <= i < packed.len(),
        packed[i].blob_count is Some,
    ensures
        packed[i].sidecar == Some(
            if rules.block.is_osaka {
                SidecarKind::Eip7594
            } else {
                SidecarKind::Eip4844
            },
        ),
{
    lemma_prefix_is_packed(rules, packed, i + 1);
    assert(packed.take(i + 1).last() == packed[i]);
}

/// The fees of a block are the sum of the tips per gas of its transactions times the
/// gas they used, modulo 2^256.
pub proof fn law_fees_are_the_sum_of_tips(rules: PackingRules, packed: Seq<Inclusion>)
    ensures
        rules.progress_after(packed).fees == fees_of(rules.block.base_fee, packed)
            % two_to_the_256(),
    decreases packed.len(),
{
    if packed.len() > 0 {
        law_fees_are_the_sum_of_tips(rules, packed.drop_last());
        let before = fees_of(rules.block.base_fee, packed.drop_last());
        let fee = packed.last().fee(rules.block.base_fee);
        vstd::arithmetic::div_mod::lemma_add_mod_noop_right(
            fee as int,
            before as int,
            two_to_the_256() as int,
        );
    }
}

/// Blockspace is reserved for payments: whatever was packed before, a payment that
/// keeps payments within the gas that general transactions cannot use is admitted.
pub proof fn law_reserved_gas_is_kept_for_payments(
    rules: PackingRules,
    packed: Seq<Inclusion>,
    transaction: LaneTransaction,
)
    requires
        rules.is_packed(packed),
        within_gas_limits(packed),
        lane_of(rules.config, transaction.to, transaction.input@) == TxLane::Payment,
        rules.progress_after(packed).budget.payment_gas_used + transaction.gas_limit
            <= rules.block.block_gas_limit - rules.general_gas_limit,
    ensures
        admission(
            rules.config,
            rules.progress_after(packed).budget,
            transaction,
            false,
        ) == Admission::Admit(TxLane::Payment),
{
    law_packed_block_respects_limits(rules, packed);
}

/// Payments are limited by the block alone: unless the build was cancelled, a payment
/// is admitted just when the block has gas left for it, be it reserved gas or gas that
/// general transactions did not use.
pub proof fn law_payments_use_all_that_is_left(
    config: PaymentLaneConfigView,
    budget: LaneGasBudget,
    transaction: LaneTransaction,
)
    requires
        lane_of(config, transaction.to, transaction.input@) == TxLane::Payment,
    ensures
        admission(config, budget, transaction, false) == Admission::Admit(TxLane::Payment)
            <==> budget.cumulative_gas_used + transaction.gas_limit <= budget.total_gas_limit,
{
}

/// When the general budget is exhausted, only payments continue: a general transaction
/// is then never admitted, however much gas payments leave unused, and its sender is
/// never marked invalid.
pub proof fn law_exhausted_general_budget_admits_no_general(
    config: PaymentLaneConfigView,
    budget: LaneGasBudget,
    transaction: LaneTransaction,
    cancelled: bool,
)
    requires
        lane_of(config, transaction.to, transaction.input@) == TxLane::General,
        budget.general_gas_used + transaction.gas_limit > budget.general_gas_limit,
    ensures
        ({
            let result = admission(config, budget, transaction, cancelled);
            result == Admission::SkipLaneFull || (cancelled && result == Admission::Cancelled)
        }),
{
}

/// Builder and validator agree: a block packed under a configuration passes the lane
/// rule of that configuration.
pub proof fn law_packed_block_passes_validation(rules: PackingRules, packed: Seq<Inclusion>)
    requires
        rules.is_packed(packed),
        within_gas_limits(packed),
        rules.general_gas_limit == rules.config.general_gas(
            rules.block.block_gas_limit,
            rules.block.fraction_gas,
        ),
    ensures
        lane_verdict(
            rules.config,
            transactions_of(packed),
            rules.receipts_of(packed),
            rules.block.block_gas_limit,
            rules.block.fraction_gas,
        ) is Ok,
{
    let receipts = rules.receipts_of(packed);
    let count = packed.len() as int;
    assert forall|i: int| 0 <= i < receipts.len() implies #[trigger] gas_after(receipts, i)
        <= gas_after(receipts, i + 1) by {
        lemma_receipts_follow_the_budget(rules, packed, i);
        lemma_receipts_follow_the_budget(rules, packed, i + 1);
        lemma_prefix_is_packed(rules, packed, i + 1);
        lemma_prefix_is_packed(rules, packed, i);
        lemma_prefix_within_gas_limits(packed, i + 1);
        lemma_prefix_within_gas_limits(packed, i);
        assert(packed.take(i + 1).drop_last() =~= packed.take(i));
        law_packed_block_respects_limits(rules, packed.take(i));
        assert(packed.take(i + 1)[i].gas_used <= packed.take(i + 1).last().transaction.gas_limit);
    }
    lemma_receipts_follow_the_budget(rules, packed, count);
    assert(packed.take(count) =~= packed);
    law_packed_block_respects_limits(rules, packed);
}

/// What comes first in a packed block is packed too.
proof fn lemma_prefix_is_packed(rules: PackingRules, packed: Seq<Inclusion>, count: int)
    requires
        rules.is_packed(packed),
        0 <= count <= packed.len(),
    ensures
        rules.is_packed(packed.take(count)),
    decreases packed.len(),
{
    if count == packed.len() {
        assert(packed.take(count) =~= packed);
    } else {
        lemma_prefix_is_packed(rules, packed.drop_last(), count);
        assert(packed.drop_last().take(count) =~= packed.take(count));
    }
}

/// What comes first stays within its gas limits.
proof fn lemma_prefix_within_gas_limits(packed: Seq<Inclusion>, count: int)
    requires
        within_gas_limits(packed),
        0 <= count <= packed.len(),
    ensures
        within_gas_limits(packed.take(count)),
{
    assert forall|i: int| 0 <= i < count implies (#[trigger] packed.take(count)[i]).gas_used
        <= packed.take(count)[i].transaction.gas_limit by {
        assert(packed.take(count)[i] == packed[i]);
    }
}

/// The gas that a validator reads off the receipts of a packed block is the gas that
/// its builder recorded.
proof fn lemma_receipts_follow_the_budget(rules: PackingRules, packed: Seq<Inclusion>, count: int)
    requires
        rules.is_packed(packed),
        within_gas_limits(packed),
        0 <= count <= packed.len(),
    ensures
        ({
            let budget = rules.progress_after(packed.take(count)).budget;
            let receipts = rules.receipts_of(packed);
            &&& gas_after(receipts, count) == budget.cumulative_gas_used
            &&& general_gas_used(rules.config, transactions_of(packed), receipts, count)
                == budget.general_gas_used
        }),
    decreases count,
{
    if count > 0 {
        lemma_receipts_follow_the_budget(rules, packed, count - 1);
        lemma_prefix_is_packed(rules, packed, count);
        lemma_prefix_is_packed(rules, packed, count - 1);
        lemma_prefix_within_gas_limits(packed, count - 1);
        law_packed_block_respects_limits(rules, packed.take(count - 1));
        assert(packed.take(count).drop_last() =~= packed.take(count - 1));
        assert(packed.take(count).last() == packed[count - 1]);
    }
}

/// A block starts empty: with its limits, and no gas, fees, blobs or bytes.
pub proof fn law_blocks_start_empty(rules: PackingRules)
    ensures
        ({
            let start = rules.progress_after(Seq::empty());
            &&& start == rules.start()
            &&& start.budget.total_gas_limit == rules.block.block_gas_limit
            &&& start.budget.general_gas_limit == rules.general_gas_limit
            &&& start.budget.cumulative_gas_used == 0
            &&& start.budget.general_gas_used == 0
            &&& start.budget.payment_gas_used == 0
            &&& start.fees == 0
            &&& start.blob_count == 0
            &&& start.rlp_length == 0
        }),
{
}

/// A block grows by one transaction at a time: the progress goes on by the gas of that
/// transaction in its lane, its tip times its gas, its blobs and its length.
pub proof fn law_blocks_grow_by_their_transactions(
    rules: PackingRules,
    packed: Seq<Inclusion>,
    next: Inclusion,
)
    ensures
        rules.progress_after(packed.push(next)) == rules.progress_after(packed).with_transaction(
            lane_of(rules.config, next.transaction.to, next.transaction.input@),
            next.transaction.tip_at(rules.block.base_fee).unwrap(),
            next.rlp_length,
            next.blob_count,
            next.gas_used,
        ),
{
    assert(packed.push(next).drop_last() =~= packed);
}

/// Every transaction of a packed block had room when it came: its gas limit in the block
/// and, where it is general, in the general lane, its length in an Osaka block, and its
/// blobs, with a sidecar, among those permitted.
pub proof fn law_packed_transactions_had_room(rules: PackingRules, packed: Seq<Inclusion>, i: int)
    requires
        rules.is_packed(packed),
        0 <= i < packed.len(),
    ensures
        ({
            let progress = rules.progress_after(packed.take(i));
            let next = packed[i];
            let gas = next.transaction.gas_limit;
            &&& progress.budget.cumulative_gas_used + gas <= progress.budget.total_gas_limit
            &&& lane_of(rules.config, next.transaction.to, next.transaction.input@)
                == TxLane::General ==> progress.budget.general_gas_used + gas
                <= progress.budget.general_gas_limit
            &&& rules.block.is_osaka ==> progress.rlp_length + next.rlp_length
                + rules.block.withdrawals_rlp_length + 1024 <= rules.block.max_rlp_block_size
            &&& next.blob_count matches Some(count) ==> progress.blob_count + count
                <= rules.max_blob_count && next.sidecar is Some
        }),
{
    lemma_prefix_is_packed(rules, packed, i + 1);
    assert(packed.take(i + 1).drop_last() =~= packed.take(i));
    assert(packed.take(i + 1).last() == packed[i]);
}

/// What it means to be within gas limits, and to keep the limits of a block.
pub proof fn law_limits_are_what_they_say(
    rules: PackingRules,
    progress: BuildProgress,
    packed: Seq<Inclusion>,
)
    ensures
        within_gas_limits(packed) <==> forall|i: int|
            0 <= i < packed.len() ==> (#[trigger] packed[i]).gas_used
                <= packed[i].transaction.gas_limit,
        rules.keeps_limits(progress) <==> {
            &&& progress.budget.total_gas_limit == rules.block.block_gas_limit
            &&& progress.budget.general_gas_limit == rules.general_gas_limit
            &&& progress.budget.cumulative_gas_used <= rules.block.block_gas_limit
            &&& progress.budget.general_gas_used <= rules.general_gas_limit
            &&& progress.blob_count <= rules.max_blob_count
        },
{
}

/// The fees of a transaction are its tip per gas times the gas it used, and the fees of
/// more transactions are those of the fewer and of the one more.
pub proof fn law_fees_of_one_more(base_fee: u64, packed: Seq<Inclusion>, next: Inclusion)
    ensures
        fees_of(base_fee, Seq::empty()) == 0,
        fees_of(base_fee, packed.push(next)) == fees_of(base_fee, packed)
            + next.transaction.tip_at(base_fee).unwrap() * next.gas_used,
{
    assert(packed.push(next).drop_last() =~= packed);
    let tip = next.transaction.tip_at(base_fee).unwrap();
    let gas = next.gas_used;
    assert(tip * gas >= 0) by (nonlinear_arith);
}

} // verus!

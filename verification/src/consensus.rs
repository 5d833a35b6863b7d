//! Consensus-enforced payment lane: the gas that general transactions of a block
//! actually used must stay within the general gas limit.
//!
//! The accounting goes by executed gas, taken from the receipts, not by the gas limits
//! that transactions declare.

use crate::classifier::{lane_of, PaymentClassifier, TxLane};
use crate::config::{PaymentLaneConfig, PaymentLaneConfigView};
use crate::metrics::{advance, counted, PaymentLaneMetrics};
use crate::text::{append_decimal, decimal};
use crate::transaction::{LaneReceipt, LaneTransaction};
use vstd::prelude::*;
use vstd::string::StringExecFns;

verus! {

/// Why a block breaks the lane rule.
#[derive(Debug, Clone, Copy, PartialEq, Eq, Structural)]
pub enum LaneViolation {
    /// There is not one receipt for each transaction.
    CountMismatch {
        /// Number of transactions.
        transactions: usize,
        /// Number of receipts.
        receipts: usize,
    },
    /// The cumulative gas of a receipt is below that of the one before.
    NotMonotonic,
    /// General transactions used more gas than the general gas limit.
    GeneralGasExceeded {
        /// Gas that general transactions used.
        used: u64,
        /// The general gas limit.
        limit: u64,
    },
}

impl LaneViolation {
    /// The message of the violation.
    pub fn to_string(&self) -> (text: String)
        ensures
            text@ == match *self {
                LaneViolation::CountMismatch { transactions, receipts } => {
                    "payment lane violation: transaction/receipt count mismatch ("@ + decimal(
                        transactions as nat,
                    ) + " txs, "@ + decimal(receipts as nat) + " receipts)"@
                },
                LaneViolation::NotMonotonic => {
                    "payment lane violation: receipts are not monotonic"@
                },
                LaneViolation::GeneralGasExceeded { used, limit } => {
                    "payment lane violation: general gas used ("@ + decimal(used as nat)
                        + ") exceeds general gas limit ("@ + decimal(limit as nat) + ")"@
                },
            },
    {
        match self {
            LaneViolation::CountMismatch { transactions, receipts } => {
                let mut text = String::from_str(
                    "payment lane violation: transaction/receipt count mismatch (",
                );
                append_decimal(&mut text, *transactions as u64);
                text.append(" txs, ");
                append_decimal(&mut text, *receipts as u64);
                text.append(" receipts)");
                text
            },
            LaneViolation::NotMonotonic => String::from_str(
                "payment lane violation: receipts are not monotonic",
            ),
            LaneViolation::GeneralGasExceeded { used, limit } => {
                let mut text = String::from_str("payment lane violation: general gas used (");
                append_decimal(&mut text, *used);
                text.append(") exceeds general gas limit (");
                append_decimal(&mut text, *limit);
                text.append(")");
                text
            },
        }
    }
}

/// Cumulative gas of the first `count` transactions.
pub open spec fn gas_after(receipts: Seq<LaneReceipt>, count: int) -> int {
    if count <= 0 {
        0
    } else {
        receipts[count - 1].cumulative_gas_used as int
    }
}

/// Whether cumulative gas never goes down from one receipt to the next.
pub open spec fn is_monotonic(receipts: Seq<LaneReceipt>) -> bool {
    forall|i: int|
        0 <= i < receipts.len() ==> #[trigger] gas_after(receipts, i) <= gas_after(receipts, i + 1)
}

/// Executed gas of the general ones among the first `count` transactions.
pub open spec fn general_gas_used(
    config: PaymentLaneConfigView,
    transactions: Seq<LaneTransaction>,
    receipts: Seq<LaneReceipt>,
    count: int,
) -> int
    decreases count,
{
    if count <= 0 {
        0
    } else {
        let transaction = transactions[count - 1];
        let before = general_gas_used(config, transactions, receipts, count - 1);
        if lane_of(config, transaction.to, transaction.input@) == TxLane::General {
            before + (gas_after(receipts, count) - gas_after(receipts, count - 1))
        } else {
            before
        }
    }
}

/// The answer of the lane rule for a block.
pub open spec fn lane_verdict(
    config: PaymentLaneConfigView,
    transactions: Seq<LaneTransaction>,
    receipts: Seq<LaneReceipt>,
    block_gas_limit: u64,
    fraction_gas: u64,
) -> Result<(), LaneViolation> {
    let limit = config.general_gas(block_gas_limit, fraction_gas);
    let used = general_gas_used(config, transactions, receipts, transactions.len() as int);
    if !config.consensus_enforced {
        Ok(())
    } else if transactions.len() != receipts.len() {
        Err(
            LaneViolation::CountMismatch {
                transactions: transactions.len() as usize,
                receipts: receipts.len() as usize,
            },
        )
    } else if !is_monotonic(receipts) {
        Err(LaneViolation::NotMonotonic)
    } else if used > limit {
        Err(LaneViolation::GeneralGasExceeded { used: used as u64, limit })
    } else {
        Ok(())
    }
}

/// The counters after a block got the given verdict.
pub open spec fn metrics_after(
    metrics: PaymentLaneMetrics,
    enforced: bool,
    verdict: Result<(), LaneViolation>,
) -> PaymentLaneMetrics {
    if !enforced {
        metrics
    } else if verdict is Ok {
        PaymentLaneMetrics {
            consensus_lane_valid: counted(metrics.consensus_lane_valid),
            ..metrics
        }
    } else {
        PaymentLaneMetrics {
            consensus_lane_invalid: counted(metrics.consensus_lane_invalid),
            ..metrics
        }
    }
}

/// Wraps a consensus implementation to add payment lane gas validation.
///
/// When `config.consensus_enforced` is true, block validation includes checking
/// that non-payment transactions don't exceed the general gas limit.
#[derive(Debug)]
pub struct PaymentLaneValidator<C> {
    /// The inner consensus implementation.
    inner: C,
    /// Payment classifier for determining transaction lanes.
    classifier: PaymentClassifier,
    /// Payment lane configuration.
    config: PaymentLaneConfig,
    /// Metrics for tracking validation results.
    metrics: PaymentLaneMetrics,
}

/// Why a block is refused after execution.
#[derive(Debug)]
pub enum PostExecutionError<E> {
    /// The inner consensus refused the block.
    Inner(E),
    /// The block breaks the lane rule.
    Lane(LaneViolation),
}

impl<C> PaymentLaneValidator<C> {
    /// Classifier and limits go by one configuration.
    #[verifier::type_invariant]
    spec fn wf(self) -> bool {
        self.classifier@ == self.config@
    }

    /// The configuration of the lane.
    pub closed spec fn lane_config(self) -> PaymentLaneConfigView {
        self.config@
    }

    /// The wrapped consensus.
    pub closed spec fn wrapped(self) -> C {
        self.inner
    }

    /// The counters of validation results.
    pub closed spec fn counters(self) -> PaymentLaneMetrics {
        self.metrics
    }

    /// Creates a new [`PaymentLaneValidator`] wrapping the given consensus.
    pub fn new(inner: C, config: PaymentLaneConfig) -> (validator: Self)
        ensures
            validator.lane_config() == config@,
            validator.wrapped() == inner,
            validator.counters() == PaymentLaneMetrics::zero(),
    {
        let classifier = PaymentClassifier::new(config.clone());
        PaymentLaneValidator { inner, classifier, config, metrics: PaymentLaneMetrics::default() }
    }

    /// Returns a reference to the inner consensus.
    pub fn inner(&self) -> (inner: &C)
        ensures
            *inner == self.wrapped(),
    {
        &self.inner
    }

    /// Returns the counters of validation results.
    pub fn metrics(&self) -> (metrics: PaymentLaneMetrics)
        ensures
            metrics == self.counters(),
    {
        self.metrics
    }

    /// Validates the executed payment lane gas accounting for a block's transactions.
    ///
    /// Returns `Ok(())` if the general gas limit is satisfied, or an error if
    /// non-payment transactions exceed their budget. `fraction_gas` is what the
    /// reserved fraction of the block gas limit comes to.
    pub fn validate_lane_gas(
        &mut self,
        transactions: &[LaneTransaction],
        receipts: &[LaneReceipt],
        block_gas_limit: u64,
        fraction_gas: u64,
    ) -> (result: Result<(), LaneViolation>)
        ensures
            result == lane_verdict(
                old(self).lane_config(),
                transactions@,
                receipts@,
                block_gas_limit,
                fraction_gas,
            ),
            final(self).counters() == metrics_after(
                old(self).counters(),
                old(self).lane_config().consensus_enforced,
                result,
            ),
            final(self).lane_config() == old(self).lane_config(),
            final(self).wrapped() == old(self).wrapped(),
    {
        proof {
            use_type_invariant(&*self);
        }
        if !self.config.consensus_enforced {
            return Ok(());
        }
        let result = self.check_lane_gas(transactions, receipts, block_gas_limit, fraction_gas);
        match result {
            Ok(()) => {
                self.metrics.consensus_lane_valid = advance(self.metrics.consensus_lane_valid);
            },
            Err(_) => {
                self.metrics.consensus_lane_invalid = advance(self.metrics.consensus_lane_invalid);
            },
        }
        result
    }

    /// Walks transactions and receipts of a block under the enforced lane rule.
    fn check_lane_gas(
        &self,
        transactions: &[LaneTransaction],
        receipts: &[LaneReceipt],
        block_gas_limit: u64,
        fraction_gas: u64,
    ) -> (result: Result<(), LaneViolation>)
        requires
            self.lane_config().consensus_enforced,
        ensures
            result == lane_verdict(
                self.lane_config(),
                transactions@,
                receipts@,
                block_gas_limit,
                fraction_gas,
            ),
    {
        proof {
            use_type_invariant(self);
        }
        if transactions.len() != receipts.len() {
            return Err(
                LaneViolation::CountMismatch {
                    transactions: transactions.len(),
                    receipts: receipts.len(),
                },
            );
        }
        let general_gas_limit: u64 = self.config.compute_general_gas_limit(
            block_gas_limit,
            fraction_gas,
        );
        let mut used: u64 = 0;
        let mut previous: u64 = 0;
        let mut i: usize = 0;
        while i < transactions.len()
            invariant
                i <= transactions@.len() == receipts@.len(),
                self.classifier@ == self.lane_config(),
                self.lane_config().consensus_enforced,
                previous == gas_after(receipts@, i as int),
                used == general_gas_used(self.lane_config(), transactions@, receipts@, i as int),
                used <= previous,
                forall|k: int|
                    0 <= k < i ==> #[trigger] gas_after(receipts@, k) <= gas_after(receipts@, k + 1),
            decreases transactions@.len() - i,
        {
            let transaction = &transactions[i];
            let cumulative: u64 = receipts[i].cumulative_gas_used;
            assert(gas_after(receipts@, i + 1) == cumulative);
            let lane = self.classifier.classify(
                transaction.to.as_ref(),
                transaction.input.as_slice(),
            );
            if cumulative < previous {
                assert(gas_after(receipts@, i as int) > gas_after(receipts@, i + 1));
                return Err(LaneViolation::NotMonotonic);
            }
            let gas_used: u64 = cumulative - previous;
            previous = cumulative;
            if lane == TxLane::General {
                used = used.saturating_add(gas_used);
            }
            i = i + 1;
        }
        if used > general_gas_limit {
            return Err(LaneViolation::GeneralGasExceeded { used, limit: general_gas_limit });
        }
        Ok(())
    }

    /// Judges a block after execution: the answer of the inner consensus comes first,
    /// and the lane rule is applied only to blocks that it accepts.
    pub fn validate_block_post_execution<E>(
        &mut self,
        inner_result: Result<(), E>,
        transactions: &[LaneTransaction],
        receipts: &[LaneReceipt],
        block_gas_limit: u64,
        fraction_gas: u64,
    ) -> (result: Result<(), PostExecutionError<E>>)
        ensures
            ({
                let verdict = lane_verdict(
                    old(self).lane_config(),
                    transactions@,
                    receipts@,
                    block_gas_limit,
                    fraction_gas,
                );
                match inner_result {
                    Err(error) => {
                        &&& result == Err::<(), PostExecutionError<E>>(
                            PostExecutionError::Inner(error),
                        )
                        &&& final(self).counters() == old(self).counters()
                    },
                    Ok(_) => {
                        &&& result == match verdict {
                            Ok(_) => Ok::<(), PostExecutionError<E>>(()),
                            Err(violation) => Err(PostExecutionError::Lane(violation)),
                        }
                        &&& final(self).counters() == metrics_after(
                            old(self).counters(),
                            old(self).lane_config().consensus_enforced,
                            verdict,
                        )
                    },
                }
            }),
            final(self).lane_config() == old(self).lane_config(),
            final(self).wrapped() == old(self).wrapped(),
    {
        match inner_result {
            Err(error) => Err(PostExecutionError::Inner(error)),
            Ok(()) => {
                match self.validate_lane_gas(
                    transactions,
                    receipts,
                    block_gas_limit,
                    fraction_gas,
                ) {
                    Ok(()) => Ok(()),
                    Err(violation) => Err(PostExecutionError::Lane(violation)),
                }
            },
        }
    }
}

impl<C: Clone> Clone for PaymentLaneValidator<C> {
    fn clone(&self) -> (copy: Self)
        ensures
            copy.lane_config() == self.lane_config(),
            copy.counters() == self.counters(),
            cloned(self.wrapped(), copy.wrapped()),
    {
        proof {
            use_type_invariant(self);
        }
        PaymentLaneValidator {
            inner: self.inner.clone(),
            classifier: self.classifier.clone(),
            config: self.config.clone(),
            metrics: self.metrics,
        }
    }
}

/// Gas goes by what was executed: two blocks whose transactions call the same addresses
/// with the same data are judged alike, whatever gas limits and fees they declare.
pub proof fn law_declared_gas_does_not_matter(
    config: PaymentLaneConfigView,
    transactions: Seq<LaneTransaction>,
    others: Seq<LaneTransaction>,
    receipts: Seq<LaneReceipt>,
    block_gas_limit: u64,
    fraction_gas: u64,
)
    requires
        transactions.len() == others.len(),
        forall|i: int|
            0 <= i < transactions.len() ==> (#[trigger] transactions[i]).to == others[i].to
                && transactions[i].input@ == others[i].input@,
    ensures
        lane_verdict(config, transactions, receipts, block_gas_limit, fraction_gas)
            == lane_verdict(config, others, receipts, block_gas_limit, fraction_gas),
{
    lemma_gas_goes_by_calls(config, transactions, others, receipts, transactions.len() as int);
}

/// Transactions with the same calls use the same general gas.
proof fn lemma_gas_goes_by_calls(
    config: PaymentLaneConfigView,
    transactions: Seq<LaneTransaction>,
    others: Seq<LaneTransaction>,
    receipts: Seq<LaneReceipt>,
    count: int,
)
    requires
        transactions.len() == others.len(),
        0 <= count <= transactions.len(),
        forall|i: int|
            0 <= i < transactions.len() ==> (#[trigger] transactions[i]).to == others[i].to
                && transactions[i].input@ == others[i].input@,
    ensures
        general_gas_used(config, transactions, receipts, count) == general_gas_used(
            config,
            others,
            receipts,
            count,
        ),
    decreases count,
{
    if count > 0 {
        lemma_gas_goes_by_calls(config, transactions, others, receipts, count - 1);
        assert(transactions[count - 1].to == others[count - 1].to);
    }
}

/// General gas is a part of the gas of the block: with receipts that do not go down it
/// is never negative and never above the last cumulative gas.
pub proof fn law_general_gas_is_part_of_the_block(
    config: PaymentLaneConfigView,
    transactions: Seq<LaneTransaction>,
    receipts: Seq<LaneReceipt>,
    count: int,
)
    requires
        is_monotonic(receipts),
        0 <= count <= receipts.len(),
    ensures
        0 <= general_gas_used(config, transactions, receipts, count) <= gas_after(receipts, count),
    decreases count,
{
    if count > 0 {
        law_general_gas_is_part_of_the_block(config, transactions, receipts, count - 1);
        assert(gas_after(receipts, count - 1) <= gas_after(receipts, count - 1 + 1));
    }
}

/// Payment gas is not counted: a block of nothing but payments uses no general gas, and
/// is accepted whatever gas the payments use.
pub proof fn law_payments_are_not_counted(
    config: PaymentLaneConfigView,
    transactions: Seq<LaneTransaction>,
    receipts: Seq<LaneReceipt>,
    block_gas_limit: u64,
    fraction_gas: u64,
)
    requires
        transactions.len() == receipts.len(),
        is_monotonic(receipts),
        forall|i: int|
            0 <= i < transactions.len() ==> lane_of(
                config,
                (#[trigger] transactions[i]).to,
                transactions[i].input@,
            ) == TxLane::Payment,
    ensures
        general_gas_used(config, transactions, receipts, transactions.len() as int) == 0,
        lane_verdict(config, transactions, receipts, block_gas_limit, fraction_gas) is Ok,
{
    lemma_payments_use_no_general_gas(config, transactions, receipts, transactions.len() as int);
}

/// Payments use no general gas.
proof fn lemma_payments_use_no_general_gas(
    config: PaymentLaneConfigView,
    transactions: Seq<LaneTransaction>,
    receipts: Seq<LaneReceipt>,
    count: int,
)
    requires
        0 <= count <= transactions.len(),
        forall|i: int|
            0 <= i < transactions.len() ==> lane_of(
                config,
                (#[trigger] transactions[i]).to,
                transactions[i].input@,
            ) == TxLane::Payment,
    ensures
        general_gas_used(config, transactions, receipts, count) == 0,
    decreases count,
{
    if count > 0 {
        lemma_payments_use_no_general_gas(config, transactions, receipts, count - 1);
        let transaction = transactions[count - 1];
        assert(lane_of(config, transaction.to, transaction.input@) == TxLane::Payment);
    }
}

/// The lane rule: where it is enforced, a block with one receipt for each transaction
/// and cumulative gas that does not go down is accepted just when its general gas is
/// within the general gas limit.
pub proof fn law_accepted_blocks_respect_the_limit(
    config: PaymentLaneConfigView,
    transactions: Seq<LaneTransaction>,
    receipts: Seq<LaneReceipt>,
    block_gas_limit: u64,
    fraction_gas: u64,
)
    requires
        config.consensus_enforced,
    ensures
        lane_verdict(config, transactions, receipts, block_gas_limit, fraction_gas) is Ok <==> {
            &&& transactions.len() == receipts.len()
            &&& is_monotonic(receipts)
            &&& general_gas_used(config, transactions, receipts, transactions.len() as int)
                <= config.general_gas(block_gas_limit, fraction_gas)
        },
{
}

/// Where the rule is not enforced every block is accepted, and no counter moves.
pub proof fn law_unenforced_rule_accepts_all(
    config: PaymentLaneConfigView,
    metrics: PaymentLaneMetrics,
    transactions: Seq<LaneTransaction>,
    receipts: Seq<LaneReceipt>,
    block_gas_limit: u64,
    fraction_gas: u64,
)
    requires
        !config.consensus_enforced,
    ensures
        ({
            let verdict = lane_verdict(
                config,
                transactions,
                receipts,
                block_gas_limit,
                fraction_gas,
            );
            verdict is Ok && metrics_after(metrics, config.consensus_enforced, verdict) == metrics
        }),
{
}

/// Cumulative gas is what the receipts say, and none before the first.
pub proof fn law_cumulative_gas(receipts: Seq<LaneReceipt>, count: int)
    requires
        0 <= count <= receipts.len(),
    ensures
        count == 0 ==> gas_after(receipts, count) == 0,
        count > 0 ==> gas_after(receipts, count) == receipts[count - 1].cumulative_gas_used,
{
}

/// General gas adds up transaction by transaction: none before the first; a general
/// transaction adds the difference of its receipt to the one before, and a payment adds
/// nothing.
pub proof fn law_general_gas_adds_up(
    config: PaymentLaneConfigView,
    transactions: Seq<LaneTransaction>,
    receipts: Seq<LaneReceipt>,
    count: int,
)
    requires
        0 <= count < transactions.len(),
        transactions.len() == receipts.len(),
    ensures
        general_gas_used(config, transactions, receipts, 0) == 0,
        ({
            let lane = lane_of(config, transactions[count].to, transactions[count].input@);
            let before = general_gas_used(config, transactions, receipts, count);
            let after = general_gas_used(config, transactions, receipts, count + 1);
            &&& lane == TxLane::Payment ==> after == before
            &&& lane == TxLane::General && count == 0 ==> after
                == receipts[0].cumulative_gas_used
            &&& lane == TxLane::General && count > 0 ==> after - before
                == receipts[count].cumulative_gas_used - receipts[count - 1].cumulative_gas_used
        }),
{
    reveal_with_fuel(general_gas_used, 2);
}

/// The answer to every block: without enforcement every block is accepted. Under it,
/// first the counts of transactions and receipts must agree, then no receipt may have
/// less cumulative gas than the one before, and then the gas of general transactions
/// must be within the limit; each violation names its numbers.
pub proof fn law_verdict_on_every_block(
    config: PaymentLaneConfigView,
    transactions: Seq<LaneTransaction>,
    receipts: Seq<LaneReceipt>,
    block_gas_limit: u64,
    fraction_gas: u64,
)
    requires
        transactions.len() <= usize::MAX,
        receipts.len() <= usize::MAX,
    ensures
        ({
            let verdict = lane_verdict(
                config,
                transactions,
                receipts,
                block_gas_limit,
                fraction_gas,
            );
            let used = general_gas_used(config, transactions, receipts, transactions.len() as int);
            let limit = config.general_gas(block_gas_limit, fraction_gas);
            let falls = exists|i: int|
                1 <= i < receipts.len() && (#[trigger] receipts[i]).cumulative_gas_used
                    < receipts[i - 1].cumulative_gas_used;
            if !config.consensus_enforced {
                verdict is Ok
            } else if transactions.len() != receipts.len() {
                &&& verdict is Err
                &&& verdict->Err_0 is CountMismatch
                &&& verdict->Err_0->transactions == transactions.len()
                &&& verdict->Err_0->receipts == receipts.len()
            } else if falls {
                verdict is Err && verdict->Err_0 is NotMonotonic
            } else if used > limit {
                &&& verdict is Err
                &&& verdict->Err_0 is GeneralGasExceeded
                &&& verdict->Err_0->used == used
                &&& verdict->Err_0->limit == limit
            } else {
                verdict is Ok
            }
        }),
{
    if transactions.len() == receipts.len() {
        if exists|i: int|
            1 <= i < receipts.len() && (#[trigger] receipts[i]).cumulative_gas_used
                < receipts[i - 1].cumulative_gas_used {
            let i = choose|i: int|
                1 <= i < receipts.len() && (#[trigger] receipts[i]).cumulative_gas_used
                    < receipts[i - 1].cumulative_gas_used;
            assert(gas_after(receipts, i) > gas_after(receipts, i + 1));
        } else {
            assert forall|i: int| 0 <= i < receipts.len() implies #[trigger] gas_after(receipts, i)
                <= gas_after(receipts, i + 1) by {
                assert(receipts[i].cumulative_gas_used >= 0);
            }
            assert(is_monotonic(receipts));
            law_general_gas_is_part_of_the_block(
                config,
                transactions,
                receipts,
                receipts.len() as int,
            );
        }
    }
}

/// Of the counters, only the one of the verdict moves, by one, and none where the rule is
/// not enforced.
pub proof fn law_verdicts_are_counted(
    metrics: PaymentLaneMetrics,
    enforced: bool,
    verdict: Result<(), LaneViolation>,
)
    ensures
        ({
            let after = metrics_after(metrics, enforced, verdict);
            let valid = counted(metrics.consensus_lane_valid);
            let invalid = counted(metrics.consensus_lane_invalid);
            &&& !enforced ==> after == metrics
            &&& enforced && verdict is Ok ==> after == (PaymentLaneMetrics {
                consensus_lane_valid: valid,
                ..metrics
            })
            &&& enforced && verdict is Err ==> after == (PaymentLaneMetrics {
                consensus_lane_invalid: invalid,
                ..metrics
            })
        }),
{
}

/// Moving transactions from the general lane to the payment lane never breaks the rule:
/// what is accepted stays accepted where every payment stays a payment.
pub proof fn law_more_payments_stay_accepted(
    config: PaymentLaneConfigView,
    transactions: Seq<LaneTransaction>,
    others: Seq<LaneTransaction>,
    receipts: Seq<LaneReceipt>,
    block_gas_limit: u64,
    fraction_gas: u64,
)
    requires
        transactions.len() == others.len(),
        forall|i: int|
            0 <= i < transactions.len() && lane_of(
                config,
                (#[trigger] transactions[i]).to,
                transactions[i].input@,
            ) == TxLane::Payment ==> lane_of(config, others[i].to, others[i].input@)
                == TxLane::Payment,
        lane_verdict(config, transactions, receipts, block_gas_limit, fraction_gas) is Ok,
    ensures
        lane_verdict(config, others, receipts, block_gas_limit, fraction_gas) is Ok,
{
    if config.consensus_enforced {
        lemma_more_payments_use_less(
            config,
            transactions,
            others,
            receipts,
            transactions.len() as int,
        );
    }
}

/// More payments use no more general gas.
proof fn lemma_more_payments_use_less(
    config: PaymentLaneConfigView,
    transactions: Seq<LaneTransaction>,
    others: Seq<LaneTransaction>,
    receipts: Seq<LaneReceipt>,
    count: int,
)
    requires
        0 <= count <= transactions.len() == others.len(),
        transactions.len() == receipts.len(),
        is_monotonic(receipts),
        forall|i: int|
            0 <= i < transactions.len() && lane_of(
                config,
                (#[trigger] transactions[i]).to,
                transactions[i].input@,
            ) == TxLane::Payment ==> lane_of(config, others[i].to, others[i].input@)
                == TxLane::Payment,
    ensures
        general_gas_used(config, others, receipts, count) <= general_gas_used(
            config,
            transactions,
            receipts,
            count,
        ),
    decreases count,
{
    if count > 0 {
        lemma_more_payments_use_less(config, transactions, others, receipts, count - 1);
        let transaction = transactions[count - 1];
        assert(gas_after(receipts, count - 1) <= gas_after(receipts, count - 1 + 1));
    }
}

} // verus!

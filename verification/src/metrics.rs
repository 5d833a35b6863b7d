//! Counters of what the payment lane decided.

use vstd::prelude::*;

verus! {

/// Metrics for the payment lane system.
///
/// Each counter is monotonic and wraps after 2^64 - 1.
#[derive(Debug, Clone, Copy, PartialEq, Eq, Structural)]
pub struct PaymentLaneMetrics {
    /// Total number of transactions classified as payment.
    pub payment_tx_classified: u64,
    /// Total number of transactions classified as general.
    pub general_tx_classified: u64,
    /// Number of payment transactions included in built payloads.
    pub payment_tx_included: u64,
    /// Number of general transactions included in built payloads.
    pub general_tx_included: u64,
    /// Number of general transactions skipped due to general gas limit exhaustion.
    pub general_tx_skipped_lane_full: u64,
    /// Number of payment transactions that consumed reserved gas.
    pub payment_gas_used_reserved: u64,
    /// Number of payment transactions that consumed shared/overflow gas.
    pub payment_gas_used_overflow: u64,
    /// Number of blocks built with payment lane policy.
    pub blocks_built: u64,
    /// Consensus lane validation passes.
    pub consensus_lane_valid: u64,
    /// Consensus lane validation failures.
    pub consensus_lane_invalid: u64,
    /// Fast-path transactions processed.
    pub fastpath_tx_processed: u64,
    /// Fast-path conflicts detected.
    pub fastpath_conflicts: u64,
    /// Parallel nonce transactions validated.
    pub parallel_nonce_validated: u64,
    /// Expired nonce transactions rejected.
    pub expired_nonce_rejected: u64,
}

/// The value of a counter one step after `count`.
pub open spec fn counted(count: u64) -> u64 {
    if count == u64::MAX {
        0
    } else {
        (count + 1) as u64
    }
}

/// Advances a counter by one step.
pub fn advance(count: u64) -> (next: u64)
    ensures
        next == counted(count),
{
    if count == u64::MAX {
        0
    } else {
        count + 1
    }
}

impl PaymentLaneMetrics {
    /// All counters at zero.
    pub open spec fn zero() -> PaymentLaneMetrics {
        PaymentLaneMetrics {
            payment_tx_classified: 0,
            general_tx_classified: 0,
            payment_tx_included: 0,
            general_tx_included: 0,
            general_tx_skipped_lane_full: 0,
            payment_gas_used_reserved: 0,
            payment_gas_used_overflow: 0,
            blocks_built: 0,
            consensus_lane_valid: 0,
            consensus_lane_invalid: 0,
            fastpath_tx_processed: 0,
            fastpath_conflicts: 0,
            parallel_nonce_validated: 0,
            expired_nonce_rejected: 0,
        }
    }
}

impl Default for PaymentLaneMetrics {
    fn default() -> (metrics: Self)
        ensures
            metrics == PaymentLaneMetrics::zero(),
    {
        PaymentLaneMetrics {
            payment_tx_classified: 0,
            general_tx_classified: 0,
            payment_tx_included: 0,
            general_tx_included: 0,
            general_tx_skipped_lane_full: 0,
            payment_gas_used_reserved: 0,
            payment_gas_used_overflow: 0,
            blocks_built: 0,
            consensus_lane_valid: 0,
            consensus_lane_invalid: 0,
            fastpath_tx_processed: 0,
            fastpath_conflicts: 0,
            parallel_nonce_validated: 0,
            expired_nonce_rejected: 0,
        }
    }
}

/// Counting is stepping by one, modulo 2^64, from zero on.
pub proof fn law_counters_step_by_one(count: u64)
    ensures
        count < u64::MAX ==> counted(count) == count + 1,
        count == u64::MAX ==> counted(count) == 0,
{
}

/// Every counter starts at zero.
pub proof fn law_counters_start_at_zero()
    ensures
        ({
            let zero = PaymentLaneMetrics::zero();
            &&& zero.payment_tx_classified == 0
            &&& zero.general_tx_classified == 0
            &&& zero.payment_tx_included == 0
            &&& zero.general_tx_included == 0
            &&& zero.general_tx_skipped_lane_full == 0
            &&& zero.payment_gas_used_reserved == 0
            &&& zero.payment_gas_used_overflow == 0
            &&& zero.blocks_built == 0
            &&& zero.consensus_lane_valid == 0
            &&& zero.consensus_lane_invalid == 0
            &&& zero.fastpath_tx_processed == 0
            &&& zero.fastpath_conflicts == 0
            &&& zero.parallel_nonce_validated == 0
            &&& zero.expired_nonce_rejected == 0
        }),
{
}

} // verus!

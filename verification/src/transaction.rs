//! What the payment lane reads of a transaction and of a receipt.

use crate::primitives::Address;
use vstd::prelude::*;

verus! {

/// The parts of a transaction that decide its lane, its gas and its tip.
#[derive(Debug, Clone)]
pub struct LaneTransaction {
    /// The address called, or `None` where the transaction creates a contract.
    pub to: Option<Address>,
    /// The calldata.
    pub input: Vec<u8>,
    /// The declared gas limit.
    pub gas_limit: u64,
    /// The highest fee per gas the sender pays; the gas price of a transaction
    /// without a priority fee.
    pub max_fee_per_gas: u128,
    /// The highest priority fee per gas, for transactions that have one.
    pub max_priority_fee_per_gas: Option<u128>,
}

/// The part of a receipt that gas accounting reads.
#[derive(Debug, Clone, Copy, PartialEq, Eq, Structural)]
pub struct LaneReceipt {
    /// Gas used in the block up to and with this transaction.
    pub cumulative_gas_used: u64,
}

/// The smaller of two numbers.
pub open spec fn smaller(a: int, b: int) -> int {
    if a <= b {
        a
    } else {
        b
    }
}

impl LaneTransaction {
    /// The tip per gas at the given base fee: what the fee cap leaves above the base
    /// fee, at most the priority fee. `None` where the cap is below the base fee.
    pub open spec fn tip_at(self, base_fee: u64) -> Option<u128> {
        if self.max_fee_per_gas < base_fee {
            None
        } else {
            let rest = self.max_fee_per_gas - base_fee;
            match self.max_priority_fee_per_gas {
                Some(priority_fee) => Some(smaller(rest, priority_fee as int) as u128),
                None => Some(rest as u128),
            }
        }
    }

    /// Returns the effective tip per gas at the given base fee.
    pub fn effective_tip_per_gas(&self, base_fee: u64) -> (tip: Option<u128>)
        ensures
            tip == self.tip_at(base_fee),
    {
        match self.max_priority_fee_per_gas {
            Some(priority_fee) => dynamic_fee_tip(self.max_fee_per_gas, priority_fee, base_fee),
            None => legacy_fee_tip(self.max_fee_per_gas, base_fee),
        }
    }
}

/// Calls `alloy_consensus::Transaction::effective_tip_per_gas` on a dynamic-fee
/// transaction (`TxEip1559`) with these fees. Claimed of it: the smaller of the
/// priority fee and what the fee cap leaves above the base fee, and `None` where the
/// cap is below the base fee.
#[verifier::external_body]
fn dynamic_fee_tip(max_fee_per_gas: u128, max_priority_fee_per_gas: u128, base_fee: u64) -> (tip:
    Option<u128>)
    ensures
        tip == (if max_fee_per_gas < base_fee {
            None::<u128>
        } else {
            Some(smaller(max_fee_per_gas - base_fee, max_priority_fee_per_gas as int) as u128)
        }),
{
    let tx = alloy_consensus::TxEip1559 {
        max_fee_per_gas,
        max_priority_fee_per_gas,
        ..Default::default()
    };
    alloy_consensus::Transaction::effective_tip_per_gas(&tx, base_fee)
}

/// Calls `alloy_consensus::Transaction::effective_tip_per_gas` on a transaction
/// without a priority fee (`TxLegacy`) at this gas price. Claimed of it: what the gas
/// price leaves above the base fee, and `None` where it is below the base fee.
#[verifier::external_body]
fn legacy_fee_tip(gas_price: u128, base_fee: u64) -> (tip: Option<u128>)
    ensures
        tip == (if gas_price < base_fee {
            None::<u128>
        } else {
            Some((gas_price - base_fee) as u128)
        }),
{
    let tx = alloy_consensus::TxLegacy { gas_price, ..Default::default() };
    alloy_consensus::Transaction::effective_tip_per_gas(&tx, base_fee)
}

/// The tip is the most that a transaction can pay above the base fee: there is one
/// exactly if the fee cap covers the base fee, base fee and tip are within the cap, the
/// tip is within the priority fee where one is declared, and one of the two is reached.
pub proof fn law_tip_is_the_most_that_fees_allow(transaction: LaneTransaction, base_fee: u64)
    ensures
        transaction.tip_at(base_fee) is Some <==> base_fee <= transaction.max_fee_per_gas,
        transaction.tip_at(base_fee) matches Some(tip) ==> {
            &&& base_fee + tip <= transaction.max_fee_per_gas
            &&& transaction.max_priority_fee_per_gas matches Some(most) ==> tip <= most
            &&& base_fee + tip == transaction.max_fee_per_gas
                || transaction.max_priority_fee_per_gas == Some(tip)
        },
{
}

/// A higher base fee never raises the tip.
pub proof fn law_base_fee_lowers_tips(transaction: LaneTransaction, low: u64, high: u64)
    requires
        low <= high,
        transaction.tip_at(high) is Some,
    ensures
        transaction.tip_at(low) is Some,
        transaction.tip_at(high)->0 <= transaction.tip_at(low)->0,
{
}

} // verus!

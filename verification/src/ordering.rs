//! Payment-aware transaction ordering: payments come first, and within a lane the
//! higher tip.

use crate::classifier::{lane_of, PaymentClassifier, TxLane};
use crate::config::{default_config, PaymentLaneConfigView};
use crate::transaction::LaneTransaction;
use std::cmp::Ordering;
use std::marker::PhantomData;
use vstd::prelude::*;
use vstd::std_specs::cmp::PartialOrdSpec;

verus! {

/// Priority value that encodes both the lane classification and the base priority.
///
/// Payment transactions are always ordered above general transactions.
#[derive(Debug, Clone, Copy, PartialEq, Eq, Structural)]
pub struct PaymentPriority {
    /// Whether this is a payment transaction (boosted).
    pub lane: TxLane,
    /// The effective tip per gas (base priority).
    pub tip: u128,
}

impl Default for PaymentPriority {
    fn default() -> (priority: Self)
        ensures
            priority == (PaymentPriority { lane: TxLane::General, tip: 0 }),
    {
        PaymentPriority { lane: TxLane::General, tip: 0 }
    }
}

impl PaymentPriority {
    /// Whether this priority is above `other`: a payment is above every general
    /// transaction, and in one lane the higher tip is above.
    pub open spec fn above(self, other: PaymentPriority) -> bool {
        ||| self.lane == TxLane::Payment && other.lane == TxLane::General
        ||| self.lane == other.lane && self.tip > other.tip
    }

    /// How this priority compares to `other`.
    pub open spec fn order_to(self, other: PaymentPriority) -> Ordering {
        if self.above(other) {
            Ordering::Greater
        } else if other.above(self) {
            Ordering::Less
        } else {
            Ordering::Equal
        }
    }

    /// Compares two priorities.
    pub fn cmp(&self, other: &Self) -> (order: Ordering)
        ensures
            order == self.order_to(*other),
    {
        match (self.lane, other.lane) {
            (TxLane::Payment, TxLane::General) => Ordering::Greater,
            (TxLane::General, TxLane::Payment) => Ordering::Less,
            _ => {
                if self.tip < other.tip {
                    Ordering::Less
                } else if self.tip == other.tip {
                    Ordering::Equal
                } else {
                    Ordering::Greater
                }
            },
        }
    }
}

impl PartialOrd for PaymentPriority {
    fn partial_cmp(&self, other: &Self) -> (order: Option<Ordering>) {
        Some(self.cmp(other))
    }
}

impl vstd::std_specs::cmp::PartialOrdSpecImpl for PaymentPriority {
    open spec fn obeys_partial_cmp_spec() -> bool {
        true
    }

    open spec fn partial_cmp_spec(&self, other: &Self) -> Option<Ordering> {
        Some(self.order_to(*other))
    }
}

/// The tip of a payment with the boost applied, at most the largest 128-bit number.
pub open spec fn boosted(tip: u128, boost_factor: u64) -> u128 {
    if tip * boost_factor > u128::MAX {
        u128::MAX
    } else {
        (tip * boost_factor) as u128
    }
}

/// The priority of a transaction at a base fee: none where its fee cap is below the
/// base fee, else its lane and its tip, boosted for a payment.
pub open spec fn priority_of(
    config: PaymentLaneConfigView,
    boost_factor: u64,
    transaction: LaneTransaction,
    base_fee: u64,
) -> Option<PaymentPriority> {
    let lane = lane_of(config, transaction.to, transaction.input@);
    match transaction.tip_at(base_fee) {
        None => None,
        Some(tip) => Some(
            PaymentPriority {
                lane,
                tip: match lane {
                    TxLane::Payment => boosted(tip, boost_factor),
                    TxLane::General => tip,
                },
            },
        ),
    }
}

/// Transaction ordering that is payment-lane aware.
///
/// Payment transactions receive a priority boost, ensuring they are included
/// preferentially during block building. Within the same lane, transactions
/// are ordered by effective tip per gas.
#[derive(Debug)]
pub struct PaymentAwareOrdering<T> {
    /// The classifier used to determine transaction lanes.
    classifier: PaymentClassifier,
    /// Priority boost multiplier for payment transactions.
    boost_factor: u64,
    _marker: PhantomData<T>,
}

impl<T> PaymentAwareOrdering<T> {
    /// The configuration by which transactions are classified.
    pub closed spec fn lane_config(self) -> PaymentLaneConfigView {
        self.classifier@
    }

    /// The multiplier for the tips of payments.
    pub closed spec fn boost(self) -> u64 {
        self.boost_factor
    }

    /// Creates a new [`PaymentAwareOrdering`] with the given classifier and boost
    /// factor.
    pub fn new(classifier: PaymentClassifier, boost_factor: u64) -> (ordering: Self)
        ensures
            ordering.lane_config() == classifier@,
            ordering.boost() == boost_factor,
    {
        PaymentAwareOrdering { classifier, boost_factor, _marker: PhantomData }
    }

    /// Returns the priority boost multiplier for payment transactions.
    pub fn boost_factor(&self) -> (boost_factor: u64)
        ensures
            boost_factor == self.boost(),
    {
        self.boost_factor
    }

    /// Returns the priority of a transaction at the given base fee, or `None` where it
    /// does not pay the base fee.
    pub fn priority(&self, transaction: &LaneTransaction, base_fee: u64) -> (priority: Option<
        PaymentPriority,
    >)
        ensures
            priority == priority_of(self.lane_config(), self.boost(), *transaction, base_fee),
    {
        let tip: u128 = match transaction.effective_tip_per_gas(base_fee) {
            Some(tip) => tip,
            None => {
                return None;
            },
        };
        let lane = self.classifier.classify(transaction.to.as_ref(), transaction.input.as_slice());
        let boosted_tip: u128 = match lane {
            TxLane::Payment => match tip.checked_mul(self.boost_factor as u128) {
                Some(product) => product,
                None => u128::MAX,
            },
            TxLane::General => tip,
        };
        Some(PaymentPriority { lane, tip: boosted_tip })
    }
}

impl<T> Default for PaymentAwareOrdering<T> {
    fn default() -> (ordering: Self)
        ensures
            ordering.lane_config() == default_config(),
            ordering.boost() == default_config().payment_priority_boost,
    {
        let classifier = PaymentClassifier::default();
        let boost: u64 = classifier.config().payment_priority_boost;
        PaymentAwareOrdering::new(classifier, boost)
    }
}

impl<T> Clone for PaymentAwareOrdering<T> {
    fn clone(&self) -> (copy: Self)
        ensures
            copy.lane_config() == self.lane_config(),
            copy.boost() == self.boost(),
    {
        PaymentAwareOrdering {
            classifier: self.classifier.clone(),
            boost_factor: self.boost_factor,
            _marker: PhantomData,
        }
    }
}

/// A payment always comes before a general transaction, whatever their tips.
pub proof fn law_payment_beats_general(payment_tip: u128, general_tip: u128)
    ensures
        (PaymentPriority { lane: TxLane::Payment, tip: payment_tip }).above(
            PaymentPriority { lane: TxLane::General, tip: general_tip },
        ),
{
}

/// Within a lane the order is that of the tips.
pub proof fn law_same_lane_orders_by_tip(a: PaymentPriority, b: PaymentPriority)
    requires
        a.lane == b.lane,
    ensures
        a.above(b) <==> a.tip > b.tip,
{
}

/// Priorities are totally ordered: of two different ones exactly one is above the
/// other, none is above itself, and being above carries over.
pub proof fn law_priority_is_a_total_order(
    a: PaymentPriority,
    b: PaymentPriority,
    c: PaymentPriority,
)
    ensures
        !a.above(a),
        a == b || (a.above(b) <==> !b.above(a)),
        a.above(b) && b.above(c) ==> a.above(c),
        a.order_to(b) == Ordering::Equal <==> a == b,
{
}

/// No priority is below the default one.
pub proof fn law_default_priority_is_lowest(a: PaymentPriority)
    ensures
        !(PaymentPriority { lane: TxLane::General, tip: 0 }).above(a),
{
}

/// The boost keeps the order of two payments by tip, and does not lower a tip unless
/// the factor is zero.
pub proof fn law_boost_is_monotonic(low: u128, high: u128, boost_factor: u64)
    requires
        low <= high,
    ensures
        boosted(low, boost_factor) <= boosted(high, boost_factor),
        boost_factor > 0 ==> boosted(low, boost_factor) >= low,
{
    assert(low * boost_factor <= high * boost_factor) by (nonlinear_arith)
        requires
            low <= high,
    ;
    if boost_factor > 0 {
        assert(low * boost_factor >= low) by (nonlinear_arith)
            requires
                boost_factor > 0,
        ;
    }
}

/// How two priorities compare: a payment is greater than a general transaction; in one
/// lane the higher tip is greater, and equal tips are equal.
pub proof fn law_comparison(a: PaymentPriority, b: PaymentPriority)
    ensures
        a.order_to(b) == Ordering::Greater <==> {
            ||| a.lane == TxLane::Payment && b.lane == TxLane::General
            ||| a.lane == b.lane && a.tip > b.tip
        },
        a.order_to(b) == Ordering::Less <==> {
            ||| a.lane == TxLane::General && b.lane == TxLane::Payment
            ||| a.lane == b.lane && a.tip < b.tip
        },
        a.order_to(b) == Ordering::Equal <==> a.lane == b.lane && a.tip == b.tip,
        a.above(b) <==> a.order_to(b) == Ordering::Greater,
{
}

/// The priority of a transaction: none exactly where its fee cap is below the base fee,
/// else its lane, and a tip that is the effective tip of a general transaction, and for
/// a payment the effective tip times the boost factor, or the largest 128-bit number
/// where that is less. The effective tip is what the cap leaves above the base fee, or
/// the priority fee where one is declared and less.
pub proof fn law_priority_of_every_transaction(
    config: PaymentLaneConfigView,
    boost_factor: u64,
    transaction: LaneTransaction,
    base_fee: u64,
)
    ensures
        ({
            let priority = priority_of(config, boost_factor, transaction, base_fee);
            let rest = transaction.max_fee_per_gas - base_fee;
            let tip = match transaction.max_priority_fee_per_gas {
                Some(most) => if most < rest {
                    most as int
                } else {
                    rest
                },
                None => rest,
            };
            &&& priority is None <==> transaction.max_fee_per_gas < base_fee
            &&& priority is Some ==> {
                let lane = priority->0.lane;
                &&& lane == lane_of(config, transaction.to, transaction.input@)
                &&& lane == TxLane::General ==> priority->0.tip == tip
                &&& lane == TxLane::Payment && tip * boost_factor <= u128::MAX
                    ==> priority->0.tip == tip * boost_factor
                &&& lane == TxLane::Payment && tip * boost_factor > u128::MAX
                    ==> priority->0.tip == u128::MAX
            }
        }),
{
}

/// Of two payments of one ordering at one base fee, the one with the lower tip is never
/// above the other, whatever kinds of fees they declare.
pub proof fn law_lower_tip_is_never_above(
    config: PaymentLaneConfigView,
    boost_factor: u64,
    low: LaneTransaction,
    high: LaneTransaction,
    base_fee: u64,
)
    requires
        lane_of(config, low.to, low.input@) == lane_of(config, high.to, high.input@),
        low.tip_at(base_fee) is Some,
        high.tip_at(base_fee) is Some,
        low.tip_at(base_fee)->0 <= high.tip_at(base_fee)->0,
    ensures
        ({
            let below = priority_of(config, boost_factor, low, base_fee);
            let above = priority_of(config, boost_factor, high, base_fee);
            &&& below is Some && above is Some
            &&& below->0.lane == above->0.lane
            &&& below->0.tip <= above->0.tip
            &&& low.tip_at(base_fee) == high.tip_at(base_fee) ==> below == above
        }),
{
    law_boost_is_monotonic(low.tip_at(base_fee)->0, high.tip_at(base_fee)->0, boost_factor);
}

/// The boosted tip is the product with the factor, or the largest 128-bit number where
/// that is less.
pub proof fn law_boost_multiplies(tip: u128, boost_factor: u64)
    ensures
        tip * boost_factor <= u128::MAX ==> boosted(tip, boost_factor) == tip * boost_factor,
        tip * boost_factor > u128::MAX ==> boosted(tip, boost_factor) == u128::MAX,
{
}

/// The comparison operators go by the same order: two priorities always compare.
pub proof fn law_operators_compare(a: PaymentPriority, b: PaymentPriority)
    ensures
        PaymentPriority::obeys_partial_cmp_spec(),
        a.partial_cmp_spec(&b) == Some(Ordering::Greater) <==> {
            ||| a.lane == TxLane::Payment && b.lane == TxLane::General
            ||| a.lane == b.lane && a.tip > b.tip
        },
        a.partial_cmp_spec(&b) == Some(Ordering::Equal) <==> a.lane == b.lane && a.tip == b.tip,
        a.partial_cmp_spec(&b) is Some,
{
}

} // verus!

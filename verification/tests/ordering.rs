use payment_lane::ordering::PaymentPriority;
use payment_lane::primitives::Address;
use payment_lane::transaction::LaneTransaction;
use payment_lane::{PaymentAwareOrdering, PaymentClassifier, TxLane};
use std::cmp::Ordering;

fn transaction(payment: bool, max_fee: u128, priority_fee: Option<u128>) -> LaneTransaction {
    let mut to = Address::zero();
    let mut input = vec![0xa9, 0x05, 0x9c, 0xbb];
    input.extend_from_slice(&[0u8; 64]);
    if payment {
        to.bytes[0] = 0x20;
        to.bytes[1] = 0xc0;
    }
    LaneTransaction {
        to: Some(to),
        input,
        gas_limit: 21_000,
        max_fee_per_gas: max_fee,
        max_priority_fee_per_gas: priority_fee,
    }
}

#[test]
fn test_payment_priority_ordering() {
    let payment = PaymentPriority { lane: TxLane::Payment, tip: 1 };
    let general = PaymentPriority { lane: TxLane::General, tip: 100 };

    // Payment always beats general regardless of tip
    assert!(payment > general);
}

#[test]
fn test_same_lane_ordering() {
    let high = PaymentPriority { lane: TxLane::Payment, tip: 100 };
    let low = PaymentPriority { lane: TxLane::Payment, tip: 1 };
    assert!(high > low);

    let high_gen = PaymentPriority { lane: TxLane::General, tip: 100 };
    let low_gen = PaymentPriority { lane: TxLane::General, tip: 1 };
    assert!(high_gen > low_gen);
}

#[test]
fn test_default_ordering() {
    let ordering: PaymentAwareOrdering<LaneTransaction> = PaymentAwareOrdering::default();
    assert_eq!(ordering.boost_factor(), 10);
}

#[test]
fn comparison_covers_all_outcomes() {
    let general = PaymentPriority { lane: TxLane::General, tip: 5 };
    let payment = PaymentPriority { lane: TxLane::Payment, tip: 5 };
    assert_eq!(payment.cmp(&general), Ordering::Greater);
    assert_eq!(general.cmp(&payment), Ordering::Less);
    assert_eq!(general.cmp(&general), Ordering::Equal);
    assert_eq!(general.partial_cmp(&payment), Some(Ordering::Less));
}

#[test]
fn default_priority_is_the_lowest() {
    let lowest = PaymentPriority::default();
    assert_eq!(lowest, PaymentPriority { lane: TxLane::General, tip: 0 });
    assert!(PaymentPriority { lane: TxLane::General, tip: 1 } > lowest);
    assert!(PaymentPriority { lane: TxLane::Payment, tip: 0 } > lowest);
}

#[test]
fn payment_tip_is_boosted() {
    let ordering: PaymentAwareOrdering<u8> = PaymentAwareOrdering::default();
    // Cap 100, base fee 60, priority fee 30: the priority fee is the tip.
    let payment = transaction(true, 100, Some(30));
    assert_eq!(
        ordering.priority(&payment, 60),
        Some(PaymentPriority { lane: TxLane::Payment, tip: 300 })
    );
    let general = transaction(false, 100, Some(30));
    assert_eq!(
        ordering.priority(&general, 60),
        Some(PaymentPriority { lane: TxLane::General, tip: 30 })
    );
}

#[test]
fn cap_bounds_the_tip() {
    let ordering: PaymentAwareOrdering<u8> =
        PaymentAwareOrdering::new(PaymentClassifier::default(), 3);
    // Cap 100, base fee 80: 20 are left, less than the priority fee.
    assert_eq!(
        ordering.priority(&transaction(true, 100, Some(30)), 80),
        Some(PaymentPriority { lane: TxLane::Payment, tip: 60 })
    );
    // At the cap nothing is left; above it there is no priority.
    assert_eq!(
        ordering.priority(&transaction(true, 100, Some(30)), 100),
        Some(PaymentPriority { lane: TxLane::Payment, tip: 0 })
    );
    assert_eq!(ordering.priority(&transaction(true, 100, Some(30)), 101), None);
}

#[test]
fn gas_price_above_base_fee_is_the_tip() {
    let ordering: PaymentAwareOrdering<u8> = PaymentAwareOrdering::default();
    let general = transaction(false, 100, None);
    assert_eq!(
        ordering.priority(&general, 60),
        Some(PaymentPriority { lane: TxLane::General, tip: 40 })
    );
    assert_eq!(ordering.priority(&general, 101), None);
}

#[test]
fn boost_saturates() {
    let ordering: PaymentAwareOrdering<u8> =
        PaymentAwareOrdering::new(PaymentClassifier::default(), u64::MAX);
    assert_eq!(
        ordering.priority(&transaction(true, u128::MAX, None), 0),
        Some(PaymentPriority { lane: TxLane::Payment, tip: u128::MAX })
    );
    let copy = ordering.clone();
    assert_eq!(copy.boost_factor(), u64::MAX);
}

#[test]
fn higher_tip_never_lowers_the_priority() {
    let ordering: PaymentAwareOrdering<u8> = PaymentAwareOrdering::default();
    let mut last = PaymentPriority::default();
    for max_fee in [60, 61, 90, 100, u128::MAX / 10, u128::MAX] {
        let priority = ordering.priority(&transaction(true, max_fee, None), 60).unwrap();
        assert!(priority.cmp(&last) != Ordering::Less);
        last = priority;
    }
}

#[test]
fn priorities_are_totally_ordered() {
    let mut all = Vec::new();
    for lane in [TxLane::General, TxLane::Payment] {
        for tip in [0, 1, u128::MAX] {
            all.push(PaymentPriority { lane, tip });
        }
    }
    for (i, a) in all.iter().enumerate() {
        for (j, b) in all.iter().enumerate() {
            assert_eq!(a.cmp(b), i.cmp(&j));
        }
    }
}

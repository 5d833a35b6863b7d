use payment_lane::fastpath::{
    BatchPaymentIntent, ConflictDetector, ConflictKey, PaymentIntent, TransferTarget,
};
use payment_lane::primitives::{Address, U256};

fn address(text: &str) -> Address {
    let digits = text.trim_start_matches("0x");
    let bytes: Vec<u8> = (0..digits.len() / 2)
        .map(|i| u8::from_str_radix(&digits[2 * i..2 * i + 2], 16).unwrap())
        .collect();
    Address { bytes: bytes.try_into().unwrap() }
}

fn make_payment(from: Address, to: Address) -> PaymentIntent {
    PaymentIntent {
        from,
        to,
        asset: Address::zero(),
        amount: U256::from_u64(100),
        nonce_key: 0,
        nonce_value: 0,
    }
}

#[test]
fn test_non_conflicting_payments_parallel() {
    let mut detector = ConflictDetector::new();

    let alice = address("0x0000000000000000000000000000000000000001");
    let bob = address("0x0000000000000000000000000000000000000002");
    let charlie = address("0x0000000000000000000000000000000000000003");
    let dave = address("0x0000000000000000000000000000000000000004");

    let payments = vec![
        make_payment(alice, bob),    // touches alice, bob
        make_payment(charlie, dave), // touches charlie, dave (no conflict)
    ];

    let batches = detector.partition(&payments);
    // Both should be in the same batch (no conflict)
    assert_eq!(batches.len(), 1);
    assert_eq!(batches[0].len(), 2);
}

#[test]
fn test_conflicting_payments_serialized() {
    let mut detector = ConflictDetector::new();

    let alice = address("0x0000000000000000000000000000000000000001");
    let bob = address("0x0000000000000000000000000000000000000002");
    let charlie = address("0x0000000000000000000000000000000000000003");

    let payments = vec![
        make_payment(alice, bob),     // touches alice, bob
        make_payment(alice, charlie), // touches alice, charlie (conflict on alice)
    ];

    let batches = detector.partition(&payments);
    // Should be in separate batches due to conflict on alice
    assert_eq!(batches.len(), 2);
}

#[test]
fn test_payment_intent_validity() {
    let alice = address("0x0000000000000000000000000000000000000001");
    let bob = address("0x0000000000000000000000000000000000000002");

    let valid = make_payment(alice, bob);
    assert!(valid.is_valid());

    let self_transfer = make_payment(alice, alice);
    assert!(!self_transfer.is_valid());

    let zero_amount = PaymentIntent {
        from: alice,
        to: bob,
        asset: Address::zero(),
        amount: U256::zero(),
        nonce_key: 0,
        nonce_value: 0,
    };
    assert!(!zero_amount.is_valid());
}

#[test]
fn test_batch_payment_conflict_keys() {
    let alice = address("0x0000000000000000000000000000000000000001");
    let bob = address("0x0000000000000000000000000000000000000002");
    let charlie = address("0x0000000000000000000000000000000000000003");

    let batch = BatchPaymentIntent {
        from: alice,
        transfers: vec![
            TransferTarget { to: bob, amount: U256::from_u64(50) },
            TransferTarget { to: charlie, amount: U256::from_u64(50) },
        ],
        asset: Address::zero(),
        nonce_key: 0,
        nonce_value: 0,
    };

    let keys = batch.conflict_keys();
    assert_eq!(keys.len(), 3); // alice, bob, charlie
    assert!(batch.is_valid());
}

#[test]
fn test_three_way_conflict() {
    let mut detector = ConflictDetector::new();

    let alice = address("0x0000000000000000000000000000000000000001");
    let bob = address("0x0000000000000000000000000000000000000002");
    let charlie = address("0x0000000000000000000000000000000000000003");

    // A->B, B->C, C->A : chain of conflicts
    let payments =
        vec![make_payment(alice, bob), make_payment(bob, charlie), make_payment(charlie, alice)];

    let batches = detector.partition(&payments);
    // All three conflict transitively, need 3 batches
    assert!(batches.len() >= 2);
    // Every payment is assigned exactly once
    let total: usize = batches.iter().map(|b| b.len()).sum();
    assert_eq!(total, 3);
}

#[test]
fn test_empty_payments() {
    let mut detector = ConflictDetector::new();
    let batches = detector.partition(&[]);
    assert!(batches.is_empty());
}

#[test]
fn test_batch_payment_validity_edge_cases() {
    let alice = address("0x0000000000000000000000000000000000000001");
    let bob = address("0x0000000000000000000000000000000000000002");

    // Empty batch is invalid.
    let empty_batch = BatchPaymentIntent {
        from: alice,
        transfers: vec![],
        asset: Address::zero(),
        nonce_key: 0,
        nonce_value: 0,
    };
    assert!(!empty_batch.is_valid());

    // Self-transfer is invalid.
    let self_batch = BatchPaymentIntent {
        from: alice,
        transfers: vec![TransferTarget { to: alice, amount: U256::from_u64(100) }],
        asset: Address::zero(),
        nonce_key: 0,
        nonce_value: 0,
    };
    assert!(!self_batch.is_valid());

    // Zero amount is invalid.
    let zero_batch = BatchPaymentIntent {
        from: alice,
        transfers: vec![TransferTarget { to: bob, amount: U256::zero() }],
        asset: Address::zero(),
        nonce_key: 0,
        nonce_value: 0,
    };
    assert!(!zero_batch.is_valid());
}

#[test]
fn test_multi_asset_conflicts_are_independent() {
    let mut detector = ConflictDetector::new();

    let alice = address("0x0000000000000000000000000000000000000001");
    let bob = address("0x0000000000000000000000000000000000000002");
    let asset_a = address("0x00000000000000000000000000000000000000aa");
    let asset_b = address("0x00000000000000000000000000000000000000bb");

    // Same sender+receiver but different assets: no conflict.
    let payments = vec![
        PaymentIntent {
            from: alice,
            to: bob,
            asset: asset_a,
            amount: U256::from_u64(100),
            nonce_key: 0,
            nonce_value: 0,
        },
        PaymentIntent {
            from: alice,
            to: bob,
            asset: asset_b,
            amount: U256::from_u64(200),
            nonce_key: 1,
            nonce_value: 0,
        },
    ];

    let batches = detector.partition(&payments);
    assert_eq!(batches.len(), 1);
}

#[test]
fn test_single_payment_single_batch() {
    let mut detector = ConflictDetector::new();
    let alice = address("0x0000000000000000000000000000000000000001");
    let bob = address("0x0000000000000000000000000000000000000002");

    let payments = vec![make_payment(alice, bob)];
    let batches = detector.partition(&payments);
    assert_eq!(batches.len(), 1);
    assert_eq!(batches[0], vec![0]);
}

#[test]
fn conflict_keys_are_sender_then_receiver() {
    let alice = address("0x0000000000000000000000000000000000000001");
    let bob = address("0x0000000000000000000000000000000000000002");
    let keys = make_payment(alice, bob).conflict_keys();
    assert_eq!(keys[0], ConflictKey { asset: Address::zero(), account: alice });
    assert_eq!(keys[1], ConflictKey { asset: Address::zero(), account: bob });
}

#[test]
fn batch_conflict_keys_come_in_order() {
    let alice = address("0x0000000000000000000000000000000000000001");
    let bob = address("0x0000000000000000000000000000000000000002");
    let asset = address("0x00000000000000000000000000000000000000aa");
    let batch = BatchPaymentIntent {
        from: alice,
        transfers: vec![
            TransferTarget { to: bob, amount: U256::from_u64(1) },
            TransferTarget { to: bob, amount: U256::from_u64(2) },
        ],
        asset,
        nonce_key: 0,
        nonce_value: 0,
    };
    let keys = batch.conflict_keys();
    assert_eq!(keys[0].account, alice);
    assert_eq!(keys[1].account, bob);
    assert!(keys.iter().all(|key| key.asset == asset));
}

#[test]
fn first_batch_without_conflict_is_taken() {
    let a = address("0x0000000000000000000000000000000000000001");
    let b = address("0x0000000000000000000000000000000000000002");
    let c = address("0x0000000000000000000000000000000000000003");
    let d = address("0x0000000000000000000000000000000000000004");
    let e = address("0x0000000000000000000000000000000000000005");
    let payments = vec![
        make_payment(a, b), // batch 0
        make_payment(a, c), // a is taken in 0: batch 1
        make_payment(d, e), // free in 0: batch 0
        make_payment(b, c), // b is taken in 0, c in 1: batch 2
        make_payment(d, b), // b and d are taken in 0; both free in 1
    ];
    let mut detector = ConflictDetector::new();
    assert_eq!(detector.partition(&payments), vec![vec![0, 2], vec![1, 4], vec![3]]);
    // A later partition starts afresh.
    assert_eq!(detector.partition(&payments[..1]), vec![vec![0]]);
}

#[test]
fn shared_account_conflicts_both_ways() {
    let a = address("0x0000000000000000000000000000000000000001");
    let b = address("0x0000000000000000000000000000000000000002");
    let c = address("0x0000000000000000000000000000000000000003");
    let mut detector = ConflictDetector::default();
    let there = vec![make_payment(a, b), make_payment(c, b)];
    let back = vec![make_payment(c, b), make_payment(a, b)];
    assert_eq!(detector.partition(&there), vec![vec![0], vec![1]]);
    assert_eq!(detector.partition(&back), vec![vec![0], vec![1]]);
}

#[test]
fn amounts_above_one_limb_are_not_zero() {
    let alice = address("0x0000000000000000000000000000000000000001");
    let bob = address("0x0000000000000000000000000000000000000002");
    let mut payment = make_payment(alice, bob);
    payment.amount = U256 { limbs: [0, 0, 0, 1] };
    assert!(payment.is_valid());
}

#[test]
fn partition_is_determined_and_complete() {
    let account = |n: u8| {
        let mut address = Address::zero();
        address.bytes[19] = n;
        address
    };
    let payments: Vec<PaymentIntent> =
        (0..30u8).map(|i| make_payment(account(i % 7), account(7 + i % 5))).collect();
    let batches = ConflictDetector::new().partition(&payments);
    assert_eq!(batches, ConflictDetector::new().partition(&payments));
    let mut seen: Vec<usize> = batches.iter().flatten().copied().collect();
    seen.sort();
    assert_eq!(seen, (0..30).collect::<Vec<usize>>());
    for batch in &batches {
        for (n, i) in batch.iter().enumerate() {
            for j in &batch[n + 1..] {
                let keys = payments[*j].conflict_keys();
                assert!(payments[*i].conflict_keys().iter().all(|key| !keys.contains(key)));
            }
        }
    }
}

use payment_lane::nonce::{
    too_many_keys_message, validate_payment_meta, validate_payment_meta_of, NonceError, NonceKey,
    PaymentTxMeta, SenderNonceState, ValidityWindow,
};
use payment_lane::primitives::{Address, B256};

#[test]
fn test_protocol_nonce_sequential() {
    let mut state = SenderNonceState::new(0, 256);

    let meta0 = PaymentTxMeta::standard(0);
    assert!(validate_payment_meta(&meta0, &mut state, 100).is_ok());

    let meta1 = PaymentTxMeta::standard(1);
    assert!(validate_payment_meta(&meta1, &mut state, 100).is_ok());

    // Replay should fail
    let replay = PaymentTxMeta::standard(0);
    assert!(validate_payment_meta(&replay, &mut state, 100).is_err());
}

#[test]
fn test_parallel_nonces() {
    let mut state = SenderNonceState::new(0, 256);

    // Three parallel nonce keys, all starting at 0
    let tx_a = PaymentTxMeta::parallel(1, 0);
    let tx_b = PaymentTxMeta::parallel(2, 0);
    let tx_c = PaymentTxMeta::parallel(3, 0);

    assert!(validate_payment_meta(&tx_a, &mut state, 100).is_ok());
    assert!(validate_payment_meta(&tx_b, &mut state, 100).is_ok());
    assert!(validate_payment_meta(&tx_c, &mut state, 100).is_ok());

    // Advance key 1 to nonce 1
    let tx_a1 = PaymentTxMeta::parallel(1, 1);
    assert!(validate_payment_meta(&tx_a1, &mut state, 100).is_ok());

    // Key 2 is still at nonce 1 (not 0 anymore), should fail with nonce 0
    let tx_b0 = PaymentTxMeta::parallel(2, 0);
    assert!(validate_payment_meta(&tx_b0, &mut state, 100).is_err());
}

#[test]
fn test_expiring_nonce() {
    let mut state = SenderNonceState::new(0, 256);

    // Transaction valid before timestamp 200
    let meta = PaymentTxMeta::expiring(1, 0, 200);

    // Valid at timestamp 100
    assert!(validate_payment_meta(&meta, &mut state, 100).is_ok());

    // Re-create state for clean test
    let mut state2 = SenderNonceState::new(0, 256);

    // Expired at timestamp 200
    let meta2 = PaymentTxMeta::expiring(1, 0, 200);
    assert!(validate_payment_meta(&meta2, &mut state2, 200).is_err());
}

#[test]
fn test_scheduled_transaction() {
    let mut state = SenderNonceState::new(0, 256);

    // Valid between 100 and 200
    let meta = PaymentTxMeta {
        nonce_key: NonceKey::user(1, 0),
        validity: ValidityWindow::scheduled(100, 200),
        memo: None,
    };

    // Too early
    assert!(validate_payment_meta(&meta, &mut state, 50).is_err());

    // Valid
    assert!(validate_payment_meta(&meta, &mut state, 150).is_ok());
}

#[test]
fn test_max_nonce_keys() {
    let mut state = SenderNonceState::new(0, 3);

    // Key 0 (protocol) already exists, so we can add 2 more
    let tx1 = PaymentTxMeta::parallel(1, 0);
    assert!(validate_payment_meta(&tx1, &mut state, 100).is_ok());

    let tx2 = PaymentTxMeta::parallel(2, 0);
    assert!(validate_payment_meta(&tx2, &mut state, 100).is_ok());

    // This should fail — max 3 keys and we already have keys 0, 1, 2
    let tx3 = PaymentTxMeta::parallel(3, 0);
    assert!(validate_payment_meta(&tx3, &mut state, 100).is_err());
}

#[test]
fn test_nonce_gap() {
    let mut state = SenderNonceState::new(0, 256);

    // Skip nonce 0, try nonce 1 — should fail
    let meta = PaymentTxMeta::standard(1);
    assert!(validate_payment_meta(&meta, &mut state, 100).is_err());
}

#[test]
fn test_memo_attachment() {
    let meta = PaymentTxMeta::standard(0).with_memo(B256::zero());
    assert!(meta.memo.is_some());
}

#[test]
fn test_validity_window_unbounded() {
    let w = ValidityWindow::unbounded();
    assert!(w.is_valid_at(0));
    assert!(w.is_valid_at(u64::MAX));
}

#[test]
fn test_nonce_key_helpers() {
    let protocol = NonceKey::protocol(5);
    assert!(protocol.is_protocol());
    assert_eq!(protocol.key, 0);
    assert_eq!(protocol.value, 5);

    let next = protocol.next();
    assert_eq!(next.key, 0);
    assert_eq!(next.value, 6);

    let user = NonceKey::user(3, 10);
    assert!(!user.is_protocol());
    assert_eq!(user.key, 3);
    assert_eq!(user.value, 10);
}

#[test]
fn test_sender_nonce_state_active_keys() {
    let mut state = SenderNonceState::new(0, 256);
    assert_eq!(state.active_keys(), 1); // key 0 (protocol)

    let tx = PaymentTxMeta::parallel(1, 0);
    assert!(validate_payment_meta(&tx, &mut state, 100).is_ok());
    assert_eq!(state.active_keys(), 2);
}

#[test]
fn test_get_nonce_nonexistent_key_returns_zero() {
    let state = SenderNonceState::new(0, 256);
    assert_eq!(state.get_nonce(999), 0);
}

#[test]
fn test_validity_window_boundary_conditions() {
    // Exactly at valid_after boundary: should be valid.
    let w = ValidityWindow::scheduled(100, 200);
    assert!(w.is_valid_at(100));
    // Exactly at valid_before boundary: should be invalid.
    assert!(!w.is_valid_at(200));
    // One before valid_before: valid.
    assert!(w.is_valid_at(199));
}

#[test]
fn test_nonce_error_display() {
    let err = NonceError::NonceTooLow { key: 0, expected: 5, got: 3 };
    let msg = err.to_string();
    assert!(msg.contains("too low"));
    assert!(msg.contains('5'));
    assert!(msg.contains('3'));
}

#[test]
fn error_messages() {
    assert_eq!(
        NonceError::NonceTooLow { key: 1, expected: 5, got: 3 }.to_string(),
        "nonce too low for key 1: expected 5, got 3"
    );
    assert_eq!(
        NonceError::NonceTooHigh { key: 0, expected: 0, got: u64::MAX }.to_string(),
        "nonce too high for key 0: expected 0, got 18446744073709551615"
    );
    assert_eq!(
        NonceError::Expired { valid_before: 200, timestamp: 201 }.to_string(),
        "transaction expired: valid_before 200, current timestamp 201"
    );
    assert_eq!(
        NonceError::NotYetValid { valid_after: 100, timestamp: 50 }.to_string(),
        "transaction not yet valid: valid_after 100, current timestamp 50"
    );
    assert_eq!(too_many_keys_message("bob", 3), "too many nonce keys for sender bob: max 3");
}

#[test]
fn too_many_keys_message_names_the_sender() {
    let sender = Address {
        bytes: [
            0xd8, 0xda, 0x6b, 0xf2, 0x69, 0x64, 0xaf, 0x9d, 0x7e, 0xed, 0x9e, 0x03, 0xe5, 0x34,
            0x15, 0xd3, 0x7a, 0xa9, 0x60, 0x45,
        ],
    };
    let mut state = SenderNonceState::new(0, 1);
    let meta = PaymentTxMeta::parallel(1, 0);
    let error = validate_payment_meta_of(sender, &meta, &mut state, 100).unwrap_err();
    assert!(matches!(error, NonceError::TooManyNonceKeys { max: 1, .. }));
    assert_eq!(
        error.to_string(),
        "too many nonce keys for sender 0xd8dA6BF26964aF9D7eEd9e03E53415D37aA96045: max 1"
    );
    assert_eq!(state.active_keys(), 1);
}

#[test]
fn unknown_sender_is_the_zero_address() {
    let mut state = SenderNonceState::default();
    let error = validate_payment_meta(&PaymentTxMeta::standard(0), &mut state, 100).unwrap_err();
    assert_eq!(
        error.to_string(),
        "too many nonce keys for sender 0x0000000000000000000000000000000000000000: max 0"
    );
}

#[test]
fn each_refusal_names_its_reason() {
    let mut state = SenderNonceState::new(5, 256);
    assert!(matches!(
        validate_payment_meta(&PaymentTxMeta::standard(4), &mut state, 100),
        Err(NonceError::NonceTooLow { key: 0, expected: 5, got: 4 })
    ));
    assert!(matches!(
        validate_payment_meta(&PaymentTxMeta::standard(6), &mut state, 100),
        Err(NonceError::NonceTooHigh { key: 0, expected: 5, got: 6 })
    ));
    let scheduled = PaymentTxMeta {
        nonce_key: NonceKey::user(1, 0),
        validity: ValidityWindow::scheduled(100, 200),
        memo: None,
    };
    assert!(matches!(
        validate_payment_meta(&scheduled, &mut state, 99),
        Err(NonceError::NotYetValid { valid_after: 100, timestamp: 99 })
    ));
    assert!(matches!(
        validate_payment_meta(&scheduled, &mut state, 200),
        Err(NonceError::Expired { valid_before: 200, timestamp: 200 })
    ));
    // A window that is closed before it opens counts as expired.
    let never = PaymentTxMeta {
        nonce_key: NonceKey::user(1, 0),
        validity: ValidityWindow::scheduled(300, 200),
        memo: None,
    };
    assert!(matches!(
        validate_payment_meta(&never, &mut state, 250),
        Err(NonceError::Expired { valid_before: 200, timestamp: 250 })
    ));
    // Nothing was advanced.
    assert_eq!(state.get_nonce(0), 5);
    assert_eq!(state.active_keys(), 1);
}

#[test]
fn keys_advance_independently() {
    let mut state = SenderNonceState::new(7, 256);
    let sender = Address::zero();
    assert!(state.validate_and_advance(sender, &NonceKey::user(9, 0)).is_ok());
    assert!(state.validate_and_advance(sender, &NonceKey::user(9, 1)).is_ok());
    assert_eq!(state.get_nonce(9), 2);
    assert_eq!(state.get_nonce(0), 7);
    assert!(state.validate_and_advance(sender, &NonceKey::user(9, 1)).is_err());
}

#[test]
fn full_state_still_serves_known_keys() {
    let mut state = SenderNonceState::new(0, 1);
    let sender = Address::zero();
    assert!(state.validate_and_advance(sender, &NonceKey::user(4, 0)).is_err());
    assert!(state.validate_and_advance(sender, &NonceKey::protocol(0)).is_ok());
    assert_eq!(state.active_keys(), 1);
}

#[test]
fn memo_keeps_the_rest() {
    let memo = B256 { bytes: [3; 32] };
    let meta = PaymentTxMeta::expiring(1, 2, 3).with_memo(memo);
    assert_eq!(meta.nonce_key, NonceKey::user(1, 2));
    assert_eq!(meta.validity, ValidityWindow::expiring(3));
    assert_eq!(meta.memo, Some(memo));
}

#[test]
fn nonce_is_used_once() {
    let mut state = SenderNonceState::new(0, 256);
    let meta = PaymentTxMeta::parallel(3, 0);
    let mut accepted = 0;
    for timestamp in 0..10 {
        if validate_payment_meta(&meta, &mut state, timestamp).is_ok() {
            accepted += 1;
        }
        let next = PaymentTxMeta::parallel(3, state.get_nonce(3));
        assert!(validate_payment_meta(&next, &mut state, timestamp).is_ok());
    }
    assert_eq!(accepted, 1);
}

#[test]
fn key_count_never_passes_the_limit() {
    let mut state = SenderNonceState::new(0, 4);
    for key in 0..20 {
        let _ = validate_payment_meta(&PaymentTxMeta::parallel(key, 0), &mut state, 1);
        assert!(state.active_keys() <= 4);
    }
    assert_eq!(state.active_keys(), 4);
}

#[test]
fn expiry_is_permanent() {
    let window = ValidityWindow::expiring(200);
    assert!(window.is_valid_at(0));
    assert!(window.is_valid_at(199));
    for timestamp in [200, 201, u64::MAX] {
        assert!(!window.is_valid_at(timestamp));
    }
}

#[test]
fn protocol_key_is_there_without_a_limit() {
    let mut state = SenderNonceState::new(0, 0);
    assert_eq!(state.active_keys(), 1);
    assert!(validate_payment_meta(&PaymentTxMeta::standard(0), &mut state, 1).is_ok());
    assert!(validate_payment_meta(&PaymentTxMeta::parallel(1, 0), &mut state, 1).is_err());
    assert_eq!(state.active_keys(), 1);
}

use payment_lane::config::PaymentPrefix;
use payment_lane::primitives::Address;
use payment_lane::PaymentLaneConfig;

/// The gas that a fraction of a block gas limit comes to.
fn fraction_gas(block_gas_limit: u64, fraction: f64) -> u64 {
    (block_gas_limit as f64 * fraction) as u64
}

#[test]
fn test_default_config() {
    let config = PaymentLaneConfig::default();
    assert!(!config.consensus_enforced);
    assert_eq!(config.payment_priority_boost, 10);
    assert_eq!(config.general_gas_limit, None);
    assert_eq!(config.payment_address_prefixes.len(), 1);
    assert_eq!(config.payment_address_prefixes[0].bytes, vec![0x20, 0xc0]);
    assert!(config.payment_allowlist.is_empty());
    assert_eq!(config.max_nonce_keys, 256);
    assert_eq!(config.nonce_expiry_window, 30);
}

#[test]
fn test_gas_limit_computation() {
    let config = PaymentLaneConfig::default();
    let block_gas_limit = 30_000_000;
    let reserved = fraction_gas(block_gas_limit, 0.3);

    let general = config.compute_general_gas_limit(block_gas_limit, reserved);
    let payment = config.compute_payment_reserved_gas(block_gas_limit, reserved);

    assert_eq!(general, 21_000_000); // 70% for general
    assert_eq!(payment, 9_000_000); // 30% reserved for payment
    assert_eq!(general + payment, block_gas_limit);
}

#[test]
fn test_explicit_general_gas_limit() {
    let config = PaymentLaneConfig { general_gas_limit: Some(20_000_000), ..Default::default() };
    let reserved = fraction_gas(30_000_000, 0.3);
    assert_eq!(config.compute_general_gas_limit(30_000_000, reserved), 20_000_000);
    assert_eq!(config.compute_payment_reserved_gas(30_000_000, reserved), 10_000_000);
}

#[test]
fn test_payment_prefix_matches() {
    let prefix = PaymentPrefix::new(vec![0x20, 0xc0]);
    let addr = Address {
        bytes: [
            0x20, 0xc0, 0x00, 0x00, 0x00, 0x00, 0x00, 0x00, 0x00, 0x00, 0x00, 0x00, 0x00, 0x00,
            0x00, 0x00, 0x00, 0x00, 0x00, 0x01,
        ],
    };
    assert!(prefix.matches(&addr));

    let non_payment = Address {
        bytes: [
            0x00, 0x00, 0x00, 0x00, 0x00, 0x00, 0x00, 0x00, 0x00, 0x00, 0x00, 0x00, 0x00, 0x00,
            0x00, 0x00, 0x00, 0x00, 0x00, 0x01,
        ],
    };
    assert!(!prefix.matches(&non_payment));
}

#[test]
fn test_zero_gas_fraction() {
    let config = PaymentLaneConfig::default();
    let reserved = fraction_gas(30_000_000, 0.0);
    assert_eq!(config.compute_general_gas_limit(30_000_000, reserved), 30_000_000);
    assert_eq!(config.compute_payment_reserved_gas(30_000_000, reserved), 0);
}

#[test]
fn test_full_gas_fraction() {
    let config = PaymentLaneConfig::default();
    let reserved = fraction_gas(30_000_000, 1.0);
    assert_eq!(config.compute_general_gas_limit(30_000_000, reserved), 0);
    assert_eq!(config.compute_payment_reserved_gas(30_000_000, reserved), 30_000_000);
}

#[test]
fn test_zero_block_gas_limit() {
    let config = PaymentLaneConfig::default();
    let reserved = fraction_gas(0, 0.3);
    assert_eq!(config.compute_general_gas_limit(0, reserved), 0);
    assert_eq!(config.compute_payment_reserved_gas(0, reserved), 0);
}

#[test]
fn test_empty_prefix() {
    let prefix = PaymentPrefix::new(vec![]);
    // An empty prefix matches every address.
    let any_addr = Address { bytes: [0xAB; 20] };
    assert!(prefix.matches(&any_addr));
}

#[test]
fn prefix_longer_than_an_address_matches_nothing() {
    let prefix = PaymentPrefix::new(vec![0xAB; 21]);
    assert!(!prefix.matches(&Address { bytes: [0xAB; 20] }));
    let whole = PaymentPrefix::new(vec![0xAB; 20]);
    assert!(whole.matches(&Address { bytes: [0xAB; 20] }));
}

#[test]
fn fraction_above_one_leaves_no_general_gas() {
    let config = PaymentLaneConfig::default();
    let reserved = fraction_gas(1_000, 1.5);
    assert_eq!(reserved, 1_500);
    assert_eq!(config.compute_general_gas_limit(1_000, reserved), 0);
    assert_eq!(config.compute_payment_reserved_gas(1_000, reserved), 1_000);
}

#[test]
fn hard_cap_above_the_block_reserves_nothing() {
    let config = PaymentLaneConfig { general_gas_limit: Some(50), ..Default::default() };
    assert_eq!(config.compute_general_gas_limit(40, 12), 50);
    assert_eq!(config.compute_payment_reserved_gas(40, 12), 0);
}

#[test]
fn clone_keeps_every_field() {
    let config = PaymentLaneConfig {
        general_gas_limit: Some(7),
        payment_address_prefixes: vec![PaymentPrefix::new(vec![1, 2, 3]), PaymentPrefix::new(vec![])],
        payment_allowlist: vec![Address { bytes: [9; 20] }],
        consensus_enforced: true,
        payment_priority_boost: 11,
        max_nonce_keys: 12,
        nonce_expiry_window: 13,
    };
    let copy = config.clone();
    assert_eq!(copy.general_gas_limit, Some(7));
    assert_eq!(copy.payment_address_prefixes[0].bytes, vec![1, 2, 3]);
    assert!(copy.payment_address_prefixes[1].bytes.is_empty());
    assert_eq!(copy.payment_allowlist, vec![Address { bytes: [9; 20] }]);
    assert!(copy.consensus_enforced);
    assert_eq!(copy.payment_priority_boost, 11);
    assert_eq!(copy.max_nonce_keys, 12);
    assert_eq!(copy.nonce_expiry_window, 13);
}

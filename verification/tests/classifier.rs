use payment_lane::config::PaymentPrefix;
use payment_lane::primitives::Address;
use payment_lane::{PaymentClassifier, PaymentLaneConfig, TxLane};

fn bytes_of(text: &str) -> Vec<u8> {
    let digits = text.trim_start_matches("0x");
    (0..digits.len() / 2)
        .map(|i| u8::from_str_radix(&digits[2 * i..2 * i + 2], 16).unwrap())
        .collect()
}

fn address(text: &str) -> Address {
    Address { bytes: bytes_of(text).try_into().unwrap() }
}

fn transfer_calldata() -> Vec<u8> {
    let mut calldata = vec![0xa9, 0x05, 0x9c, 0xbb];
    calldata.extend_from_slice(&[0u8; 64]);
    calldata
}

#[test]
fn test_contract_creation_is_general() {
    let classifier = PaymentClassifier::default();
    assert_eq!(classifier.classify(None, &[]), TxLane::General);
}

#[test]
fn test_payment_prefix_classification() {
    let classifier = PaymentClassifier::default();
    let payment_addr = Address {
        bytes: [
            0x20, 0xc0, 0x00, 0x00, 0x00, 0x00, 0x00, 0x00, 0x00, 0x00, 0x00, 0x00, 0x00, 0x00,
            0x00, 0x00, 0x00, 0x00, 0x00, 0x01,
        ],
    };
    assert_eq!(classifier.classify(Some(&payment_addr), &transfer_calldata()), TxLane::Payment);
}

#[test]
fn test_allowlist_classification() {
    let allowed = address("0x1111111111111111111111111111111111111111");
    let config = PaymentLaneConfig { payment_allowlist: vec![allowed], ..Default::default() };
    let classifier = PaymentClassifier::new(config);
    assert_eq!(classifier.classify(Some(&allowed), &transfer_calldata()), TxLane::Payment);
}

#[test]
fn test_selector_without_payment_target_is_general() {
    let classifier = PaymentClassifier::default();
    let to = address("0xdead000000000000000000000000000000000001");
    assert_eq!(classifier.classify(Some(&to), &transfer_calldata()), TxLane::General);
}

#[test]
fn test_transfer_with_extra_data_is_general() {
    let allowed = address("0x1111111111111111111111111111111111111111");
    let config = PaymentLaneConfig { payment_allowlist: vec![allowed], ..Default::default() };
    let classifier = PaymentClassifier::new(config);

    // transfer selector but with extra data (could be a hook)
    let mut calldata = transfer_calldata();
    calldata.push(0x01); // extra byte
    assert_eq!(classifier.classify(Some(&allowed), &calldata), TxLane::General);
}

#[test]
fn test_payment_target_without_supported_selector_is_general() {
    let allowed = address("0x1111111111111111111111111111111111111111");
    let config = PaymentLaneConfig { payment_allowlist: vec![allowed], ..Default::default() };
    let classifier = PaymentClassifier::new(config);
    assert_eq!(classifier.classify(Some(&allowed), &[]), TxLane::General);
}

#[test]
fn test_unknown_selector_is_general() {
    let allowed = address("0x1111111111111111111111111111111111111111");
    let config = PaymentLaneConfig { payment_allowlist: vec![allowed], ..Default::default() };
    let classifier = PaymentClassifier::new(config);
    let calldata = bytes_of("deadbeef");
    assert_eq!(classifier.classify(Some(&allowed), &calldata), TxLane::General);
}

#[test]
fn test_simple_eth_transfer_is_general() {
    // Plain ETH transfer (no calldata) stays in the general lane.
    let classifier = PaymentClassifier::default();
    let to = address("0xdead000000000000000000000000000000000001");
    assert_eq!(classifier.classify(Some(&to), &[]), TxLane::General);
}

#[test]
fn test_transfer_from_is_not_payment_by_default() {
    let allowed = address("0x1111111111111111111111111111111111111111");
    let config = PaymentLaneConfig { payment_allowlist: vec![allowed], ..Default::default() };
    let classifier = PaymentClassifier::new(config);

    let mut calldata = vec![0x23, 0xb8, 0x72, 0xdd];
    calldata.extend_from_slice(&[0u8; 96]);
    assert_eq!(classifier.classify(Some(&allowed), &calldata), TxLane::General);
}

#[test]
fn test_short_calldata_with_payment_target_is_general() {
    let allowed = address("0x1111111111111111111111111111111111111111");
    let config = PaymentLaneConfig { payment_allowlist: vec![allowed], ..Default::default() };
    let classifier = PaymentClassifier::new(config);
    // Only 3 bytes: too short for any selector.
    assert_eq!(classifier.classify(Some(&allowed), &[0xa9, 0x05, 0x9c]), TxLane::General);
}

#[test]
fn test_multiple_prefixes() {
    let config = PaymentLaneConfig {
        payment_address_prefixes: vec![
            PaymentPrefix::new(vec![0x20, 0xc0]),
            PaymentPrefix::new(vec![0xAA, 0xBB]),
        ],
        ..Default::default()
    };
    let classifier = PaymentClassifier::new(config);
    let addr = Address {
        bytes: [
            0xAA, 0xBB, 0x00, 0x00, 0x00, 0x00, 0x00, 0x00, 0x00, 0x00, 0x00, 0x00, 0x00, 0x00,
            0x00, 0x00, 0x00, 0x00, 0x00, 0x01,
        ],
    };
    assert_eq!(classifier.classify(Some(&addr), &transfer_calldata()), TxLane::Payment);
}

#[test]
fn test_tx_lane_display() {
    assert_eq!(TxLane::Payment.to_string(), "payment");
    assert_eq!(TxLane::General.to_string(), "general");
}

#[test]
fn creation_with_transfer_calldata_is_general() {
    let config = PaymentLaneConfig {
        payment_address_prefixes: vec![PaymentPrefix::new(vec![])],
        ..Default::default()
    };
    let classifier = PaymentClassifier::new(config);
    assert_eq!(classifier.classify(None, &transfer_calldata()), TxLane::General);
    assert_eq!(
        classifier.classify(Some(&Address::zero()), &transfer_calldata()),
        TxLane::Payment
    );
}

#[test]
fn only_sixty_eight_bytes_make_a_transfer() {
    let classifier = PaymentClassifier::default();
    let mut to = Address::zero();
    to.bytes[0] = 0x20;
    to.bytes[1] = 0xc0;
    let calldata = transfer_calldata();
    assert_eq!(calldata.len(), 68);
    assert_eq!(classifier.classify(Some(&to), &calldata), TxLane::Payment);
    assert_eq!(classifier.classify(Some(&to), &calldata[..67]), TxLane::General);
    assert_eq!(classifier.classify(Some(&to), &calldata[..4]), TxLane::General);
}

#[test]
fn clone_classifies_alike() {
    let classifier = PaymentClassifier::default();
    let copy = classifier.clone();
    let mut to = Address::zero();
    to.bytes[0] = 0x20;
    to.bytes[1] = 0xc0;
    assert_eq!(copy.classify(Some(&to), &transfer_calldata()), TxLane::Payment);
    assert_eq!(copy.config().payment_priority_boost, 10);
    assert_eq!(copy.config().payment_address_prefixes[0].bytes, vec![0x20, 0xc0]);
}

use payment_lane::primitives::{Address, U256};

#[test]
fn checksum_has_mixed_case() {
    let address = Address {
        bytes: [
            0xd8, 0xda, 0x6b, 0xf2, 0x69, 0x64, 0xaf, 0x9d, 0x7e, 0xed, 0x9e, 0x03, 0xe5, 0x34,
            0x15, 0xd3, 0x7a, 0xa9, 0x60, 0x45,
        ],
    };
    assert_eq!(address.to_checksum(), "0xd8dA6BF26964aF9D7eEd9e03E53415D37aA96045");
    assert_eq!(
        Address::zero().to_checksum(),
        "0x0000000000000000000000000000000000000000"
    );
}

#[test]
fn products_are_exact() {
    assert_eq!(U256::product(6, 7), U256::from_u64(42));
    // (2^128 - 1) * (2^64 - 1) = 2^192 - 2^128 - 2^64 + 1
    assert_eq!(
        U256::product(u128::MAX, u64::MAX),
        U256 { limbs: [1, u64::MAX, u64::MAX - 1, 0] }
    );
}

#[test]
fn sums_wrap() {
    let most = U256 { limbs: [u64::MAX; 4] };
    assert_eq!(most.add_wrapping(&U256::from_u64(3)), U256::from_u64(2));
    assert_eq!(
        U256::from_u64(u64::MAX).add_wrapping(&U256::from_u64(1)),
        U256 { limbs: [0, 1, 0, 0] }
    );
}

#[test]
fn greater_goes_by_the_highest_limb() {
    let low = U256 { limbs: [u64::MAX, u64::MAX, u64::MAX, 0] };
    let high = U256 { limbs: [0, 0, 0, 1] };
    assert!(high.exceeds(&low));
    assert!(!low.exceeds(&high));
    assert!(!low.exceeds(&low));
    assert!(U256 { limbs: [0, 2, 5, 0] }.exceeds(&U256 { limbs: [9, 1, 5, 0] }));
    assert!(U256 { limbs: [2, 1, 5, 0] }.exceeds(&U256 { limbs: [1, 1, 5, 0] }));
}

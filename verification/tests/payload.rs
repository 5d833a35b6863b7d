use payment_lane::payload::{
    Admission, BlockParameters, BlockTooLarge, BuildVerdict, ExecutionOutcome, LaneGasBudget,
    MissingPayloadBehaviour, PayloadBuild, PaymentLaneBuilderConfig, Rejection, Settlement,
    SidecarKind,
};
use payment_lane::primitives::{Address, U256};
use payment_lane::transaction::{LaneReceipt, LaneTransaction};
use payment_lane::{
    PaymentClassifier, PaymentLaneConfig, PaymentLanePayloadBuilder, PaymentLaneValidator, TxLane,
};

fn general(gas_limit: u64) -> LaneTransaction {
    LaneTransaction {
        to: Some(Address::zero()),
        input: Vec::new(),
        gas_limit,
        max_fee_per_gas: 100,
        max_priority_fee_per_gas: Some(30),
    }
}

fn payment(gas_limit: u64) -> LaneTransaction {
    let mut to = Address::zero();
    to.bytes[0] = 0x20;
    to.bytes[1] = 0xc0;
    let mut input = vec![0xa9, 0x05, 0x9c, 0xbb];
    input.extend_from_slice(&[0u8; 64]);
    LaneTransaction { to: Some(to), input, ..general(gas_limit) }
}

fn parameters() -> BlockParameters {
    BlockParameters {
        block_gas_limit: 1_000,
        fraction_gas: 300,
        base_fee: 60,
        protocol_max_blob_count: Some(6),
        is_osaka: true,
        withdrawals_rlp_length: 10,
        max_rlp_block_size: 2_000,
    }
}

fn build_with(parameters: BlockParameters) -> PayloadBuild {
    PaymentLanePayloadBuilder::new((), (), (), PaymentLaneBuilderConfig::default())
        .start_build(parameters)
}

/// Takes an admitted transaction through the remaining checks and settles it.
fn pack(
    build: &mut PayloadBuild,
    transaction: &LaneTransaction,
    rlp_length: usize,
    blob_count: Option<u64>,
    outcome: ExecutionOutcome,
) -> Settlement {
    assert_eq!(build.check_contents(rlp_length, blob_count), Ok(()));
    if blob_count.is_some() {
        let kind = if build.parameters().is_osaka {
            SidecarKind::Eip7594
        } else {
            SidecarKind::Eip4844
        };
        assert_eq!(build.check_sidecar(Some(kind)), Ok(()));
    }
    build.settle(transaction, rlp_length, blob_count, outcome)
}

/// Takes a transaction through every check and settles it.
fn run(
    build: &mut PayloadBuild,
    transaction: &LaneTransaction,
    rlp_length: usize,
    blob_count: Option<u64>,
    outcome: ExecutionOutcome,
) -> Settlement {
    assert!(matches!(build.consider(transaction, false), Admission::Admit(_)));
    pack(build, transaction, rlp_length, blob_count, outcome)
}

fn executed(gas_used: u64) -> ExecutionOutcome {
    ExecutionOutcome::Executed { gas_used }
}

#[test]
fn gas_limit_is_desired_or_parent() {
    let config = PaymentLaneBuilderConfig::default();
    assert_eq!(config.gas_limit(30_000_000), 30_000_000);
    let config = PaymentLaneBuilderConfig { desired_gas_limit: 36_000_000, ..config };
    assert_eq!(config.gas_limit(30_000_000), 36_000_000);
}

#[test]
fn builder_config_defaults_and_clone() {
    let config = PaymentLaneBuilderConfig::default();
    assert_eq!(config.desired_gas_limit, 0);
    assert!(!config.await_payload_on_missing);
    assert_eq!(config.max_blobs_per_block, None);
    assert!(config.extra_data.is_empty());
    assert_eq!(config.payment_config.payment_priority_boost, 10);
    let config = PaymentLaneBuilderConfig {
        desired_gas_limit: 1,
        await_payload_on_missing: true,
        max_blobs_per_block: Some(2),
        extra_data: vec![3, 4],
        payment_config: PaymentLaneConfig { max_nonce_keys: 5, ..Default::default() },
    };
    let copy = config.clone();
    assert_eq!(copy.desired_gas_limit, 1);
    assert!(copy.await_payload_on_missing);
    assert_eq!(copy.max_blobs_per_block, Some(2));
    assert_eq!(copy.extra_data, vec![3, 4]);
    assert_eq!(copy.payment_config.max_nonce_keys, 5);
}

#[test]
fn blob_limit_is_at_least_one_where_configured() {
    let config = |max_blobs_per_block| PaymentLaneBuilderConfig {
        max_blobs_per_block,
        ..Default::default()
    };
    assert_eq!(config(None).max_blob_count(6), 6);
    assert_eq!(config(None).max_blob_count(0), 0);
    assert_eq!(config(Some(3)).max_blob_count(6), 3);
    assert_eq!(config(Some(9)).max_blob_count(6), 6);
    assert_eq!(config(Some(0)).max_blob_count(6), 1);
    assert_eq!(config(Some(3)).max_blob_count(0), 1);
}

#[test]
fn missing_payload_is_awaited_or_raced() {
    let builder = |await_payload_on_missing| {
        let config = PaymentLaneBuilderConfig { await_payload_on_missing, ..Default::default() };
        PaymentLanePayloadBuilder::new("client", "pool", "evm", config)
    };
    assert_eq!(builder(true).on_missing_payload(), MissingPayloadBehaviour::AwaitInProgress);
    assert_eq!(builder(false).on_missing_payload(), MissingPayloadBehaviour::RaceEmptyPayload);
    assert_eq!(*builder(true).client(), "client");
    assert_eq!(*builder(true).pool(), "pool");
    assert_eq!(*builder(true).evm_config(), "evm");
    assert!(builder(true).builder_config().await_payload_on_missing);
}

#[test]
fn budget_checks_both_ceilings() {
    let mut budget = LaneGasBudget::new(1_000, 700);
    assert!(budget.can_fit_in_block(1_000));
    assert!(!budget.can_fit_in_block(1_001));
    assert!(budget.can_fit_in_lane(TxLane::General, 700));
    assert!(!budget.can_fit_in_lane(TxLane::General, 701));
    assert!(budget.can_fit_in_lane(TxLane::Payment, 5_000));
    budget.record_execution(TxLane::General, 600);
    budget.record_execution(TxLane::Payment, 250);
    assert_eq!(budget.cumulative_gas_used, 850);
    assert_eq!(budget.general_gas_used, 600);
    assert_eq!(budget.payment_gas_used, 250);
    assert!(!budget.can_fit_in_lane(TxLane::General, 101));
    assert!(budget.can_fit_in_block(150));
}

#[test]
fn build_starts_empty() {
    let build = build_with(parameters());
    assert_eq!(build.budget(), LaneGasBudget::new(1_000, 700));
    assert_eq!(build.total_fees(), U256::zero());
    assert_eq!(build.block_blob_count(), 0);
    assert_eq!(build.max_blob_count(), 6);
    assert_eq!(build.block_transactions_rlp_length(), 0);
    assert_eq!(build.metrics(), Default::default());
    assert_eq!(build.parameters(), parameters());
    let no_blobs = BlockParameters { protocol_max_blob_count: None, ..parameters() };
    assert_eq!(build_with(no_blobs).max_blob_count(), 0);
}

#[test]
fn general_lane_is_capped_and_payments_go_on() {
    let mut build = build_with(parameters());
    assert_eq!(build.consider(&general(700), false), Admission::Admit(TxLane::General));
    assert_eq!(
        pack(&mut build, &general(700), 100, None, executed(650)),
        Settlement::Included { skip_blobs: false }
    );
    // 50 are left for general transactions, 350 for payments.
    assert_eq!(build.consider(&general(51), false), Admission::SkipLaneFull);
    assert_eq!(build.consider(&payment(350), false), Admission::Admit(TxLane::Payment));
    pack(&mut build, &payment(350), 100, None, executed(300));
    assert_eq!(build.consider(&general(50), false), Admission::Admit(TxLane::General));
    pack(&mut build, &general(50), 100, None, executed(50));
    assert_eq!(build.consider(&general(1), false), Admission::SkipLaneFull);
    assert_eq!(
        build.consider(&payment(1), false),
        Admission::Reject(Rejection::ExceedsGasLimit { gas_limit: 1, block_gas_limit: 1_000 })
    );
    let metrics = build.metrics();
    assert_eq!(metrics.general_tx_classified, 2);
    assert_eq!(metrics.general_tx_included, 2);
    assert_eq!(metrics.general_tx_skipped_lane_full, 2);
    assert_eq!(metrics.payment_tx_classified, 1);
    assert_eq!(metrics.payment_tx_included, 1);
    assert_eq!(metrics.payment_gas_used_reserved, 1);
    assert_eq!(metrics.payment_gas_used_overflow, 0);
    assert_eq!(build.budget().cumulative_gas_used, 1_000);
}

#[test]
fn block_gas_limit_comes_before_cancellation() {
    let mut build = build_with(parameters());
    run(&mut build, &payment(500), 1, None, executed(500));
    assert_eq!(
        build.consider(&general(501), true),
        Admission::Reject(Rejection::ExceedsGasLimit { gas_limit: 501, block_gas_limit: 1_000 })
    );
    assert_eq!(build.consider(&general(500), true), Admission::Cancelled);
    assert_eq!(build.consider(&payment(500), true), Admission::Cancelled);
    assert_eq!(build.consider(&general(500), false), Admission::Admit(TxLane::General));
}

#[test]
fn full_lane_keeps_the_sender_valid() {
    // Neither the lane nor the block has room: the sender is not marked.
    let mut build = build_with(parameters());
    assert_eq!(build.consider(&general(1_001), false), Admission::SkipLaneFull);
    assert_eq!(
        build.consider(&payment(1_001), false),
        Admission::Reject(Rejection::ExceedsGasLimit { gas_limit: 1_001, block_gas_limit: 1_000 })
    );
}

#[test]
fn payments_beyond_the_reserve_are_overflow() {
    let mut build = build_with(parameters());
    run(&mut build, &payment(300), 1, None, executed(300));
    run(&mut build, &payment(300), 1, None, executed(1));
    assert_eq!(build.metrics().payment_gas_used_reserved, 1);
    assert_eq!(build.metrics().payment_gas_used_overflow, 1);
}

#[test]
fn reserved_gas_is_kept_for_payments() {
    let mut build = build_with(parameters());
    for _ in 0..7 {
        assert_eq!(build.consider(&general(100), false), Admission::Admit(TxLane::General));
        pack(&mut build, &general(100), 1, None, executed(100));
    }
    assert_eq!(build.consider(&general(100), false), Admission::SkipLaneFull);
    assert_eq!(build.consider(&payment(300), false), Admission::Admit(TxLane::Payment));
}

#[test]
fn size_is_limited_under_osaka() {
    let mut build = build_with(parameters());
    // 2000 - 1024 - 10 leave 966 bytes for transactions.
    assert_eq!(build.check_size(966), Ok(()));
    assert_eq!(
        build.check_size(967),
        Err(Rejection::OversizedData { size: 2_001, limit: 2_000 })
    );
    run(&mut build, &general(1), 900, None, executed(1));
    assert_eq!(build.block_transactions_rlp_length(), 900);
    assert_eq!(build.check_size(66), Ok(()));
    assert_eq!(
        build.check_size(67),
        Err(Rejection::OversizedData { size: 2_001, limit: 2_000 })
    );
    let before = build_with(BlockParameters { is_osaka: false, ..parameters() });
    assert_eq!(before.check_size(1_000_000), Ok(()));
}

#[test]
fn blobs_are_counted() {
    let mut build = build_with(parameters());
    assert_eq!(build.check_blob_count(6), Ok(()));
    assert_eq!(
        build.check_blob_count(7),
        Err(Rejection::TooManyBlobs { have: 7, permitted: 6 })
    );
    assert_eq!(
        run(&mut build, &general(1), 1, Some(4), executed(1)),
        Settlement::Included { skip_blobs: false }
    );
    assert_eq!(
        build.check_blob_count(3),
        Err(Rejection::TooManyBlobs { have: 7, permitted: 6 })
    );
    assert_eq!(
        run(&mut build, &general(1), 1, Some(2), executed(1)),
        Settlement::Included { skip_blobs: true }
    );
    assert_eq!(
        run(&mut build, &general(1), 1, None, executed(1)),
        Settlement::Included { skip_blobs: false }
    );
    assert_eq!(build.block_blob_count(), 6);
}

#[test]
fn sidecars_go_by_the_rules_in_force() {
    let verdict = |is_osaka, sidecar| {
        let mut build = build_with(BlockParameters { is_osaka, ..parameters() });
        assert_eq!(build.consider(&general(1), false), Admission::Admit(TxLane::General));
        assert_eq!(build.check_contents(1, Some(1)), Ok(()));
        build.check_sidecar(sidecar)
    };
    assert_eq!(verdict(true, Some(SidecarKind::Eip7594)), Ok(()));
    assert_eq!(
        verdict(true, Some(SidecarKind::Eip4844)),
        Err(Rejection::UnexpectedEip4844SidecarAfterOsaka)
    );
    assert_eq!(verdict(true, None), Err(Rejection::MissingBlobSidecar));
    assert_eq!(verdict(false, Some(SidecarKind::Eip4844)), Ok(()));
    assert_eq!(
        verdict(false, Some(SidecarKind::Eip7594)),
        Err(Rejection::UnexpectedEip7594SidecarBeforeOsaka)
    );
    assert_eq!(verdict(false, None), Err(Rejection::MissingBlobSidecar));
}

#[test]
fn failed_executions_leave_the_block_alone() {
    let mut build = build_with(parameters());
    let invalid = |nonce_too_low| ExecutionOutcome::Invalid { nonce_too_low };
    assert_eq!(run(&mut build, &general(1), 5, None, invalid(true)), Settlement::Skipped);
    assert_eq!(
        run(&mut build, &general(1), 5, None, invalid(false)),
        Settlement::Reject(Rejection::TxTypeNotSupported)
    );
    assert_eq!(
        run(&mut build, &general(1), 5, None, ExecutionOutcome::Broken),
        Settlement::Failed
    );
    assert_eq!(build.budget(), LaneGasBudget::new(1_000, 700));
    assert_eq!(build.block_transactions_rlp_length(), 0);
    assert_eq!(build.metrics().general_tx_classified, 3);
    assert_eq!(build.metrics().general_tx_included, 0);
}

#[test]
fn fees_are_tips_times_gas() {
    let mut build = build_with(parameters());
    // Tip 30 at base fee 60.
    run(&mut build, &general(100), 1, None, executed(7));
    assert_eq!(build.total_fees(), U256::from_u64(210));
    // A gas price of 100 leaves 40.
    let legacy = LaneTransaction { max_priority_fee_per_gas: None, ..payment(100) };
    run(&mut build, &legacy, 1, None, executed(2));
    assert_eq!(build.total_fees(), U256::from_u64(290));
}

#[test]
fn large_fees_carry_over() {
    let big = BlockParameters { block_gas_limit: u64::MAX, fraction_gas: 0, ..parameters() };
    let mut build = build_with(big);
    // (2^64 + 1) per gas times 2^63 gas: limbs 2^63 and 2^63.
    let generous = LaneTransaction {
        max_fee_per_gas: (1u128 << 64) + 1 + 60,
        max_priority_fee_per_gas: None,
        ..general(1 << 63)
    };
    run(&mut build, &generous, 1, None, executed(1 << 63));
    assert_eq!(build.total_fees(), U256 { limbs: [1 << 63, 1 << 63, 0, 0] });
    let again = LaneTransaction {
        max_fee_per_gas: (1u128 << 64) + 60,
        gas_limit: 1 << 62,
        ..generous
    };
    run(&mut build, &again, 1, None, executed(1 << 62));
    assert_eq!(build.total_fees(), U256 { limbs: [1 << 63, (1 << 63) + (1 << 62), 0, 0] });
}

#[test]
fn finish_seals_or_aborts() {
    let mut build = build_with(parameters());
    run(&mut build, &general(100), 1, None, executed(7));
    assert!(matches!(
        build.finish(true),
        BuildVerdict::Seal { fees } if fees == U256::from_u64(210)
    ));
    assert!(matches!(
        build.finish(false),
        BuildVerdict::Abort { fees } if fees == U256::from_u64(210)
    ));
    assert_eq!(build.metrics().blocks_built, 2);
}

#[test]
fn sealed_size_is_limited_under_osaka() {
    let osaka = build_with(parameters());
    assert_eq!(osaka.check_sealed_size(2_000), Ok(()));
    assert_eq!(
        osaka.check_sealed_size(2_001),
        Err(BlockTooLarge { rlp_length: 2_001, max_rlp_length: 2_000 })
    );
    let before = build_with(BlockParameters { is_osaka: false, ..parameters() });
    assert_eq!(before.check_sealed_size(2_001), Ok(()));
}

#[test]
fn counters_continue_from_those_given() {
    let config = PaymentLaneBuilderConfig::default();
    let mut earlier = build_with(parameters());
    earlier.consider(&payment(1), false);
    let mut build = PayloadBuild::new(
        &config,
        PaymentClassifier::default(),
        earlier.metrics(),
        parameters(),
    );
    build.consider(&payment(1), false);
    assert_eq!(build.metrics().payment_tx_classified, 2);
}

#[test]
fn packed_block_passes_validation() {
    let lane = || PaymentLaneConfig { consensus_enforced: true, ..Default::default() };
    let config = PaymentLaneBuilderConfig { payment_config: lane(), ..Default::default() };
    let builder = PaymentLanePayloadBuilder::new((), (), (), config);
    let mut build = builder.start_build(parameters());
    let mut transactions = Vec::new();
    let mut receipts = Vec::new();
    let pool = [general(400), payment(250), general(400), general(300), payment(200)];
    for transaction in pool {
        if matches!(build.consider(&transaction, false), Admission::Admit(_)) {
            let gas_used = transaction.gas_limit - 10;
            pack(&mut build, &transaction, 1, None, executed(gas_used));
            receipts.push(LaneReceipt {
                cumulative_gas_used: build.budget().cumulative_gas_used,
            });
            transactions.push(transaction);
        }
    }
    // The second transaction of 400 does not fit the general lane.
    assert_eq!(transactions.len(), 3);
    assert_eq!(build.budget().general_gas_used, 680);
    let mut validator = PaymentLaneValidator::new((), lane());
    assert_eq!(validator.validate_lane_gas(&transactions, &receipts, 1_000, 300), Ok(()));
    assert_eq!(
        validator.validate_lane_gas(&transactions, &receipts, 1_000, 321).map_err(|e| e.to_string()),
        Err("payment lane violation: general gas used (680) exceeds general gas limit (679)"
            .to_string())
    );
}

#[test]
fn size_comes_before_blobs() {
    let verdict = |rlp_length, blob_count| {
        let mut build = build_with(parameters());
        assert_eq!(build.consider(&general(1), false), Admission::Admit(TxLane::General));
        build.check_contents(rlp_length, blob_count)
    };
    assert_eq!(verdict(966, None), Ok(()));
    assert_eq!(verdict(966, Some(6)), Ok(()));
    assert_eq!(
        verdict(966, Some(7)),
        Err(Rejection::TooManyBlobs { have: 7, permitted: 6 })
    );
    let oversized = Err(Rejection::OversizedData { size: 2_001, limit: 2_000 });
    assert_eq!(verdict(967, None), oversized);
    assert_eq!(verdict(967, Some(7)), oversized);
}

#[test]
fn packed_block_keeps_its_limits() {
    // Whatever the pool offers, the block stays within its gas limits and blobs.
    let mut build = build_with(parameters());
    for n in 0..200u64 {
        let gas = (n * 37) % 160 + 1;
        let transaction = if n % 3 == 0 { payment(gas) } else { general(gas) };
        let blob_count = if n % 2 == 0 { Some(1) } else { None };
        if matches!(build.consider(&transaction, false), Admission::Admit(_)) {
            if build.check_contents(3, blob_count).is_err() {
                continue;
            }
            if blob_count.is_some() {
                assert_eq!(build.check_sidecar(Some(SidecarKind::Eip7594)), Ok(()));
            }
            build.settle(&transaction, 3, blob_count, executed(gas - gas / 4));
        }
    }
    let budget = build.budget();
    assert!(budget.general_gas_used <= 700);
    assert!(budget.cumulative_gas_used <= 1_000);
    assert_eq!(budget.general_gas_used + budget.payment_gas_used, budget.cumulative_gas_used);
    assert!(build.block_blob_count() <= 6);
}

#[test]
fn cloned_builder_builds_alike() {
    let config = PaymentLaneBuilderConfig {
        max_blobs_per_block: Some(2),
        payment_config: PaymentLaneConfig { general_gas_limit: Some(5), ..Default::default() },
        ..Default::default()
    };
    let copy = PaymentLanePayloadBuilder::new("client", "pool", "evm", config).clone();
    assert_eq!((*copy.client(), *copy.pool(), *copy.evm_config()), ("client", "pool", "evm"));
    let mut build = copy.start_build(parameters());
    assert_eq!(build.budget(), LaneGasBudget::new(1_000, 5));
    assert_eq!(build.max_blob_count(), 2);
    assert_eq!(build.consider(&payment(6), false), Admission::Admit(TxLane::Payment));
}

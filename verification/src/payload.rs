//! Dual-budget payload building.
//!
//! Blockspace is reserved for payment transactions: general (non-payment) transactions
//! can only consume up to the general gas limit, while payment transactions can use the
//! remaining capacity of the block.
//!
//! ## Packing strategy
//!
//! 1. Iterate over the best transactions of the pool
//! 2. Classify each transaction as payment or general
//! 3. General transactions are capped by the general gas limit
//! 4. Payment transactions can use any remaining gas up to the block gas limit
//! 5. When the general budget is exhausted, only payment transactions continue
//!
//! A [`PayloadBuild`] holds the state of one block under construction and takes every
//! decision of the packing loop. Fetching, executing and sealing are up to the caller,
//! who reports what came of them.

use crate::classifier::{lane_of, PaymentClassifier, TxLane};
use crate::config::{copy_bytes, default_config, PaymentLaneConfig, PaymentLaneConfigView};
use crate::metrics::{advance, counted, PaymentLaneMetrics};
use crate::packing::{law_checked_transaction_extends_the_packing, law_packed_block_respects_limits};
use crate::packing::{within_gas_limits, Inclusion, PackingRules, Stage};
use crate::primitives::{two_to_the_256, U256};
use crate::transaction::LaneTransaction;
use vstd::prelude::*;

verus! {

/// Ethereum payload builder configuration with payment lane support.
#[derive(Debug)]
pub struct PaymentLaneBuilderConfig {
    /// The desired gas limit for the built block.
    pub desired_gas_limit: u64,
    /// Whether to await an in-progress payload on missing.
    pub await_payload_on_missing: bool,
    /// Maximum blobs per block.
    pub max_blobs_per_block: Option<u64>,
    /// Extra data for the block header.
    pub extra_data: Vec<u8>,
    /// Payment lane configuration.
    pub payment_config: PaymentLaneConfig,
}

impl PaymentLaneBuilderConfig {
    /// Whether two configurations hold the same values.
    pub open spec fn same_as(self, other: Self) -> bool {
        &&& self.desired_gas_limit == other.desired_gas_limit
        &&& self.await_payload_on_missing == other.await_payload_on_missing
        &&& self.max_blobs_per_block == other.max_blobs_per_block
        &&& self.extra_data@ == other.extra_data@
        &&& self.payment_config@ == other.payment_config@
    }

    /// Returns the gas limit for the block, applying any desired limit or using parent's.
    pub fn gas_limit(&self, parent_gas_limit: u64) -> (limit: u64)
        ensures
            limit == (if self.desired_gas_limit == 0 {
                parent_gas_limit
            } else {
                self.desired_gas_limit
            }),
    {
        if self.desired_gas_limit == 0 {
            parent_gas_limit
        } else {
            self.desired_gas_limit
        }
    }

    /// Returns the number of blobs a block may hold, where the protocol permits
    /// `protocol_max_blob_count`.
    pub fn max_blob_count(&self, protocol_max_blob_count: u64) -> (count: u64)
        ensures
            count == blob_limit(self.max_blobs_per_block, protocol_max_blob_count),
    {
        match self.max_blobs_per_block {
            Some(user_limit) => {
                let limit: u64 = if user_limit <= protocol_max_blob_count {
                    user_limit
                } else {
                    protocol_max_blob_count
                };
                if limit < 1 {
                    1
                } else {
                    limit
                }
            },
            None => protocol_max_blob_count,
        }
    }
}

/// The number of blobs a block may hold: what the protocol permits, or the smaller of
/// that and the configured limit, but then at least one.
pub open spec fn blob_limit(user_limit: Option<u64>, protocol_limit: u64) -> u64 {
    match user_limit {
        Some(limit) => {
            let smaller = if limit <= protocol_limit {
                limit
            } else {
                protocol_limit
            };
            if smaller == 0 {
                1
            } else {
                smaller
            }
        },
        None => protocol_limit,
    }
}

impl Clone for PaymentLaneBuilderConfig {
    fn clone(&self) -> (copy: Self)
        ensures
            copy.same_as(*self),
    {
        PaymentLaneBuilderConfig {
            desired_gas_limit: self.desired_gas_limit,
            await_payload_on_missing: self.await_payload_on_missing,
            max_blobs_per_block: self.max_blobs_per_block,
            extra_data: copy_bytes(&self.extra_data),
            payment_config: self.payment_config.clone(),
        }
    }
}

impl Default for PaymentLaneBuilderConfig {
    fn default() -> (config: Self)
        ensures
            config.desired_gas_limit == 0,
            !config.await_payload_on_missing,
            config.max_blobs_per_block is None,
            config.extra_data@ == Seq::<u8>::empty(),
            config.payment_config@ == default_config(),
    {
        PaymentLaneBuilderConfig {
            desired_gas_limit: 0,
            await_payload_on_missing: false,
            max_blobs_per_block: None,
            extra_data: Vec::new(),
            payment_config: PaymentLaneConfig::default(),
        }
    }
}

/// The two gas ceilings of a block under construction, and the gas used so far.
#[derive(Debug, Clone, Copy, PartialEq, Eq, Structural)]
pub struct LaneGasBudget {
    /// Gas limit of the block.
    pub total_gas_limit: u64,
    /// Gas limit of general transactions.
    pub general_gas_limit: u64,
    /// Gas used by all transactions.
    pub cumulative_gas_used: u64,
    /// Gas used by general transactions.
    pub general_gas_used: u64,
    /// Gas used by payment transactions.
    pub payment_gas_used: u64,
}

impl LaneGasBudget {
    /// The gas of the two lanes makes up the gas of the block.
    pub open spec fn is_balanced(self) -> bool {
        self.general_gas_used + self.payment_gas_used == self.cumulative_gas_used
    }

    /// Whether the block has room for the given gas.
    pub open spec fn block_has_room(self, gas: u64) -> bool {
        self.cumulative_gas_used + gas <= self.total_gas_limit
    }

    /// Whether the lane has room for the given gas. Payments are not capped.
    pub open spec fn lane_has_room(self, lane: TxLane, gas: u64) -> bool {
        lane == TxLane::General ==> self.general_gas_used + gas <= self.general_gas_limit
    }

    /// The budget before anything is executed.
    pub open spec fn unused(total_gas_limit: u64, general_gas_limit: u64) -> LaneGasBudget {
        LaneGasBudget {
            total_gas_limit,
            general_gas_limit,
            cumulative_gas_used: 0,
            general_gas_used: 0,
            payment_gas_used: 0,
        }
    }

    /// The budget after a transaction of the lane used the given gas.
    pub open spec fn recorded(self, lane: TxLane, gas: u64) -> LaneGasBudget {
        let cumulative_gas_used = (self.cumulative_gas_used + gas) as u64;
        match lane {
            TxLane::General => LaneGasBudget {
                cumulative_gas_used,
                general_gas_used: (self.general_gas_used + gas) as u64,
                ..self
            },
            TxLane::Payment => LaneGasBudget {
                cumulative_gas_used,
                payment_gas_used: (self.payment_gas_used + gas) as u64,
                ..self
            },
        }
    }

    /// Creates the budget of an empty block.
    pub fn new(total_gas_limit: u64, general_gas_limit: u64) -> (budget: Self)
        ensures
            budget == LaneGasBudget::unused(total_gas_limit, general_gas_limit),
    {
        LaneGasBudget {
            total_gas_limit,
            general_gas_limit,
            cumulative_gas_used: 0,
            general_gas_used: 0,
            payment_gas_used: 0,
        }
    }

    /// Total capacity check.
    pub fn can_fit_in_block(&self, gas: u64) -> (fits: bool)
        requires
            self.cumulative_gas_used + gas <= u64::MAX,
        ensures
            fits == self.block_has_room(gas),
    {
        self.cumulative_gas_used + gas <= self.total_gas_limit
    }

    /// Lane-specific check: general transactions are capped, payments are not.
    pub fn can_fit_in_lane(&self, lane: TxLane, gas: u64) -> (fits: bool)
        requires
            lane == TxLane::General ==> self.general_gas_used + gas <= u64::MAX,
        ensures
            fits == self.lane_has_room(lane, gas),
    {
        match lane {
            TxLane::General => self.general_gas_used + gas <= self.general_gas_limit,
            TxLane::Payment => true,
        }
    }

    /// Updates the counters after execution.
    pub fn record_execution(&mut self, lane: TxLane, gas: u64)
        requires
            old(self).is_balanced(),
            old(self).cumulative_gas_used + gas <= u64::MAX,
        ensures
            *final(self) == old(self).recorded(lane, gas),
            final(self).is_balanced(),
    {
        match lane {
            TxLane::General => {
                self.general_gas_used = self.general_gas_used + gas;
            },
            TxLane::Payment => {
                self.payment_gas_used = self.payment_gas_used + gas;
            },
        }
        self.cumulative_gas_used = self.cumulative_gas_used + gas;
    }
}

/// What is fixed about a block before the first transaction is looked at.
#[derive(Debug, Clone, Copy, PartialEq, Eq, Structural)]
pub struct BlockParameters {
    /// Gas limit of the block.
    pub block_gas_limit: u64,
    /// What the fraction reserved for payments of that limit comes to.
    pub fraction_gas: u64,
    /// Base fee per gas.
    pub base_fee: u64,
    /// Number of blobs that the protocol permits in a block, where it knows blobs.
    pub protocol_max_blob_count: Option<u64>,
    /// Whether the Osaka rules are active.
    pub is_osaka: bool,
    /// Length of the encoded withdrawals.
    pub withdrawals_rlp_length: usize,
    /// Largest encoded block that the Osaka rules permit.
    pub max_rlp_block_size: usize,
}

impl BlockParameters {
    /// The number of blobs that the protocol permits: none where it knows no blobs.
    pub open spec fn protocol_blobs(self) -> u64 {
        match self.protocol_max_blob_count {
            Some(count) => count,
            None => 0,
        }
    }
}

/// Why a transaction of the pool, and with it what its sender sends after it, is out of
/// the question for the block.
#[derive(Debug, Clone, Copy, PartialEq, Eq, Structural)]
pub enum Rejection {
    /// The block has too little gas left.
    ExceedsGasLimit {
        /// Gas limit of the transaction.
        gas_limit: u64,
        /// Gas limit of the block.
        block_gas_limit: u64,
    },
    /// The encoded block would become too large.
    OversizedData {
        /// Estimated size of the block with the transaction.
        size: usize,
        /// Largest size permitted.
        limit: usize,
    },
    /// The block would hold too many blobs.
    TooManyBlobs {
        /// Number of blobs with those of the transaction.
        have: u64,
        /// Largest number permitted.
        permitted: u64,
    },
    /// The blobs of the transaction are not to be had.
    MissingBlobSidecar,
    /// The sidecar is of the kind used before Osaka, and Osaka is active.
    UnexpectedEip4844SidecarAfterOsaka,
    /// The sidecar is of the kind used since Osaka, and Osaka is not active.
    UnexpectedEip7594SidecarBeforeOsaka,
    /// Execution found the transaction invalid.
    TxTypeNotSupported,
}

/// The kinds of blob sidecars.
#[derive(Debug, Clone, Copy, PartialEq, Eq, Structural)]
pub enum SidecarKind {
    /// With one proof for each blob.
    Eip4844,
    /// With cell proofs.
    Eip7594,
}

/// What to do with the next transaction of the pool.
#[derive(Debug, Clone, Copy, PartialEq, Eq, Structural)]
pub enum Admission {
    /// Mark it invalid, with what its sender sends after it.
    Reject(Rejection),
    /// Stop: the build was cancelled.
    Cancelled,
    /// Pass over it: the general budget is exhausted. Its sender stays valid, for other
    /// transactions of the same sender may be payments.
    SkipLaneFull,
    /// Go on with it, in the given lane.
    Admit(TxLane),
}

/// What came of executing a transaction.
#[derive(Debug, Clone, Copy, PartialEq, Eq, Structural)]
pub enum ExecutionOutcome {
    /// It was executed and used this much gas.
    Executed {
        /// Gas used.
        gas_used: u64,
    },
    /// It was found invalid.
    Invalid {
        /// Whether because its nonce was used before.
        nonce_too_low: bool,
    },
    /// The execution itself broke down.
    Broken,
}

/// What to do once a transaction was executed.
#[derive(Debug, Clone, Copy, PartialEq, Eq, Structural)]
pub enum Settlement {
    /// It is in the block.
    Included {
        /// Whether the block now holds all blobs it may, so that further blob
        /// transactions are to be passed over.
        skip_blobs: bool,
    },
    /// It is not in the block; go on.
    Skipped,
    /// It is not in the block; mark it invalid, with what its sender sends after it.
    Reject(Rejection),
    /// Give up the build.
    Failed,
}

/// What to do with a block that was packed.
#[derive(Debug, Clone, Copy)]
pub enum BuildVerdict {
    /// Drop it: the best payload known is no worse.
    Abort {
        /// Fees of the block.
        fees: U256,
    },
    /// Seal it.
    Seal {
        /// Fees of the block.
        fees: U256,
    },
}

/// A sealed block whose encoding is larger than the Osaka rules permit.
#[derive(Debug, Clone, Copy, PartialEq, Eq, Structural)]
pub struct BlockTooLarge {
    /// Length of the encoded block.
    pub rlp_length: usize,
    /// Largest length permitted.
    pub max_rlp_length: usize,
}

/// How far the build of a block has come.
pub struct BuildProgress {
    /// Gas limits, and gas used.
    pub budget: LaneGasBudget,
    /// Fees of the transactions in the block.
    pub fees: nat,
    /// Number of blobs in the block.
    pub blob_count: u64,
    /// Length of the encoded transactions.
    pub rlp_length: usize,
}

/// How far a block under construction has come.
#[derive(Clone, Copy)]
struct Progress {
    /// Gas limits, and gas used.
    budget: LaneGasBudget,
    /// Fees of the transactions in the block.
    total_fees: U256,
    /// Number of blobs in the block.
    block_blob_count: u64,
    /// Length of the encoded transactions.
    block_transactions_rlp_length: usize,
    /// The transactions in the block.
    history: Ghost<Seq<Inclusion>>,
    /// How far the next transaction has come.
    stage: Ghost<Stage>,
}

/// The state of one block under construction.
///
/// A transaction of the pool goes through [`PayloadBuild::consider`],
/// [`PayloadBuild::check_contents`], for a blob transaction
/// [`PayloadBuild::check_sidecar`], and [`PayloadBuild::settle`], in this order; where
/// one of them turns it away, the next transaction is considered.
pub struct PayloadBuild {
    /// Determines the lane of a transaction.
    classifier: PaymentClassifier,
    /// Counters of the decisions.
    metrics: PaymentLaneMetrics,
    /// What was fixed about the block beforehand.
    parameters: BlockParameters,
    /// Gas limit of general transactions.
    general_gas_limit: u64,
    /// Number of blobs that the block may hold.
    max_blob_count: u64,
    /// How far the block has come.
    progress: Progress,
}

impl View for PayloadBuild {
    type V = BuildProgress;

    closed spec fn view(&self) -> BuildProgress {
        BuildProgress {
            budget: self.progress.budget,
            fees: self.progress.total_fees@,
            blob_count: self.progress.block_blob_count,
            rlp_length: self.progress.block_transactions_rlp_length,
        }
    }
}

/// What is decided of a transaction before it is looked at any closer.
///
/// The lane of a general transaction comes before the block: where its lane is full it
/// is skipped, and its sender not marked, whether or not the block has room for it.
pub open spec fn admission(
    config: PaymentLaneConfigView,
    budget: LaneGasBudget,
    transaction: LaneTransaction,
    cancelled: bool,
) -> Admission {
    let lane = lane_of(config, transaction.to, transaction.input@);
    let gas = transaction.gas_limit;
    if !budget.block_has_room(gas) && budget.lane_has_room(lane, gas) {
        Admission::Reject(
            Rejection::ExceedsGasLimit { gas_limit: gas, block_gas_limit: budget.total_gas_limit },
        )
    } else if cancelled && budget.block_has_room(gas) {
        Admission::Cancelled
    } else if !budget.lane_has_room(lane, gas) {
        Admission::SkipLaneFull
    } else {
        Admission::Admit(lane)
    }
}

/// The counters after a transaction was admitted, skipped or turned away.
pub open spec fn counted_admission(
    metrics: PaymentLaneMetrics,
    admission: Admission,
) -> PaymentLaneMetrics {
    match admission {
        Admission::SkipLaneFull => PaymentLaneMetrics {
            general_tx_skipped_lane_full: counted(metrics.general_tx_skipped_lane_full),
            ..metrics
        },
        Admission::Admit(TxLane::General) => PaymentLaneMetrics {
            general_tx_classified: counted(metrics.general_tx_classified),
            ..metrics
        },
        Admission::Admit(TxLane::Payment) => PaymentLaneMetrics {
            payment_tx_classified: counted(metrics.payment_tx_classified),
            ..metrics
        },
        _ => metrics,
    }
}

/// The counters after a transaction entered the block, where `budget` holds its gas.
///
/// A payment counts as reserved while payments are within what general transactions
/// cannot use, and as overflow beyond that.
pub open spec fn counted_inclusion(
    metrics: PaymentLaneMetrics,
    lane: TxLane,
    budget: LaneGasBudget,
) -> PaymentLaneMetrics {
    match lane {
        TxLane::General => PaymentLaneMetrics {
            general_tx_included: counted(metrics.general_tx_included),
            ..metrics
        },
        TxLane::Payment => {
            let included = PaymentLaneMetrics {
                payment_tx_included: counted(metrics.payment_tx_included),
                ..metrics
            };
            if budget.payment_gas_used <= budget.total_gas_limit - budget.general_gas_limit {
                PaymentLaneMetrics {
                    payment_gas_used_reserved: counted(metrics.payment_gas_used_reserved),
                    ..included
                }
            } else {
                PaymentLaneMetrics {
                    payment_gas_used_overflow: counted(metrics.payment_gas_used_overflow),
                    ..included
                }
            }
        },
    }
}

/// The answer to a transaction whose encoding has the given length: only the Osaka
/// rules limit the size of a block.
pub open spec fn size_verdict(
    block: BlockParameters,
    progress: BuildProgress,
    rlp_length: usize,
) -> Result<(), Rejection> {
    let size = progress.size_with(block, rlp_length);
    let limit = block.max_rlp_block_size;
    if block.is_osaka && size > limit {
        Err(Rejection::OversizedData { size: size as usize, limit })
    } else {
        Ok(())
    }
}

/// The answer to a transaction of the given number of blobs.
pub open spec fn blob_verdict(permitted: u64, progress: BuildProgress, blob_count: u64) -> Result<
    (),
    Rejection,
> {
    let have = progress.blob_count + blob_count;
    if have > permitted {
        Err(Rejection::TooManyBlobs { have: have as u64, permitted })
    } else {
        Ok(())
    }
}

/// The answer to what a transaction holds: first its length, then, where it is a blob
/// transaction, the number of its blobs.
pub open spec fn contents_verdict(
    block: BlockParameters,
    permitted: u64,
    progress: BuildProgress,
    rlp_length: usize,
    blob_count: Option<u64>,
) -> Result<(), Rejection> {
    let size = size_verdict(block, progress, rlp_length);
    if size is Err {
        size
    } else {
        match blob_count {
            Some(count) => blob_verdict(permitted, progress, count),
            None => Ok(()),
        }
    }
}

/// The answer to the sidecar found for a blob transaction, if any.
pub open spec fn sidecar_verdict(block: BlockParameters, sidecar: Option<SidecarKind>) -> Result<
    (),
    Rejection,
> {
    match (sidecar, block.is_osaka) {
        (None, _) => Err(Rejection::MissingBlobSidecar),
        (Some(SidecarKind::Eip7594), true) => Ok(()),
        (Some(SidecarKind::Eip4844), false) => Ok(()),
        (Some(SidecarKind::Eip4844), true) => Err(Rejection::UnexpectedEip4844SidecarAfterOsaka),
        (Some(SidecarKind::Eip7594), false) => Err(Rejection::UnexpectedEip7594SidecarBeforeOsaka),
    }
}

/// The number of blobs that a transaction carries.
pub open spec fn blobs_of(blob_count: Option<u64>) -> u64 {
    match blob_count {
        Some(count) => count,
        None => 0,
    }
}

impl BuildProgress {
    /// The estimated size of the encoded block with a further transaction.
    pub open spec fn size_with(self, block: BlockParameters, rlp_length: usize) -> int {
        self.rlp_length + rlp_length + block.withdrawals_rlp_length + 1024
    }

    /// The progress after a transaction entered the block.
    pub open spec fn with_transaction(
        self,
        lane: TxLane,
        tip: u128,
        rlp_length: usize,
        blob_count: Option<u64>,
        gas_used: u64,
    ) -> BuildProgress {
        BuildProgress {
            budget: self.budget.recorded(lane, gas_used),
            fees: (self.fees + (tip * gas_used) as nat) % two_to_the_256(),
            blob_count: (self.blob_count + blobs_of(blob_count)) as u64,
            rlp_length: (self.rlp_length + rlp_length) as usize,
        }
    }
}

impl PayloadBuild {
    /// The progress is that of the history, every transaction of the history passed
    /// every check, and the stage says what the next one passed.
    #[verifier::type_invariant]
    spec fn wf(self) -> bool {
        &&& self.progress.budget.is_balanced()
        &&& self.follows_history()
        &&& self.rules().allows(self@, self.stage())
    }

    /// What the block is packed by.
    pub closed spec fn rules(self) -> PackingRules {
        PackingRules {
            config: self.classifier@,
            block: self.parameters,
            general_gas_limit: self.general_gas_limit,
            max_blob_count: self.max_blob_count,
        }
    }

    /// The transactions in the block, in order.
    pub closed spec fn history(self) -> Seq<Inclusion> {
        self.progress.history@
    }

    /// How far the next transaction of the pool has come.
    pub closed spec fn stage(self) -> Stage {
        self.progress.stage@
    }

    /// The counters of the decisions.
    pub closed spec fn counters(self) -> PaymentLaneMetrics {
        self.metrics
    }

    /// The transactions in the block entered it by way of every check, and the progress
    /// is the one they lead to.
    pub open spec fn follows_history(self) -> bool {
        &&& self.rules().is_packed(self.history())
        &&& self@ == self.rules().progress_after(self.history())
    }

    /// Starts on an empty block.
    pub fn new(
        builder_config: &PaymentLaneBuilderConfig,
        classifier: PaymentClassifier,
        metrics: PaymentLaneMetrics,
        parameters: BlockParameters,
    ) -> (build: Self)
        ensures
            build.rules() == (PackingRules {
                config: classifier@,
                block: parameters,
                general_gas_limit: builder_config.payment_config@.general_gas(
                    parameters.block_gas_limit,
                    parameters.fraction_gas,
                ),
                max_blob_count: blob_limit(
                    builder_config.max_blobs_per_block,
                    parameters.protocol_blobs(),
                ),
            }),
            build@ == build.rules().start(),
            build.history() == Seq::<Inclusion>::empty(),
            build.stage() is Idle,
            build.counters() == metrics,
    {
        let general_gas_limit: u64 = builder_config.payment_config.compute_general_gas_limit(
            parameters.block_gas_limit,
            parameters.fraction_gas,
        );
        let protocol_max_blob_count: u64 = match parameters.protocol_max_blob_count {
            Some(count) => count,
            None => 0,
        };
        let max_blob_count: u64 = builder_config.max_blob_count(protocol_max_blob_count);
        PayloadBuild {
            classifier,
            metrics,
            parameters,
            general_gas_limit,
            max_blob_count,
            progress: Progress {
                budget: LaneGasBudget::new(parameters.block_gas_limit, general_gas_limit),
                total_fees: U256::zero(),
                block_blob_count: 0,
                block_transactions_rlp_length: 0,
                history: Ghost(Seq::empty()),
                stage: Ghost(Stage::Idle),
            },
        }
    }

    /// Returns the gas limits, and the gas used so far.
    pub fn budget(&self) -> (budget: LaneGasBudget)
        ensures
            budget == self@.budget,
            budget.is_balanced(),
            self.follows_history(),
    {
        proof {
            use_type_invariant(self);
        }
        self.progress.budget
    }

    /// Returns the fees of the transactions in the block.
    pub fn total_fees(&self) -> (fees: U256)
        ensures
            fees@ == self@.fees,
    {
        self.progress.total_fees
    }

    /// Returns the number of blobs in the block.
    pub fn block_blob_count(&self) -> (count: u64)
        ensures
            count == self@.blob_count,
    {
        self.progress.block_blob_count
    }

    /// Returns the number of blobs that the block may hold.
    pub fn max_blob_count(&self) -> (count: u64)
        ensures
            count == self.rules().max_blob_count,
    {
        self.max_blob_count
    }

    /// Returns the length of the encoded transactions in the block.
    pub fn block_transactions_rlp_length(&self) -> (length: usize)
        ensures
            length == self@.rlp_length,
    {
        self.progress.block_transactions_rlp_length
    }

    /// Returns what was fixed about the block beforehand.
    pub fn parameters(&self) -> (parameters: BlockParameters)
        ensures
            parameters == self.rules().block,
    {
        self.parameters
    }

    /// Returns the counters of the decisions.
    pub fn metrics(&self) -> (metrics: PaymentLaneMetrics)
        ensures
            metrics == self.counters(),
    {
        self.metrics
    }

    /// Decides whether the next transaction of the pool is considered for the block.
    pub fn consider(&mut self, transaction: &LaneTransaction, cancelled: bool) -> (result: Admission)
        requires
            old(self)@.budget.cumulative_gas_used + transaction.gas_limit <= u64::MAX,
        ensures
            result == admission(
                old(self).rules().config,
                old(self)@.budget,
                *transaction,
                cancelled,
            ),
            final(self).stage() == (if result is Admit {
                Stage::Admitted { transaction: *transaction }
            } else {
                Stage::Idle
            }),
            final(self).counters() == counted_admission(old(self).counters(), result),
            final(self)@ == old(self)@,
            final(self).history() == old(self).history(),
            final(self).rules() == old(self).rules(),
    {
        proof {
            use_type_invariant(&*self);
        }
        self.progress = Progress { stage: Ghost(Stage::Idle), ..self.progress };
        let lane = self.classifier.classify(transaction.to.as_ref(), transaction.input.as_slice());
        let gas: u64 = transaction.gas_limit;
        let budget = self.progress.budget;
        let lane_has_room = budget.can_fit_in_lane(lane, gas);
        if !budget.can_fit_in_block(gas) {
            if lane_has_room {
                return Admission::Reject(
                    Rejection::ExceedsGasLimit {
                        gas_limit: gas,
                        block_gas_limit: budget.total_gas_limit,
                    },
                );
            }
        } else if cancelled {
            return Admission::Cancelled;
        }
        if !lane_has_room {
            self.metrics.general_tx_skipped_lane_full = advance(
                self.metrics.general_tx_skipped_lane_full,
            );
            return Admission::SkipLaneFull;
        }
        match lane {
            TxLane::General => {
                self.metrics.general_tx_classified = advance(self.metrics.general_tx_classified);
            },
            TxLane::Payment => {
                self.metrics.payment_tx_classified = advance(self.metrics.payment_tx_classified);
            },
        }
        self.progress = Progress {
            stage: Ghost(Stage::Admitted { transaction: *transaction }),
            ..self.progress
        };
        Admission::Admit(lane)
    }

    /// Decides whether a transaction whose encoding has the given length keeps the
    /// block small enough. Headers and the like count for 1024 bytes, and only the
    /// Osaka rules have a limit.
    pub fn check_size(&self, tx_rlp_length: usize) -> (result: Result<(), Rejection>)
        requires
            self@.size_with(self.rules().block, tx_rlp_length) <= usize::MAX,
        ensures
            result == size_verdict(self.rules().block, self@, tx_rlp_length),
    {
        let size: usize = self.progress.block_transactions_rlp_length + tx_rlp_length
            + self.parameters.withdrawals_rlp_length + 1024;
        if self.parameters.is_osaka && size > self.parameters.max_rlp_block_size {
            return Err(
                Rejection::OversizedData { size, limit: self.parameters.max_rlp_block_size },
            );
        }
        Ok(())
    }

    /// Decides whether the block has room for the given number of blobs.
    pub fn check_blob_count(&self, tx_blob_count: u64) -> (result: Result<(), Rejection>)
        requires
            self@.blob_count + tx_blob_count <= u64::MAX,
        ensures
            result == blob_verdict(self.rules().max_blob_count, self@, tx_blob_count),
    {
        let have: u64 = self.progress.block_blob_count + tx_blob_count;
        if have > self.max_blob_count {
            return Err(Rejection::TooManyBlobs { have, permitted: self.max_blob_count });
        }
        Ok(())
    }

    /// Decides whether what an admitted transaction holds fits the block: first the
    /// length of its encoding, then, where it is a blob transaction, the number of its
    /// blobs.
    pub fn check_contents(&mut self, tx_rlp_length: usize, tx_blob_count: Option<u64>) -> (result:
        Result<(), Rejection>)
        requires
            old(self).stage() is Admitted,
            old(self)@.size_with(old(self).rules().block, tx_rlp_length) <= usize::MAX,
            old(self)@.blob_count + blobs_of(tx_blob_count) <= u64::MAX,
        ensures
            result == contents_verdict(
                old(self).rules().block,
                old(self).rules().max_blob_count,
                old(self)@,
                tx_rlp_length,
                tx_blob_count,
            ),
            final(self).stage() == (match (result, old(self).stage(), tx_blob_count) {
                (Ok(_), Stage::Admitted { transaction }, Some(_)) => Stage::Fitting {
                    transaction,
                    rlp_length: tx_rlp_length,
                    blob_count: tx_blob_count,
                },
                (Ok(_), Stage::Admitted { transaction }, None) => Stage::Ready {
                    transaction,
                    rlp_length: tx_rlp_length,
                    blob_count: tx_blob_count,
                    sidecar: None,
                },
                _ => Stage::Idle,
            }),
            final(self)@ == old(self)@,
            final(self).history() == old(self).history(),
            final(self).counters() == old(self).counters(),
            final(self).rules() == old(self).rules(),
    {
        proof {
            use_type_invariant(&*self);
        }
        let ghost transaction = self.stage()->Admitted_transaction;
        let size = self.check_size(tx_rlp_length);
        if size.is_err() {
            self.progress = Progress { stage: Ghost(Stage::Idle), ..self.progress };
            return size;
        }
        match tx_blob_count {
            Some(count) => {
                let blobs = self.check_blob_count(count);
                let ghost stage = if blobs is Ok {
                    Stage::Fitting {
                        transaction,
                        rlp_length: tx_rlp_length,
                        blob_count: tx_blob_count,
                    }
                } else {
                    Stage::Idle
                };
                self.progress = Progress { stage: Ghost(stage), ..self.progress };
                blobs
            },
            None => {
                self.progress = Progress {
                    stage: Ghost(
                        Stage::Ready {
                            transaction,
                            rlp_length: tx_rlp_length,
                            blob_count: None,
                            sidecar: None,
                        },
                    ),
                    ..self.progress
                };
                Ok(())
            },
        }
    }

    /// Decides whether the sidecar that was found for a blob transaction, if any, is of
    /// the kind that the rules in force ask for.
    pub fn check_sidecar(&mut self, sidecar: Option<SidecarKind>) -> (result: Result<(), Rejection>)
        requires
            old(self).stage() is Fitting,
        ensures
            result == sidecar_verdict(old(self).rules().block, sidecar),
            final(self).stage() == (match (result, old(self).stage()) {
                (Ok(_), Stage::Fitting { transaction, rlp_length, blob_count }) => Stage::Ready {
                    transaction,
                    rlp_length,
                    blob_count,
                    sidecar,
                },
                _ => Stage::Idle,
            }),
            final(self)@ == old(self)@,
            final(self).history() == old(self).history(),
            final(self).counters() == old(self).counters(),
            final(self).rules() == old(self).rules(),
    {
        proof {
            use_type_invariant(&*self);
        }
        let ghost next = Stage::Ready {
            transaction: self.stage()->Fitting_transaction,
            rlp_length: self.stage()->Fitting_rlp_length,
            blob_count: self.stage()->Fitting_blob_count,
            sidecar,
        };
        self.progress = Progress { stage: Ghost(Stage::Idle), ..self.progress };
        let Some(kind) = sidecar else {
            return Err(Rejection::MissingBlobSidecar);
        };
        if self.parameters.is_osaka {
            if kind != SidecarKind::Eip7594 {
                return Err(Rejection::UnexpectedEip4844SidecarAfterOsaka);
            }
        } else if kind != SidecarKind::Eip4844 {
            return Err(Rejection::UnexpectedEip7594SidecarBeforeOsaka);
        }
        self.progress = Progress { stage: Ghost(next), ..self.progress };
        Ok(())
    }

    /// Whether the given transaction has passed every check and is to be executed.
    pub open spec fn is_ready(
        self,
        transaction: LaneTransaction,
        tx_rlp_length: usize,
        tx_blob_count: Option<u64>,
    ) -> bool {
        &&& self.stage() matches Stage::Ready { transaction: checked, rlp_length, blob_count, .. }
        &&& checked == transaction
        &&& rlp_length == tx_rlp_length
        &&& blob_count == tx_blob_count
    }

    /// Takes in what came of executing a transaction that passed every check:
    /// `tx_rlp_length` is the length of its encoding and `tx_blob_count` the number of
    /// its blobs, where it is a blob transaction. What was executed is in the block.
    pub fn settle(
        &mut self,
        transaction: &LaneTransaction,
        tx_rlp_length: usize,
        tx_blob_count: Option<u64>,
        outcome: ExecutionOutcome,
    ) -> (result: Settlement)
        requires
            old(self).is_ready(*transaction, tx_rlp_length, tx_blob_count),
            outcome matches ExecutionOutcome::Executed { gas_used } ==> {
                &&& old(self)@.budget.cumulative_gas_used + gas_used <= u64::MAX
                &&& transaction.tip_at(old(self).rules().block.base_fee) is Some
                &&& old(self)@.budget.general_gas_limit <= old(self)@.budget.total_gas_limit
                    || lane_of(old(self).rules().config, transaction.to, transaction.input@)
                    == TxLane::General
            },
        ensures
            final(self).rules() == old(self).rules(),
            final(self).stage() is Idle,
            final(self).follows_history(),
            match outcome {
                ExecutionOutcome::Executed { gas_used } => {
                    let lane = lane_of(
                        old(self).rules().config,
                        transaction.to,
                        transaction.input@,
                    );
                    let tip = transaction.tip_at(old(self).rules().block.base_fee).unwrap();
                    &&& final(self)@ == old(self)@.with_transaction(
                        lane,
                        tip,
                        tx_rlp_length,
                        tx_blob_count,
                        gas_used,
                    )
                    &&& final(self).history() == old(self).history().push(
                        Inclusion {
                            transaction: *transaction,
                            rlp_length: tx_rlp_length,
                            blob_count: tx_blob_count,
                            sidecar: old(self).stage()->Ready_sidecar,
                            gas_used,
                        },
                    )
                    &&& final(self).counters() == counted_inclusion(
                        old(self).counters(),
                        lane,
                        final(self)@.budget,
                    )
                    &&& result == (Settlement::Included {
                        skip_blobs: tx_blob_count is Some && final(self)@.blob_count
                            == old(self).rules().max_blob_count,
                    })
                },
                ExecutionOutcome::Invalid { nonce_too_low } => {
                    &&& final(self)@ == old(self)@
                    &&& final(self).history() == old(self).history()
                    &&& final(self).counters() == old(self).counters()
                    &&& result == if nonce_too_low {
                        Settlement::Skipped
                    } else {
                        Settlement::Reject(Rejection::TxTypeNotSupported)
                    }
                },
                ExecutionOutcome::Broken => {
                    &&& final(self)@ == old(self)@
                    &&& final(self).history() == old(self).history()
                    &&& final(self).counters() == old(self).counters()
                    &&& result == Settlement::Failed
                },
            },
    {
        proof {
            use_type_invariant(&*self);
        }
        let ghost sidecar = self.stage()->Ready_sidecar;
        let gas_used: u64 = match outcome {
            ExecutionOutcome::Executed { gas_used } => gas_used,
            ExecutionOutcome::Invalid { nonce_too_low } => {
                self.progress = Progress { stage: Ghost(Stage::Idle), ..self.progress };
                if nonce_too_low {
                    return Settlement::Skipped;
                }
                return Settlement::Reject(Rejection::TxTypeNotSupported);
            },
            ExecutionOutcome::Broken => {
                self.progress = Progress { stage: Ghost(Stage::Idle), ..self.progress };
                return Settlement::Failed;
            },
        };
        let lane = self.classifier.classify(transaction.to.as_ref(), transaction.input.as_slice());
        let blob_count: u64 = match tx_blob_count {
            Some(count) => self.progress.block_blob_count + count,
            None => self.progress.block_blob_count,
        };
        let skip_blobs = tx_blob_count.is_some() && blob_count == self.max_blob_count;
        let rlp_length: usize = self.progress.block_transactions_rlp_length + tx_rlp_length;
        let mut budget = self.progress.budget;
        budget.record_execution(lane, gas_used);
        let tip: u128 = transaction.effective_tip_per_gas(self.parameters.base_fee).unwrap();
        let fee = U256::product(tip, gas_used);
        let total_fees = self.progress.total_fees.add_wrapping(&fee);
        let ghost next = Inclusion {
            transaction: *transaction,
            rlp_length: tx_rlp_length,
            blob_count: tx_blob_count,
            sidecar,
            gas_used,
        };
        proof {
            law_checked_transaction_extends_the_packing(self.rules(), self.history(), next);
        }
        self.progress = Progress {
            budget,
            total_fees,
            block_blob_count: blob_count,
            block_transactions_rlp_length: rlp_length,
            history: Ghost(self.progress.history@.push(next)),
            stage: Ghost(Stage::Idle),
        };
        match lane {
            TxLane::General => {
                self.metrics.general_tx_included = advance(self.metrics.general_tx_included);
            },
            TxLane::Payment => {
                self.metrics.payment_tx_included = advance(self.metrics.payment_tx_included);
                if budget.payment_gas_used <= budget.total_gas_limit - budget.general_gas_limit {
                    self.metrics.payment_gas_used_reserved = advance(
                        self.metrics.payment_gas_used_reserved,
                    );
                } else {
                    self.metrics.payment_gas_used_overflow = advance(
                        self.metrics.payment_gas_used_overflow,
                    );
                }
            },
        }
        Settlement::Included { skip_blobs }
    }

    /// Decides what becomes of the block once the pool has no more transactions for it:
    /// it is sealed where its fees make it better than the best payload known.
    ///
    /// The block keeps its gas limits and its number of blobs, given that no
    /// transaction used more gas than its limit.
    pub fn finish(&mut self, is_better: bool) -> (verdict: BuildVerdict)
        ensures
            final(self)@ == old(self)@,
            final(self).history() == old(self).history(),
            final(self).stage() == old(self).stage(),
            final(self).rules() == old(self).rules(),
            final(self).follows_history(),
            within_gas_limits(final(self).history()) ==> final(self).rules().keeps_limits(
                final(self)@,
            ),
            final(self).counters() == (PaymentLaneMetrics {
                blocks_built: counted(old(self).counters().blocks_built),
                ..old(self).counters()
            }),
            match verdict {
                BuildVerdict::Seal { fees } => is_better && fees@ == old(self)@.fees,
                BuildVerdict::Abort { fees } => !is_better && fees@ == old(self)@.fees,
            },
    {
        proof {
            use_type_invariant(&*self);
            if within_gas_limits(self.history()) {
                law_packed_block_respects_limits(self.rules(), self.history());
            }
        }
        self.metrics.blocks_built = advance(self.metrics.blocks_built);
        let fees = self.progress.total_fees;
        if is_better {
            BuildVerdict::Seal { fees }
        } else {
            BuildVerdict::Abort { fees }
        }
    }

    /// Decides whether a sealed block whose encoding has the given length may be handed
    /// out. Only the Osaka rules have a limit.
    pub fn check_sealed_size(&self, rlp_length: usize) -> (result: Result<(), BlockTooLarge>)
        ensures
            ({
                let block = self.rules().block;
                result == if block.is_osaka && rlp_length > block.max_rlp_block_size {
                    Err::<(), BlockTooLarge>(
                        BlockTooLarge { rlp_length, max_rlp_length: block.max_rlp_block_size },
                    )
                } else {
                    Ok(())
                }
            }),
    {
        if self.parameters.is_osaka && rlp_length > self.parameters.max_rlp_block_size {
            return Err(
                BlockTooLarge { rlp_length, max_rlp_length: self.parameters.max_rlp_block_size },
            );
        }
        Ok(())
    }
}

/// What a caller who asks for a payload before one is ready is to do.
#[derive(Debug, Clone, Copy, PartialEq, Eq, Structural)]
pub enum MissingPayloadBehaviour {
    /// Await the payload in progress.
    AwaitInProgress,
    /// Race it against an empty payload.
    RaceEmptyPayload,
}

/// Payment-lane-aware Ethereum payload builder.
///
/// Wraps the standard Ethereum payload building logic but enforces
/// dual gas budgets: one for general transactions and one shared/reserved for payments.
#[derive(Debug)]
pub struct PaymentLanePayloadBuilder<Pool, Client, EvmConfig> {
    /// Client providing access to node state.
    client: Client,
    /// Transaction pool.
    pool: Pool,
    /// EVM configuration.
    evm_config: EvmConfig,
    /// Builder configuration including payment lane settings.
    builder_config: PaymentLaneBuilderConfig,
    /// Payment classifier.
    classifier: PaymentClassifier,
    /// Metrics.
    metrics: PaymentLaneMetrics,
}

impl<Pool, Client, EvmConfig> PaymentLanePayloadBuilder<Pool, Client, EvmConfig> {
    /// Classifier and limits go by one configuration.
    #[verifier::type_invariant]
    spec fn wf(self) -> bool {
        self.classifier@ == self.builder_config.payment_config@
    }

    /// The configuration of the builder.
    pub closed spec fn config(self) -> PaymentLaneBuilderConfig {
        self.builder_config
    }

    /// The client, the pool and the EVM configuration.
    pub closed spec fn parts(self) -> (Client, Pool, EvmConfig) {
        (self.client, self.pool, self.evm_config)
    }

    /// The counters that a build starts from.
    pub closed spec fn counters(self) -> PaymentLaneMetrics {
        self.metrics
    }

    /// Creates a new [`PaymentLanePayloadBuilder`].
    pub fn new(
        client: Client,
        pool: Pool,
        evm_config: EvmConfig,
        builder_config: PaymentLaneBuilderConfig,
    ) -> (builder: Self)
        ensures
            builder.config() == builder_config,
            builder.parts() == (client, pool, evm_config),
            builder.counters() == PaymentLaneMetrics::zero(),
    {
        let classifier = PaymentClassifier::new(builder_config.payment_config.clone());
        PaymentLanePayloadBuilder {
            client,
            pool,
            evm_config,
            builder_config,
            classifier,
            metrics: PaymentLaneMetrics::default(),
        }
    }

    /// Returns the client.
    pub fn client(&self) -> (client: &Client)
        ensures
            *client == self.parts().0,
    {
        &self.client
    }

    /// Returns the transaction pool.
    pub fn pool(&self) -> (pool: &Pool)
        ensures
            *pool == self.parts().1,
    {
        &self.pool
    }

    /// Returns the EVM configuration.
    pub fn evm_config(&self) -> (evm_config: &EvmConfig)
        ensures
            *evm_config == self.parts().2,
    {
        &self.evm_config
    }

    /// Returns the configuration of the builder.
    pub fn builder_config(&self) -> (config: &PaymentLaneBuilderConfig)
        ensures
            *config == self.config(),
    {
        &self.builder_config
    }

    /// Starts on an empty block, with the counters of the builder.
    pub fn start_build(&self, parameters: BlockParameters) -> (build: PayloadBuild)
        ensures
            build.rules() == (PackingRules {
                config: self.config().payment_config@,
                block: parameters,
                general_gas_limit: self.config().payment_config@.general_gas(
                    parameters.block_gas_limit,
                    parameters.fraction_gas,
                ),
                max_blob_count: blob_limit(
                    self.config().max_blobs_per_block,
                    parameters.protocol_blobs(),
                ),
            }),
            build@ == build.rules().start(),
            build.history() == Seq::<Inclusion>::empty(),
            build.stage() is Idle,
            build.counters() == self.counters(),
    {
        proof {
            use_type_invariant(self);
        }
        PayloadBuild::new(&self.builder_config, self.classifier.clone(), self.metrics, parameters)
    }

    /// Decides what to do where a payload is asked for before one is ready.
    pub fn on_missing_payload(&self) -> (behaviour: MissingPayloadBehaviour)
        ensures
            behaviour == if self.config().await_payload_on_missing {
                MissingPayloadBehaviour::AwaitInProgress
            } else {
                MissingPayloadBehaviour::RaceEmptyPayload
            },
    {
        if self.builder_config.await_payload_on_missing {
            MissingPayloadBehaviour::AwaitInProgress
        } else {
            MissingPayloadBehaviour::RaceEmptyPayload
        }
    }
}

impl<Pool: Clone, Client: Clone, EvmConfig: Clone> Clone for PaymentLanePayloadBuilder<
    Pool,
    Client,
    EvmConfig,
> {
    fn clone(&self) -> (copy: Self)
        ensures
            copy.config().same_as(self.config()),
            copy.counters() == self.counters(),
            cloned(self.parts().0, copy.parts().0),
            cloned(self.parts().1, copy.parts().1),
            cloned(self.parts().2, copy.parts().2),
    {
        proof {
            use_type_invariant(self);
        }
        PaymentLanePayloadBuilder {
            client: self.client.clone(),
            pool: self.pool.clone(),
            evm_config: self.evm_config.clone(),
            builder_config: self.builder_config.clone(),
            classifier: self.classifier.clone(),
            metrics: self.metrics,
        }
    }
}

/// What becomes of a general transaction, whatever its target, calldata and fees: it is
/// admitted to the general lane exactly if both the general lane and the block have room
/// for its gas limit and the build was not cancelled; it is passed over only where the
/// lane has no room, and turned away only where the block has none and the lane has.
pub proof fn law_admission_of_general_transactions(
    config: PaymentLaneConfigView,
    budget: LaneGasBudget,
    transaction: LaneTransaction,
    cancelled: bool,
)
    requires
        lane_of(config, transaction.to, transaction.input@) == TxLane::General,
    ensures
        ({
            let result = admission(config, budget, transaction, cancelled);
            let gas = transaction.gas_limit;
            let lane_fits = budget.general_gas_used + gas <= budget.general_gas_limit;
            let block_fits = budget.cumulative_gas_used + gas <= budget.total_gas_limit;
            &&& result == Admission::Admit(TxLane::General) <==> lane_fits && block_fits
                && !cancelled
            &&& result == Admission::Cancelled <==> block_fits && cancelled
            &&& result == Admission::SkipLaneFull <==> !lane_fits && !(block_fits && cancelled)
            &&& result is Reject <==> lane_fits && !block_fits
            &&& result is Reject ==> result->Reject_0 == (Rejection::ExceedsGasLimit {
                gas_limit: gas,
                block_gas_limit: budget.total_gas_limit,
            })
        }),
{
}

/// What becomes of a payment, whatever its target, calldata and fees: it is admitted to
/// the payment lane exactly if the block has room for its gas limit and the build was not
/// cancelled, turned away where the block has no room, and never passed over.
pub proof fn law_admission_of_payments(
    config: PaymentLaneConfigView,
    budget: LaneGasBudget,
    transaction: LaneTransaction,
    cancelled: bool,
)
    requires
        lane_of(config, transaction.to, transaction.input@) == TxLane::Payment,
    ensures
        ({
            let result = admission(config, budget, transaction, cancelled);
            let gas = transaction.gas_limit;
            let block_fits = budget.cumulative_gas_used + gas <= budget.total_gas_limit;
            &&& result == Admission::Admit(TxLane::Payment) <==> block_fits && !cancelled
            &&& result == Admission::Cancelled <==> block_fits && cancelled
            &&& result is Reject <==> !block_fits
            &&& result is Reject ==> result->Reject_0 == (Rejection::ExceedsGasLimit {
                gas_limit: gas,
                block_gas_limit: budget.total_gas_limit,
            })
        }),
{
}

/// Admission counts one transaction as classified in its lane, or as skipped, and moves
/// no other counter; turning away and cancelling move none.
pub proof fn law_admissions_are_counted(metrics: PaymentLaneMetrics, result: Admission)
    ensures
        ({
            let after = counted_admission(metrics, result);
            let general = counted(metrics.general_tx_classified);
            let payment = counted(metrics.payment_tx_classified);
            let skipped = counted(metrics.general_tx_skipped_lane_full);
            &&& result == Admission::Admit(TxLane::General) ==> after == (PaymentLaneMetrics {
                general_tx_classified: general,
                ..metrics
            })
            &&& result == Admission::Admit(TxLane::Payment) ==> after == (PaymentLaneMetrics {
                payment_tx_classified: payment,
                ..metrics
            })
            &&& result == Admission::SkipLaneFull ==> after == (PaymentLaneMetrics {
                general_tx_skipped_lane_full: skipped,
                ..metrics
            })
            &&& result == Admission::Cancelled || result is Reject ==> after == metrics
        }),
{
}

/// Inclusion counts one transaction in its lane; a payment counts as well as reserved
/// while payments use no more than the block leaves beyond the general limit, and as
/// overflow beyond that. No other counter moves.
pub proof fn law_inclusions_are_counted(
    metrics: PaymentLaneMetrics,
    lane: TxLane,
    budget: LaneGasBudget,
)
    ensures
        ({
            let after = counted_inclusion(metrics, lane, budget);
            let general = counted(metrics.general_tx_included);
            let payment = counted(metrics.payment_tx_included);
            let reserved = counted(metrics.payment_gas_used_reserved);
            let overflow = counted(metrics.payment_gas_used_overflow);
            let within = budget.general_gas_limit + budget.payment_gas_used
                <= budget.total_gas_limit;
            &&& lane == TxLane::General ==> after == (PaymentLaneMetrics {
                general_tx_included: general,
                ..metrics
            })
            &&& lane == TxLane::Payment && within ==> after == (PaymentLaneMetrics {
                payment_tx_included: payment,
                payment_gas_used_reserved: reserved,
                ..metrics
            })
            &&& lane == TxLane::Payment && !within ==> after == (PaymentLaneMetrics {
                payment_tx_included: payment,
                payment_gas_used_overflow: overflow,
                ..metrics
            })
        }),
{
}

/// What a budget says: the block has room within its gas limit, the general lane within
/// its own, and the payment lane always.
pub proof fn law_room_in_a_budget(budget: LaneGasBudget, gas: u64)
    ensures
        budget.block_has_room(gas) <==> budget.cumulative_gas_used + gas <= budget.total_gas_limit,
        budget.lane_has_room(TxLane::General, gas) <==> budget.general_gas_used + gas
            <= budget.general_gas_limit,
        budget.lane_has_room(TxLane::Payment, gas),
        budget.is_balanced() <==> budget.general_gas_used + budget.payment_gas_used
            == budget.cumulative_gas_used,
{
}

/// Gas is recorded in its lane and in the block, and nowhere else; a budget starts with
/// its limits and nothing used.
pub proof fn law_gas_is_recorded_in_its_lane(
    budget: LaneGasBudget,
    lane: TxLane,
    gas: u64,
    total: u64,
    general: u64,
)
    requires
        budget.cumulative_gas_used + gas <= u64::MAX,
        budget.general_gas_used + gas <= u64::MAX,
        budget.payment_gas_used + gas <= u64::MAX,
    ensures
        ({
            let after = budget.recorded(lane, gas);
            &&& after.total_gas_limit == budget.total_gas_limit
            &&& after.general_gas_limit == budget.general_gas_limit
            &&& after.cumulative_gas_used == budget.cumulative_gas_used + gas
            &&& after.general_gas_used == budget.general_gas_used + if lane == TxLane::General {
                gas as int
            } else {
                0
            }
            &&& after.payment_gas_used == budget.payment_gas_used + if lane == TxLane::Payment {
                gas as int
            } else {
                0
            }
        }),
        ({
            let unused = LaneGasBudget::unused(total, general);
            &&& unused.total_gas_limit == total
            &&& unused.general_gas_limit == general
            &&& unused.cumulative_gas_used == 0
            &&& unused.general_gas_used == 0
            &&& unused.payment_gas_used == 0
        }),
{
}

/// A transaction is too large exactly if the Osaka rules are in force and the encoded
/// transactions with it, the withdrawals and 1024 bytes are more than the largest block.
pub proof fn law_size_is_limited_under_osaka_alone(
    block: BlockParameters,
    progress: BuildProgress,
    rlp_length: usize,
)
    ensures
        ({
            let size = progress.rlp_length + rlp_length + block.withdrawals_rlp_length + 1024;
            let verdict = size_verdict(block, progress, rlp_length);
            &&& progress.size_with(block, rlp_length) == size
            &&& verdict is Err <==> block.is_osaka && size > block.max_rlp_block_size
            &&& verdict is Err && size <= usize::MAX ==> {
                &&& verdict->Err_0 is OversizedData
                &&& verdict->Err_0->size == size
                &&& verdict->Err_0->OversizedData_limit == block.max_rlp_block_size
            }
        }),
{
}

/// Blobs are too many exactly if those in the block and those of the transaction are more
/// than permitted.
pub proof fn law_blobs_are_limited(permitted: u64, progress: BuildProgress, blob_count: u64)
    ensures
        ({
            let have = progress.blob_count + blob_count;
            let verdict = blob_verdict(permitted, progress, blob_count);
            &&& verdict is Err <==> have > permitted
            &&& verdict is Err && have <= u64::MAX ==> {
                &&& verdict->Err_0 is TooManyBlobs
                &&& verdict->Err_0->have == have
                &&& verdict->Err_0->permitted == permitted
            }
        }),
{
}

/// The size of a transaction is looked at before its blobs, and blobs only of a blob
/// transaction.
pub proof fn law_size_comes_before_blobs(
    block: BlockParameters,
    permitted: u64,
    progress: BuildProgress,
    rlp_length: usize,
    blob_count: Option<u64>,
)
    ensures
        ({
            let size = size_verdict(block, progress, rlp_length);
            let verdict = contents_verdict(block, permitted, progress, rlp_length, blob_count);
            &&& size is Err ==> verdict == size
            &&& size is Ok && blob_count is None ==> verdict is Ok
            &&& size is Ok && blob_count is Some ==> verdict == blob_verdict(
                permitted,
                progress,
                blob_count->0,
            )
        }),
{
}

/// A sidecar is right exactly if there is one with cell proofs under the Osaka rules, or
/// one with blob proofs before them.
pub proof fn law_sidecars_go_by_the_fork(block: BlockParameters, sidecar: Option<SidecarKind>)
    ensures
        ({
            let verdict = sidecar_verdict(block, sidecar);
            let right = if block.is_osaka {
                SidecarKind::Eip7594
            } else {
                SidecarKind::Eip4844
            };
            &&& verdict is Ok <==> sidecar == Some(right)
            &&& sidecar is None ==> verdict is Err && verdict->Err_0 is MissingBlobSidecar
            &&& sidecar is Some && sidecar != Some(right) && block.is_osaka ==> verdict is Err
                && verdict->Err_0 is UnexpectedEip4844SidecarAfterOsaka
            &&& sidecar is Some && sidecar != Some(right) && !block.is_osaka ==> verdict is Err
                && verdict->Err_0 is UnexpectedEip7594SidecarBeforeOsaka
        }),
{
}

/// A block may hold the blobs that the protocol permits, none where it knows no blobs; a
/// configured limit can only lower that, but leaves at least one.
pub proof fn law_blob_limit(user_limit: Option<u64>, block: BlockParameters)
    ensures
        ({
            let protocol = match block.protocol_max_blob_count {
                Some(count) => count,
                None => 0,
            };
            let limit = blob_limit(user_limit, block.protocol_blobs());
            &&& block.protocol_blobs() == protocol
            &&& user_limit is None ==> limit == protocol
            &&& user_limit matches Some(user) ==> {
                &&& limit >= 1
                &&& limit == 1 || limit <= protocol && limit <= user
                &&& limit == protocol || limit == user || (limit == 1 && (protocol == 0 || user
                    == 0))
            }
        }),
{
}

/// What an executed transaction adds: its gas to its lane and the block, the product of
/// tip and gas to the fees, its blobs and its length.
pub proof fn law_executed_transactions_add_up(
    progress: BuildProgress,
    lane: TxLane,
    tip: u128,
    rlp_length: usize,
    blob_count: Option<u64>,
    gas_used: u64,
)
    ensures
        ({
            let after = progress.with_transaction(lane, tip, rlp_length, blob_count, gas_used);
            let blobs = match blob_count {
                Some(count) => count as int,
                None => 0,
            };
            &&& after.budget == progress.budget.recorded(lane, gas_used)
            &&& after.fees == (progress.fees + tip * gas_used) % (two_to_the_256() as int)
            &&& progress.blob_count + blobs <= u64::MAX ==> after.blob_count == progress.blob_count
                + blobs
            &&& progress.rlp_length + rlp_length <= usize::MAX ==> after.rlp_length
                == progress.rlp_length + rlp_length
            &&& blobs_of(blob_count) == blobs
        }),
{
    assert(tip * gas_used >= 0) by (nonlinear_arith);
}

/// Two configurations are the same exactly if every value of them is.
pub proof fn law_same_configurations(a: PaymentLaneBuilderConfig, b: PaymentLaneBuilderConfig)
    ensures
        a.same_as(b) <==> {
            &&& a.desired_gas_limit == b.desired_gas_limit
            &&& a.await_payload_on_missing == b.await_payload_on_missing
            &&& a.max_blobs_per_block == b.max_blobs_per_block
            &&& a.extra_data@ == b.extra_data@
            &&& a.payment_config@ == b.payment_config@
        },
{
}

/// A transaction is ready exactly if it is the one that passed every check, with the
/// length and the number of blobs that were checked.
pub proof fn law_ready_is_what_was_checked(
    build: PayloadBuild,
    transaction: LaneTransaction,
    rlp_length: usize,
    blob_count: Option<u64>,
)
    ensures
        build.is_ready(transaction, rlp_length, blob_count) <==> exists|sidecar: Option<
            SidecarKind,
        >| build.stage() == (#[trigger] ready(transaction, rlp_length, blob_count, sidecar)),
        build.follows_history() <==> build.rules().is_packed(build.history()) && build@
            == build.rules().progress_after(build.history()),
{
    if build.is_ready(transaction, rlp_length, blob_count) {
        assert(build.stage() == ready(
            transaction,
            rlp_length,
            blob_count,
            build.stage()->Ready_sidecar,
        ));
    }
}

/// The stage of a transaction that passed every check.
pub open spec fn ready(
    transaction: LaneTransaction,
    rlp_length: usize,
    blob_count: Option<u64>,
    sidecar: Option<SidecarKind>,
) -> Stage {
    Stage::Ready { transaction, rlp_length, blob_count, sidecar }
}

} // verus!

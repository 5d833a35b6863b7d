//! Configuration for payment lane behavior.

use crate::primitives::Address;
use vstd::prelude::*;

verus! {

/// Configuration for payment lane behavior across the node.
///
/// The fraction of block gas that is reserved for payments is not held here: it is a
/// ratio that callers apply to a block gas limit themselves, and hand in as the gas it
/// comes to.
#[derive(Debug)]
pub struct PaymentLaneConfig {
    /// Hard cap: maximum gas that general (non-payment) txs can consume.
    /// If `None`, what the reserved fraction leaves of the block gas limit.
    pub general_gas_limit: Option<u64>,
    /// Address prefixes that identify payment contracts (TIP-20 style).
    /// A transaction whose `to` address starts with any of these prefixes is aimed at
    /// a payment contract.
    pub payment_address_prefixes: Vec<PaymentPrefix>,
    /// Known payment contract addresses (allowlist).
    pub payment_allowlist: Vec<Address>,
    /// Whether consensus enforcement of payment lane is active.
    pub consensus_enforced: bool,
    /// Priority boost factor for payment transactions in the ordering.
    /// Payment tx priority = `base_priority` * `boost_factor`.
    pub payment_priority_boost: u64,
    /// Maximum number of parallel nonce keys allowed per sender.
    pub max_nonce_keys: u16,
    /// Validity window for expiring nonces (seconds).
    pub nonce_expiry_window: u64,
}

/// A prefix for identifying payment addresses (like TIP-20's `0x20c0...` prefix).
#[derive(Debug)]
pub struct PaymentPrefix {
    /// The prefix bytes to match against the `to` address.
    pub bytes: Vec<u8>,
}

/// The contents of a [`PaymentLaneConfig`].
pub struct PaymentLaneConfigView {
    /// See [`PaymentLaneConfig::general_gas_limit`].
    pub general_gas_limit: Option<u64>,
    /// The bytes of each prefix.
    pub payment_address_prefixes: Seq<Seq<u8>>,
    /// See [`PaymentLaneConfig::payment_allowlist`].
    pub payment_allowlist: Seq<Address>,
    /// See [`PaymentLaneConfig::consensus_enforced`].
    pub consensus_enforced: bool,
    /// See [`PaymentLaneConfig::payment_priority_boost`].
    pub payment_priority_boost: u64,
    /// See [`PaymentLaneConfig::max_nonce_keys`].
    pub max_nonce_keys: u16,
    /// See [`PaymentLaneConfig::nonce_expiry_window`].
    pub nonce_expiry_window: u64,
}

impl View for PaymentPrefix {
    type V = Seq<u8>;

    open spec fn view(&self) -> Seq<u8> {
        self.bytes@
    }
}

impl View for PaymentLaneConfig {
    type V = PaymentLaneConfigView;

    open spec fn view(&self) -> PaymentLaneConfigView {
        PaymentLaneConfigView {
            general_gas_limit: self.general_gas_limit,
            payment_address_prefixes: self.payment_address_prefixes@.map_values(
                |prefix: PaymentPrefix| prefix@,
            ),
            payment_allowlist: self.payment_allowlist@,
            consensus_enforced: self.consensus_enforced,
            payment_priority_boost: self.payment_priority_boost,
            max_nonce_keys: self.max_nonce_keys,
            nonce_expiry_window: self.nonce_expiry_window,
        }
    }
}

/// Copies a vector of bytes.
pub(crate) fn copy_bytes(bytes: &Vec<u8>) -> (copy: Vec<u8>)
    ensures
        copy@ == bytes@,
{
    let mut copy: Vec<u8> = Vec::new();
    let mut i: usize = 0;
    while i < bytes.len()
        invariant
            i <= bytes@.len(),
            copy@ == bytes@.take(i as int),
        decreases bytes@.len() - i,
    {
        copy.push(bytes[i]);
        i = i + 1;
        assert(copy@ =~= bytes@.take(i as int));
    }
    assert(copy@ =~= bytes@);
    copy
}

impl Clone for PaymentPrefix {
    fn clone(&self) -> (copy: Self)
        ensures
            copy@ == self@,
    {
        PaymentPrefix { bytes: copy_bytes(&self.bytes) }
    }
}

impl Clone for PaymentLaneConfig {
    fn clone(&self) -> (copy: Self)
        ensures
            copy@ == self@,
    {
        let mut prefixes: Vec<PaymentPrefix> = Vec::new();
        let mut i: usize = 0;
        while i < self.payment_address_prefixes.len()
            invariant
                i <= self.payment_address_prefixes@.len(),
                prefixes@.len() == i,
                forall|j: int|
                    0 <= j < i ==> (#[trigger] prefixes@[j])@
                        == self.payment_address_prefixes@[j]@,
            decreases self.payment_address_prefixes@.len() - i,
        {
            prefixes.push(self.payment_address_prefixes[i].clone());
            i = i + 1;
        }
        let mut allowlist: Vec<Address> = Vec::new();
        let mut k: usize = 0;
        while k < self.payment_allowlist.len()
            invariant
                k <= self.payment_allowlist@.len(),
                allowlist@ == self.payment_allowlist@.take(k as int),
            decreases self.payment_allowlist@.len() - k,
        {
            allowlist.push(self.payment_allowlist[k]);
            k = k + 1;
            assert(allowlist@ =~= self.payment_allowlist@.take(k as int));
        }
        let copy = PaymentLaneConfig {
            general_gas_limit: self.general_gas_limit,
            payment_address_prefixes: prefixes,
            payment_allowlist: allowlist,
            consensus_enforced: self.consensus_enforced,
            payment_priority_boost: self.payment_priority_boost,
            max_nonce_keys: self.max_nonce_keys,
            nonce_expiry_window: self.nonce_expiry_window,
        };
        assert(copy@.payment_address_prefixes =~= self@.payment_address_prefixes);
        assert(copy@.payment_allowlist =~= self@.payment_allowlist);
        copy
    }
}

impl PaymentPrefix {
    /// Creates a new [`PaymentPrefix`] from raw bytes.
    pub fn new(bytes: Vec<u8>) -> (prefix: Self)
        ensures
            prefix.bytes == bytes,
    {
        PaymentPrefix { bytes }
    }

    /// Checks whether the given address matches this prefix: its bytes start with the
    /// bytes of the prefix. The empty prefix matches every address.
    pub fn matches(&self, address: &Address) -> (matched: bool)
        ensures
            matched == self@.is_prefix_of(address.bytes@),
    {
        if self.bytes.len() > 20 {
            return false;
        }
        let mut i: usize = 0;
        while i < self.bytes.len()
            invariant
                i <= self.bytes@.len() <= 20,
                forall|j: int| 0 <= j < i ==> self.bytes@[j] == address.bytes@[j],
            decreases self.bytes@.len() - i,
        {
            if self.bytes[i] != address.bytes[i] {
                assert(self@[i as int] != address.bytes@.subrange(
                    0,
                    self@.len() as int,
                )[i as int]);
                return false;
            }
            i = i + 1;
        }
        assert(self@ =~= address.bytes@.subrange(0, self@.len() as int));
        true
    }
}

/// The configuration of a lane that nothing else was said of.
pub open spec fn default_config() -> PaymentLaneConfigView {
    PaymentLaneConfigView {
        general_gas_limit: None,
        payment_address_prefixes: seq![seq![0x20u8, 0xc0u8]],
        payment_allowlist: Seq::empty(),
        consensus_enforced: false,
        payment_priority_boost: 10,
        max_nonce_keys: 256,
        nonce_expiry_window: 30,
    }
}

impl Default for PaymentLaneConfig {
    fn default() -> (config: Self)
        ensures
            config@ == default_config(),
    {
        // TIP-20 style prefix: 0x20c0000000000000000000000000
        let prefix = PaymentPrefix::new(vec![0x20u8, 0xc0u8]);
        assert(prefix@ =~= seq![0x20u8, 0xc0u8]);
        let config = PaymentLaneConfig {
            general_gas_limit: None,
            payment_address_prefixes: vec![prefix],
            payment_allowlist: Vec::new(),
            consensus_enforced: false,
            payment_priority_boost: 10,
            max_nonce_keys: 256,
            nonce_expiry_window: 30,
        };
        assert(config@.payment_address_prefixes =~= seq![seq![0x20u8, 0xc0u8]]);
        assert(config@.payment_allowlist =~= Seq::empty());
        config
    }
}

/// What is left of `total` when `part` is taken off, and nothing where `part` is more.
pub open spec fn left_of(total: u64, part: u64) -> u64 {
    if total >= part {
        (total - part) as u64
    } else {
        0
    }
}

impl PaymentLaneConfigView {
    /// The gas that general transactions may use in a block of the given gas limit,
    /// where the reserved fraction of that limit comes to `fraction_gas`.
    pub open spec fn general_gas(self, block_gas_limit: u64, fraction_gas: u64) -> u64 {
        match self.general_gas_limit {
            Some(limit) => limit,
            None => left_of(block_gas_limit, fraction_gas),
        }
    }

    /// The gas that only payments may use.
    pub open spec fn reserved_gas(self, block_gas_limit: u64, fraction_gas: u64) -> u64 {
        left_of(block_gas_limit, self.general_gas(block_gas_limit, fraction_gas))
    }
}

impl PaymentLaneConfig {
    /// Computes the general gas limit for a given block gas limit: the hard cap where
    /// there is one, else what is left of the block gas limit when `fraction_gas`, the
    /// gas that the reserved fraction of it comes to, is taken off.
    pub fn compute_general_gas_limit(&self, block_gas_limit: u64, fraction_gas: u64) -> (limit: u64)
        ensures
            limit == self@.general_gas(block_gas_limit, fraction_gas),
    {
        match self.general_gas_limit {
            Some(limit) => limit,
            None => block_gas_limit.saturating_sub(fraction_gas),
        }
    }

    /// Returns the payment-reserved gas for a given block gas limit.
    pub fn compute_payment_reserved_gas(&self, block_gas_limit: u64, fraction_gas: u64) -> (gas:
        u64)
        ensures
            gas == self@.reserved_gas(block_gas_limit, fraction_gas),
    {
        block_gas_limit.saturating_sub(
            self.compute_general_gas_limit(block_gas_limit, fraction_gas),
        )
    }
}

/// The two budgets make up the block: where the general limit is within the block gas
/// limit, general and reserved gas add up to it.
pub proof fn law_budgets_make_up_the_block(
    config: PaymentLaneConfigView,
    block_gas_limit: u64,
    fraction_gas: u64,
)
    requires
        config.general_gas(block_gas_limit, fraction_gas) <= block_gas_limit,
    ensures
        config.general_gas(block_gas_limit, fraction_gas) + config.reserved_gas(
            block_gas_limit,
            fraction_gas,
        ) == block_gas_limit,
{
}

/// Without a hard cap the general limit never exceeds the block gas limit, and a
/// fraction that fits in the block is reserved in full.
pub proof fn law_derived_limit_fits_the_block(
    config: PaymentLaneConfigView,
    block_gas_limit: u64,
    fraction_gas: u64,
)
    requires
        config.general_gas_limit is None,
    ensures
        config.general_gas(block_gas_limit, fraction_gas) <= block_gas_limit,
        fraction_gas <= block_gas_limit ==> config.reserved_gas(block_gas_limit, fraction_gas)
            == fraction_gas,
{
}

/// The empty prefix matches every address.
pub proof fn law_empty_prefix_matches_all(address: Address)
    ensures
        Seq::<u8>::empty().is_prefix_of(address.bytes@),
{
    assert(address.bytes@.subrange(0, 0) =~= Seq::<u8>::empty());
}

/// The general gas limit is the hard cap where there is one, whatever the block; else
/// it is what the reserved fraction leaves of the block, and nothing where the fraction
/// comes to more than the block. What the general limit leaves of the block is reserved.
pub proof fn law_gas_budgets(
    config: PaymentLaneConfigView,
    block_gas_limit: u64,
    fraction_gas: u64,
)
    ensures
        ({
            let general = config.general_gas(block_gas_limit, fraction_gas);
            let reserved = config.reserved_gas(block_gas_limit, fraction_gas);
            &&& config.general_gas_limit is Some ==> Some(general) == config.general_gas_limit
            &&& config.general_gas_limit is None && fraction_gas <= block_gas_limit ==> general
                + fraction_gas == block_gas_limit
            &&& config.general_gas_limit is None && fraction_gas > block_gas_limit ==> general == 0
            &&& general <= block_gas_limit ==> reserved + general == block_gas_limit
            &&& general > block_gas_limit ==> reserved == 0
        }),
{
}

/// A configuration holds what its fields hold.
pub proof fn law_config_holds_its_fields(config: PaymentLaneConfig)
    ensures
        config@.general_gas_limit == config.general_gas_limit,
        config@.payment_address_prefixes.len() == config.payment_address_prefixes@.len(),
        forall|k: int|
            0 <= k < config.payment_address_prefixes@.len()
                ==> #[trigger] config@.payment_address_prefixes[k]
                == config.payment_address_prefixes@[k].bytes@,
        config@.payment_allowlist == config.payment_allowlist@,
        config@.consensus_enforced == config.consensus_enforced,
        config@.payment_priority_boost == config.payment_priority_boost,
        config@.max_nonce_keys == config.max_nonce_keys,
        config@.nonce_expiry_window == config.nonce_expiry_window,
{
}

/// What a lane is like that nothing else was said of: payments go to addresses that
/// start with `20c0`, their tips are boosted tenfold, and nothing is enforced.
pub proof fn law_default_lane(address: Address)
    ensures
        ({
            let config = default_config();
            &&& config.general_gas_limit is None
            &&& !config.consensus_enforced
            &&& config.payment_priority_boost == 10
            &&& config.max_nonce_keys == 256
            &&& config.nonce_expiry_window == 30
            &&& config.payment_allowlist.len() == 0
            &&& config.payment_address_prefixes.len() == 1
            &&& config.payment_address_prefixes[0].is_prefix_of(address.bytes@)
                <==> address.bytes@[0] == 0x20 && address.bytes@[1] == 0xc0
        }),
{
    let prefix = default_config().payment_address_prefixes[0];
    assert(prefix == seq![0x20u8, 0xc0u8]);
    let head = address.bytes@.subrange(0, 2);
    assert(head[0] == address.bytes@[0] && head[1] == address.bytes@[1]);
    if address.bytes@[0] == 0x20 && address.bytes@[1] == 0xc0 {
        assert(prefix =~= head);
    }
}

} // verus!

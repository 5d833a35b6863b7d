//! Stateless classification of transactions into payment and general lanes.
//!
//! A transaction is a payment only when both hold:
//! 1. its `to` address is a known payment contract (by prefix or allowlist), and
//! 2. its calldata is a call of `transfer(address,uint256)` of the exact length.
//!
//! The classification depends on the transaction alone, never on chain state.

use crate::config::{default_config, PaymentLaneConfig, PaymentLaneConfigView};
use crate::primitives::Address;
use vstd::prelude::*;
use vstd::string::StringExecFns;

verus! {

/// Lane classification for a transaction.
#[derive(Debug, Clone, Copy, PartialEq, Eq, Hash, Structural)]
pub enum TxLane {
    /// Payment transaction: gets reserved blockspace and priority.
    Payment,
    /// General transaction: uses the general gas budget.
    General,
}

impl TxLane {
    /// The name of the lane.
    pub fn to_string(&self) -> (text: String)
        ensures
            text@ == match *self {
                TxLane::Payment => "payment"@,
                TxLane::General => "general"@,
            },
    {
        match self {
            TxLane::Payment => String::from_str("payment"),
            TxLane::General => String::from_str("general"),
        }
    }
}

/// The selector of `transfer(address,uint256)`.
pub open spec fn transfer_selector() -> Seq<u8> {
    seq![0xa9u8, 0x05u8, 0x9cu8, 0xbbu8]
}

/// Whether the calldata is a `transfer(address,uint256)` call: the selector and two
/// 32-byte words, nothing more.
pub open spec fn is_transfer_call(input: Seq<u8>) -> bool {
    input.len() == 4 + 64 && input.take(4) == transfer_selector()
}

/// Whether `to` is a payment contract: on the allowlist or behind a payment prefix.
pub open spec fn is_payment_contract(config: PaymentLaneConfigView, to: Address) -> bool {
    ||| config.payment_allowlist.contains(to)
    ||| exists|k: int|
        0 <= k < config.payment_address_prefixes.len()
            && #[trigger] config.payment_address_prefixes[k].is_prefix_of(to.bytes@)
}

/// The lane of a transaction with the given target and calldata.
pub open spec fn lane_of(
    config: PaymentLaneConfigView,
    to: Option<Address>,
    input: Seq<u8>,
) -> TxLane {
    match to {
        Some(address) => if is_payment_contract(config, address) && is_transfer_call(input) {
            TxLane::Payment
        } else {
            TxLane::General
        },
        None => TxLane::General,
    }
}

/// Stateless payment transaction classifier.
///
/// Determines whether a transaction belongs to the payment lane or general lane
/// based solely on the transaction's envelope data.
#[derive(Debug)]
pub struct PaymentClassifier {
    config: PaymentLaneConfig,
}

impl View for PaymentClassifier {
    type V = PaymentLaneConfigView;

    closed spec fn view(&self) -> PaymentLaneConfigView {
        self.config@
    }
}

impl PaymentClassifier {
    /// Creates a new [`PaymentClassifier`] with the given configuration.
    pub fn new(config: PaymentLaneConfig) -> (classifier: Self)
        ensures
            classifier@ == config@,
    {
        PaymentClassifier { config }
    }

    /// Classifies a transaction based on its `to` address and calldata.
    pub fn classify(&self, to: Option<&Address>, input: &[u8]) -> (lane: TxLane)
        ensures
            lane == lane_of(
                self@,
                match to {
                    Some(address) => Some(*address),
                    None => None,
                },
                input@,
            ),
    {
        match to {
            // Contract creation is never a payment.
            None => TxLane::General,
            Some(address) => {
                if self.is_payment_target(address) && self.is_supported_payment_call(input) {
                    TxLane::Payment
                } else {
                    TxLane::General
                }
            },
        }
    }

    /// Whether the address is a payment contract.
    fn is_payment_target(&self, to: &Address) -> (target: bool)
        ensures
            target == is_payment_contract(self@, *to),
    {
        let mut i: usize = 0;
        while i < self.config.payment_allowlist.len()
            invariant
                i <= self.config.payment_allowlist@.len(),
                forall|j: int| 0 <= j < i ==> self.config.payment_allowlist@[j] != *to,
            decreases self.config.payment_allowlist@.len() - i,
        {
            if self.config.payment_allowlist[i] == *to {
                assert(self@.payment_allowlist.contains(*to));
                return true;
            }
            i = i + 1;
        }
        let mut k: usize = 0;
        while k < self.config.payment_address_prefixes.len()
            invariant
                k <= self.config.payment_address_prefixes@.len(),
                forall|j: int|
                    0 <= j < k ==> !(
                    #[trigger] self@.payment_address_prefixes[j]).is_prefix_of(to.bytes@),
            decreases self.config.payment_address_prefixes@.len() - k,
        {
            if self.config.payment_address_prefixes[k].matches(to) {
                assert(self@.payment_address_prefixes[k as int].is_prefix_of(to.bytes@));
                return true;
            }
            k = k + 1;
        }
        false
    }

    /// Whether the calldata is a supported payment call.
    fn is_supported_payment_call(&self, input: &[u8]) -> (supported: bool)
        ensures
            supported == is_transfer_call(input@),
    {
        if input.len() < 4 {
            return false;
        }
        let supported = input.len() == 4 + 64 && input[0] == 0xa9 && input[1] == 0x05 && input[2]
            == 0x9c && input[3] == 0xbb;
        proof {
            let head = input@.take(4);
            if supported {
                assert(head =~= transfer_selector());
            } else if head == transfer_selector() {
                assert(head[0] == 0xa9 && head[1] == 0x05 && head[2] == 0x9c && head[3] == 0xbb);
            }
        }
        supported
    }

    /// Returns a reference to the underlying config.
    pub fn config(&self) -> (config: &PaymentLaneConfig)
        ensures
            config@ == self@,
    {
        &self.config
    }
}

impl Clone for PaymentClassifier {
    fn clone(&self) -> (copy: Self)
        ensures
            copy@ == self@,
    {
        PaymentClassifier { config: self.config.clone() }
    }
}

impl Default for PaymentClassifier {
    fn default() -> (classifier: Self)
        ensures
            classifier@ == default_config(),
    {
        PaymentClassifier::new(PaymentLaneConfig::default())
    }
}

/// A transaction is a payment exactly if it calls a payment contract and the call is a
/// `transfer`; every other transaction is general.
pub proof fn law_payment_needs_target_and_call(
    config: PaymentLaneConfigView,
    to: Option<Address>,
    input: Seq<u8>,
)
    ensures
        lane_of(config, to, input) == TxLane::Payment <==> {
            &&& to is Some
            &&& is_payment_contract(config, to->0)
            &&& is_transfer_call(input)
        },
        lane_of(config, to, input) == TxLane::Payment || lane_of(config, to, input)
            == TxLane::General,
{
}

/// Calldata of any length but that of a `transfer` call is general, whatever the target.
pub proof fn law_other_lengths_are_general(
    config: PaymentLaneConfigView,
    to: Option<Address>,
    input: Seq<u8>,
)
    requires
        input.len() != 68,
    ensures
        lane_of(config, to, input) == TxLane::General,
{
}

/// What a payment is: a transaction to an address that is on the allowlist or starts
/// with the bytes of a payment prefix, with calldata of 68 bytes of which the first four
/// are the selector `a9059cbb`. Whatever is not a payment is general.
pub proof fn law_payments_are_transfers_to_payment_contracts(
    config: PaymentLaneConfigView,
    to: Option<Address>,
    input: Seq<u8>,
)
    ensures
        lane_of(config, to, input) == TxLane::Payment <==> {
            &&& input.len() == 68
            &&& input[0] == 0xa9
            &&& input[1] == 0x05
            &&& input[2] == 0x9c
            &&& input[3] == 0xbb
            &&& to is Some
            &&& {
                ||| exists|i: int|
                    0 <= i < config.payment_allowlist.len() && #[trigger] config.payment_allowlist[i]
                        == to->0
                ||| exists|k: int|
                    0 <= k < config.payment_address_prefixes.len() && {
                        let prefix = #[trigger] config.payment_address_prefixes[k];
                        prefix.len() <= 20 && forall|j: int|
                            0 <= j < prefix.len() ==> prefix[j] == (to->0).bytes@[j]
                    }
            }
        },
        lane_of(config, to, input) != TxLane::Payment ==> lane_of(config, to, input)
            == TxLane::General,
{
    let head = input.take(4);
    if input.len() == 68 {
        if input[0] == 0xa9 && input[1] == 0x05 && input[2] == 0x9c && input[3] == 0xbb {
            assert(head =~= transfer_selector());
        }
        if head == transfer_selector() {
            assert(head[0] == 0xa9 && head[1] == 0x05 && head[2] == 0x9c && head[3] == 0xbb);
        }
    }
    if to is Some {
        let bytes = (to->0).bytes@;
        assert forall|k: int| 0 <= k < config.payment_address_prefixes.len() implies {
            let prefix = #[trigger] config.payment_address_prefixes[k];
            prefix.is_prefix_of(bytes) <==> prefix.len() <= 20 && forall|j: int|
                0 <= j < prefix.len() ==> prefix[j] == bytes[j]
        } by {
            let prefix = config.payment_address_prefixes[k];
            if prefix.len() <= 20 && forall|j: int|
                0 <= j < prefix.len() ==> prefix[j] == bytes[j] {
                assert(prefix =~= bytes.subrange(0, prefix.len() as int));
            }
            if prefix.is_prefix_of(bytes) {
                assert forall|j: int| 0 <= j < prefix.len() implies prefix[j] == bytes[j] by {
                    assert(bytes.subrange(0, prefix.len() as int)[j] == bytes[j]);
                }
            }
        }
    }
}

/// The lane goes by the target, the selector and the length alone: calldata that agrees
/// in its first four bytes and its length is classified alike, whatever its arguments.
pub proof fn law_arguments_do_not_matter(
    config: PaymentLaneConfigView,
    to: Option<Address>,
    a: Seq<u8>,
    b: Seq<u8>,
)
    requires
        a.len() == b.len(),
        a.len() >= 4,
        forall|i: int| 0 <= i < 4 ==> a[i] == b[i],
    ensures
        lane_of(config, to, a) == lane_of(config, to, b),
{
    law_payments_are_transfers_to_payment_contracts(config, to, a);
    law_payments_are_transfers_to_payment_contracts(config, to, b);
}

/// A longer list of payment contracts only adds payments: what is a payment under one
/// configuration is a payment under every configuration that lists at least its
/// contracts and prefixes.
pub proof fn law_more_contracts_keep_payments(
    small: PaymentLaneConfigView,
    large: PaymentLaneConfigView,
    to: Option<Address>,
    input: Seq<u8>,
)
    requires
        forall|address: Address| #[trigger]
            small.payment_allowlist.contains(address) ==> large.payment_allowlist.contains(address),
        forall|prefix: Seq<u8>| #[trigger]
            small.payment_address_prefixes.contains(prefix)
                ==> large.payment_address_prefixes.contains(prefix),
        lane_of(small, to, input) == TxLane::Payment,
    ensures
        lane_of(large, to, input) == TxLane::Payment,
{
    let bytes = (to->0).bytes@;
    if exists|k: int|
        0 <= k < small.payment_address_prefixes.len()
            && #[trigger] small.payment_address_prefixes[k].is_prefix_of(bytes) {
        let k = choose|k: int|
            0 <= k < small.payment_address_prefixes.len()
                && #[trigger] small.payment_address_prefixes[k].is_prefix_of(bytes);
        let prefix = small.payment_address_prefixes[k];
        assert(small.payment_address_prefixes.contains(prefix));
        let m = choose|m: int|
            0 <= m < large.payment_address_prefixes.len() && large.payment_address_prefixes[m]
                == prefix;
        assert(large.payment_address_prefixes[m].is_prefix_of(bytes));
    }
}

} // verus!

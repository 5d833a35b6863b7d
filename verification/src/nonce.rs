//! Two-dimensional nonces: parallel nonce sequences of one sender, and the windows of
//! time in which a payment is valid.
//!
//! - Key 0 is the protocol nonce, the ordinary sequential one.
//! - Keys from 1 on are independent sequences, so that one sender can submit payments
//!   concurrently.

use crate::primitives::{eip55_text, zero_address, Address, B256};
use crate::text::{append_decimal, decimal};
use std::collections::HashMap;
use vstd::prelude::*;
use vstd::string::StringExecFns;

verus! {

broadcast use vstd::std_specs::hash::group_hash_axioms;

/// A 2D nonce identifier: (`nonce_key`, `nonce_value`).
///
/// - `nonce_key = 0`: protocol nonce (sequential, standard Ethereum behavior)
/// - `nonce_key > 0`: user nonce key (independent parallel sequence)
#[derive(Debug, Clone, Copy, PartialEq, Eq, Hash, Structural)]
pub struct NonceKey {
    /// The nonce key (0 = protocol, 1+ = user-defined parallel lanes).
    pub key: u64,
    /// The nonce value within this key's sequence.
    pub value: u64,
}

impl NonceKey {
    /// Creates a protocol nonce (key 0).
    pub fn protocol(value: u64) -> (nonce: Self)
        ensures
            nonce == (NonceKey { key: 0, value }),
    {
        NonceKey { key: 0, value }
    }

    /// Creates a user nonce with the given key and value.
    pub fn user(key: u64, value: u64) -> (nonce: Self)
        ensures
            nonce == (NonceKey { key, value }),
    {
        NonceKey { key, value }
    }

    /// Returns true if this is the protocol nonce (key 0).
    pub fn is_protocol(&self) -> (protocol: bool)
        ensures
            protocol == (self.key == 0),
    {
        self.key == 0
    }

    /// Returns the next nonce in this key's sequence.
    pub fn next(&self) -> (nonce: Self)
        requires
            self.value < u64::MAX,
        ensures
            nonce.key == self.key,
            nonce.value == self.value + 1,
    {
        NonceKey { key: self.key, value: self.value + 1 }
    }
}

/// Validity window for a payment transaction.
#[derive(Debug, Clone, Copy, PartialEq, Eq, Structural)]
pub struct ValidityWindow {
    /// Earliest timestamp (inclusive) at which the tx is valid. 0 means no lower bound.
    pub valid_after: u64,
    /// Latest timestamp (exclusive) before which the tx is valid. 0 means no upper bound.
    pub valid_before: u64,
}

impl ValidityWindow {
    /// Whether the window has not opened yet at the given time.
    pub open spec fn opens_after(self, timestamp: u64) -> bool {
        self.valid_after > 0 && timestamp < self.valid_after
    }

    /// Whether the window has closed at the given time.
    pub open spec fn closed_by(self, timestamp: u64) -> bool {
        self.valid_before > 0 && timestamp >= self.valid_before
    }

    /// Whether the window is open at the given time.
    pub open spec fn open_at(self, timestamp: u64) -> bool {
        !self.opens_after(timestamp) && !self.closed_by(timestamp)
    }

    /// Creates an unbounded validity window (always valid).
    pub fn unbounded() -> (window: Self)
        ensures
            window == (ValidityWindow { valid_after: 0, valid_before: 0 }),
    {
        ValidityWindow { valid_after: 0, valid_before: 0 }
    }

    /// Creates a validity window with only an upper bound (expiring nonce).
    pub fn expiring(valid_before: u64) -> (window: Self)
        ensures
            window == (ValidityWindow { valid_after: 0, valid_before }),
    {
        ValidityWindow { valid_after: 0, valid_before }
    }

    /// Creates a validity window for scheduled transactions.
    pub fn scheduled(valid_after: u64, valid_before: u64) -> (window: Self)
        ensures
            window == (ValidityWindow { valid_after, valid_before }),
    {
        ValidityWindow { valid_after, valid_before }
    }

    /// Checks whether the transaction is valid at the given timestamp.
    pub fn is_valid_at(&self, timestamp: u64) -> (valid: bool)
        ensures
            valid == self.open_at(timestamp),
    {
        if self.valid_after > 0 && timestamp < self.valid_after {
            return false;
        }
        if self.valid_before > 0 && timestamp >= self.valid_before {
            return false;
        }
        true
    }
}

/// Payment transaction metadata that extends a standard transaction with
/// 2D nonce and validity window semantics.
#[derive(Debug, Clone, Copy, PartialEq, Eq)]
pub struct PaymentTxMeta {
    /// The 2D nonce key for this transaction.
    pub nonce_key: NonceKey,
    /// Validity window for the transaction.
    pub validity: ValidityWindow,
    /// Optional memo (32 bytes) for payment reference/invoice ID.
    pub memo: Option<B256>,
}

impl PaymentTxMeta {
    /// Creates metadata with a protocol nonce and no expiry.
    pub fn standard(nonce: u64) -> (meta: Self)
        ensures
            meta.nonce_key == (NonceKey { key: 0, value: nonce }),
            meta.validity == (ValidityWindow { valid_after: 0, valid_before: 0 }),
            meta.memo is None,
    {
        PaymentTxMeta {
            nonce_key: NonceKey::protocol(nonce),
            validity: ValidityWindow::unbounded(),
            memo: None,
        }
    }

    /// Creates metadata with a user nonce key (for parallel execution).
    pub fn parallel(key: u64, value: u64) -> (meta: Self)
        ensures
            meta.nonce_key == (NonceKey { key, value }),
            meta.validity == (ValidityWindow { valid_after: 0, valid_before: 0 }),
            meta.memo is None,
    {
        PaymentTxMeta {
            nonce_key: NonceKey::user(key, value),
            validity: ValidityWindow::unbounded(),
            memo: None,
        }
    }

    /// Creates metadata with an expiring nonce.
    pub fn expiring(key: u64, value: u64, valid_before: u64) -> (meta: Self)
        ensures
            meta.nonce_key == (NonceKey { key, value }),
            meta.validity == (ValidityWindow { valid_after: 0, valid_before }),
            meta.memo is None,
    {
        PaymentTxMeta {
            nonce_key: NonceKey::user(key, value),
            validity: ValidityWindow::expiring(valid_before),
            memo: None,
        }
    }

    /// Attaches a memo to this payment metadata.
    pub fn with_memo(self, memo: B256) -> (meta: Self)
        ensures
            meta == (PaymentTxMeta { memo: Some(memo), ..self }),
    {
        PaymentTxMeta { nonce_key: self.nonce_key, validity: self.validity, memo: Some(memo) }
    }
}

/// Errors in 2D nonce validation.
#[derive(Debug, Clone)]
pub enum NonceError {
    /// Nonce is lower than expected (already used).
    NonceTooLow {
        /// The nonce key.
        key: u64,
        /// Expected nonce value.
        expected: u64,
        /// Actual nonce value.
        got: u64,
    },
    /// Nonce is higher than expected (gap).
    NonceTooHigh {
        /// The nonce key.
        key: u64,
        /// Expected nonce value.
        expected: u64,
        /// Actual nonce value.
        got: u64,
    },
    /// Too many nonce keys for this sender.
    TooManyNonceKeys {
        /// Maximum allowed keys.
        max: u16,
        /// The sender address.
        sender: Address,
    },
    /// Transaction has expired.
    Expired {
        /// The `valid_before` value of the transaction.
        valid_before: u64,
        /// The current block timestamp.
        timestamp: u64,
    },
    /// Transaction is not yet valid.
    NotYetValid {
        /// The `valid_after` value of the transaction.
        valid_after: u64,
        /// The current block timestamp.
        timestamp: u64,
    },
}

/// The message of a nonce that is out of sequence.
pub open spec fn nonce_gap_text(
    start: Seq<char>,
    key: u64,
    expected: u64,
    got: u64,
) -> Seq<char> {
    start + decimal(key as nat) + ": expected "@ + decimal(expected as nat) + ", got "@ + decimal(
        got as nat,
    )
}

/// The message of a time outside a validity window.
pub open spec fn window_text(start: Seq<char>, bound: u64, timestamp: u64) -> Seq<char> {
    start + decimal(bound as nat) + ", current timestamp "@ + decimal(timestamp as nat)
}

/// The message of a sender, given by its text, with too many nonce keys.
pub open spec fn too_many_keys_text(sender: Seq<char>, max: u16) -> Seq<char> {
    "too many nonce keys for sender "@ + sender + ": max "@ + decimal(max as nat)
}

/// Writes the message of a nonce that is out of sequence.
fn nonce_gap_message(start: &str, key: u64, expected: u64, got: u64) -> (text: String)
    ensures
        text@ == nonce_gap_text(start@, key, expected, got),
{
    let mut text = String::from_str(start);
    append_decimal(&mut text, key);
    text.append(": expected ");
    append_decimal(&mut text, expected);
    text.append(", got ");
    append_decimal(&mut text, got);
    text
}

/// Writes the message of a time outside a validity window.
fn window_message(start: &str, bound: u64, timestamp: u64) -> (text: String)
    ensures
        text@ == window_text(start@, bound, timestamp),
{
    let mut text = String::from_str(start);
    append_decimal(&mut text, bound);
    text.append(", current timestamp ");
    append_decimal(&mut text, timestamp);
    text
}

/// Writes the message of a sender, given by its text, with too many nonce keys.
pub fn too_many_keys_message(sender: &str, max: u16) -> (text: String)
    ensures
        text@ == too_many_keys_text(sender@, max),
{
    let mut text = String::from_str("too many nonce keys for sender ");
    text.append(sender);
    text.append(": max ");
    append_decimal(&mut text, max as u64);
    text
}

impl NonceError {
    /// The message of the error.
    pub fn to_string(&self) -> (text: String)
        ensures
            text@ == match *self {
                NonceError::NonceTooLow { key, expected, got } => nonce_gap_text(
                    "nonce too low for key "@,
                    key,
                    expected,
                    got,
                ),
                NonceError::NonceTooHigh { key, expected, got } => nonce_gap_text(
                    "nonce too high for key "@,
                    key,
                    expected,
                    got,
                ),
                NonceError::TooManyNonceKeys { max, sender } => too_many_keys_text(
                    eip55_text(sender.bytes@),
                    max,
                ),
                NonceError::Expired { valid_before, timestamp } => window_text(
                    "transaction expired: valid_before "@,
                    valid_before,
                    timestamp,
                ),
                NonceError::NotYetValid { valid_after, timestamp } => window_text(
                    "transaction not yet valid: valid_after "@,
                    valid_after,
                    timestamp,
                ),
            },
    {
        match self {
            NonceError::NonceTooLow { key, expected, got } => nonce_gap_message(
                "nonce too low for key ",
                *key,
                *expected,
                *got,
            ),
            NonceError::NonceTooHigh { key, expected, got } => nonce_gap_message(
                "nonce too high for key ",
                *key,
                *expected,
                *got,
            ),
            NonceError::TooManyNonceKeys { max, sender } => {
                let address = sender.to_checksum();
                too_many_keys_message(address.as_str(), *max)
            },
            NonceError::Expired { valid_before, timestamp } => window_message(
                "transaction expired: valid_before ",
                *valid_before,
                *timestamp,
            ),
            NonceError::NotYetValid { valid_after, timestamp } => window_message(
                "transaction not yet valid: valid_after ",
                *valid_after,
                *timestamp,
            ),
        }
    }
}

/// Tracks nonce state for a single sender across all nonce keys.
///
/// This enables validation of parallel nonce transactions from the same account.
#[derive(Debug, Clone)]
pub struct SenderNonceState {
    /// Current nonce for each key. Key 0 is the protocol nonce.
    nonces: HashMap<u64, u64>,
    /// Maximum allowed nonce keys for this sender.
    max_keys: u16,
}

/// The contents of a [`SenderNonceState`].
#[verifier::ext_equal]
pub struct SenderNonces {
    /// The next nonce of each key in use.
    pub nonces: Map<u64, u64>,
    /// Maximum allowed nonce keys.
    pub max_keys: u16,
}

impl View for SenderNonceState {
    type V = SenderNonces;

    closed spec fn view(&self) -> SenderNonces {
        SenderNonces { nonces: self.nonces@, max_keys: self.max_keys }
    }
}

impl SenderNonces {
    /// The next nonce of a key: 0 for a key that has not been used.
    pub open spec fn next_nonce(self, key: u64) -> u64 {
        if self.nonces.contains_key(key) {
            self.nonces[key]
        } else {
            0
        }
    }

    /// Whether a payment with the given key finds the key in use or room for it.
    pub open spec fn has_room(self, key: u64) -> bool {
        self.nonces.contains_key(key) || self.nonces.len() < self.max_keys
    }

    /// The answer to a payment of `sender` with the given nonce.
    pub open spec fn verdict(self, sender: Address, nonce: NonceKey) -> Result<(), NonceError> {
        let expected = self.next_nonce(nonce.key);
        if nonce.value < expected {
            Err(NonceError::NonceTooLow { key: nonce.key, expected, got: nonce.value })
        } else if nonce.value > expected {
            Err(NonceError::NonceTooHigh { key: nonce.key, expected, got: nonce.value })
        } else if !self.has_room(nonce.key) {
            Err(NonceError::TooManyNonceKeys { max: self.max_keys, sender })
        } else {
            Ok(())
        }
    }

    /// The state once a payment with the given nonce was accepted.
    pub open spec fn advanced(self, nonce: NonceKey) -> SenderNonces {
        SenderNonces {
            nonces: self.nonces.insert(nonce.key, (nonce.value + 1) as u64),
            max_keys: self.max_keys,
        }
    }
}

impl SenderNonceState {
    /// Creates a new sender nonce state with the given protocol nonce and max keys.
    pub fn new(protocol_nonce: u64, max_keys: u16) -> (state: Self)
        ensures
            state@ == first_state(protocol_nonce, max_keys),
            state@.nonces.dom().finite(),
    {
        let mut nonces: HashMap<u64, u64> = HashMap::new();
        nonces.insert(0, protocol_nonce);
        assert(nonces@ =~= map![0u64 => protocol_nonce]);
        SenderNonceState { nonces, max_keys }
    }

    /// Returns the current nonce for the given key, or 0 if the key hasn't been used.
    pub fn get_nonce(&self, key: u64) -> (nonce: u64)
        ensures
            nonce == self@.next_nonce(key),
    {
        match self.nonces.get(&key) {
            Some(nonce) => *nonce,
            None => 0,
        }
    }

    /// Validates and applies a nonce for the given key.
    ///
    /// Returns `Ok(())` if the nonce is valid and was applied, or an error describing
    /// why it's invalid.
    pub fn validate_and_advance(&mut self, sender: Address, nonce_key: &NonceKey) -> (result:
        Result<(), NonceError>)
        requires
            old(self)@.verdict(sender, *nonce_key) is Ok ==> nonce_key.value < u64::MAX,
        ensures
            result == old(self)@.verdict(sender, *nonce_key),
            final(self)@ == (if result is Ok {
                old(self)@.advanced(*nonce_key)
            } else {
                old(self)@
            }),
    {
        let current: u64 = self.get_nonce(nonce_key.key);
        if nonce_key.value < current {
            return Err(
                NonceError::NonceTooLow {
                    key: nonce_key.key,
                    expected: current,
                    got: nonce_key.value,
                },
            );
        }
        if nonce_key.value > current {
            return Err(
                NonceError::NonceTooHigh {
                    key: nonce_key.key,
                    expected: current,
                    got: nonce_key.value,
                },
            );
        }
        // Check if adding a new key would exceed the limit
        if !self.nonces.contains_key(&nonce_key.key) && self.nonces.len() >= self.max_keys as usize {
            return Err(NonceError::TooManyNonceKeys { max: self.max_keys, sender });
        }
        self.nonces.insert(nonce_key.key, nonce_key.value + 1);
        Ok(())
    }

    /// Returns the number of active nonce keys.
    pub fn active_keys(&self) -> (count: usize)
        ensures
            count == self@.nonces.len(),
    {
        self.nonces.len()
    }
}

impl Default for SenderNonceState {
    fn default() -> (state: Self)
        ensures
            state@ == (SenderNonces { nonces: Map::empty(), max_keys: 0 }),
    {
        let nonces: HashMap<u64, u64> = HashMap::new();
        assert(nonces@ =~= Map::empty());
        SenderNonceState { nonces, max_keys: 0 }
    }
}

/// The answer to payment metadata: the validity window is checked first, then the
/// nonce. A window that is both closed and not yet open counts as expired.
pub open spec fn meta_verdict(
    sender: Address,
    meta: PaymentTxMeta,
    state: SenderNonces,
    block_timestamp: u64,
) -> Result<(), NonceError> {
    if meta.validity.closed_by(block_timestamp) {
        Err(
            NonceError::Expired {
                valid_before: meta.validity.valid_before,
                timestamp: block_timestamp,
            },
        )
    } else if meta.validity.opens_after(block_timestamp) {
        Err(
            NonceError::NotYetValid {
                valid_after: meta.validity.valid_after,
                timestamp: block_timestamp,
            },
        )
    } else {
        state.verdict(sender, meta.nonce_key)
    }
}

/// Validates payment transaction metadata (nonce + validity window) of `sender`, and
/// advances the nonce where it is valid.
pub fn validate_payment_meta_of(
    sender: Address,
    meta: &PaymentTxMeta,
    sender_state: &mut SenderNonceState,
    block_timestamp: u64,
) -> (result: Result<(), NonceError>)
    requires
        meta_verdict(sender, *meta, old(sender_state)@, block_timestamp) is Ok
            ==> meta.nonce_key.value < u64::MAX,
    ensures
        result == meta_verdict(sender, *meta, old(sender_state)@, block_timestamp),
        final(sender_state)@ == (if result is Ok {
            old(sender_state)@.advanced(meta.nonce_key)
        } else {
            old(sender_state)@
        }),
{
    // Check validity window
    if !meta.validity.is_valid_at(block_timestamp) {
        if meta.validity.valid_before > 0 && block_timestamp >= meta.validity.valid_before {
            return Err(
                NonceError::Expired {
                    valid_before: meta.validity.valid_before,
                    timestamp: block_timestamp,
                },
            );
        }
        return Err(
            NonceError::NotYetValid {
                valid_after: meta.validity.valid_after,
                timestamp: block_timestamp,
            },
        );
    }
    // Validate and advance nonce
    sender_state.validate_and_advance(sender, &meta.nonce_key)
}

/// Validates payment transaction metadata (nonce + validity window) of a sender that is
/// not known by address; an error that names the sender names the zero address.
pub fn validate_payment_meta(
    meta: &PaymentTxMeta,
    sender_state: &mut SenderNonceState,
    block_timestamp: u64,
) -> (result: Result<(), NonceError>)
    requires
        meta_verdict(zero_address(), *meta, old(sender_state)@, block_timestamp) is Ok
            ==> meta.nonce_key.value < u64::MAX,
    ensures
        result == meta_verdict(zero_address(), *meta, old(sender_state)@, block_timestamp),
        final(sender_state)@ == (if result is Ok {
            old(sender_state)@.advanced(meta.nonce_key)
        } else {
            old(sender_state)@
        }),
{
    validate_payment_meta_of(Address::zero(), meta, sender_state, block_timestamp)
}

/// No gaps, no replays: a payment is accepted only at the next nonce of its key.
pub proof fn law_accepted_nonce_is_next(state: SenderNonces, sender: Address, nonce: NonceKey)
    requires
        state.verdict(sender, nonce) is Ok,
    ensures
        nonce.value == state.next_nonce(nonce.key),
{
}

/// An accepted payment cannot be replayed, and its successor is accepted next.
pub proof fn law_accepted_nonce_is_spent(state: SenderNonces, sender: Address, nonce: NonceKey)
    requires
        state.verdict(sender, nonce) is Ok,
        nonce.value < u64::MAX,
    ensures
        state.advanced(nonce).verdict(sender, nonce) == Err::<(), NonceError>(
            NonceError::NonceTooLow {
                key: nonce.key,
                expected: (nonce.value + 1) as u64,
                got: nonce.value,
            },
        ),
        state.advanced(nonce).verdict(
            sender,
            NonceKey { key: nonce.key, value: (nonce.value + 1) as u64 },
        ) is Ok,
{
}

/// Keys are independent: accepting a payment of one key leaves the next nonce of every
/// other key, and the answer to payments of every other key in use.
pub proof fn law_keys_are_independent(
    state: SenderNonces,
    nonce: NonceKey,
    sender: Address,
    other: NonceKey,
)
    requires
        other.key != nonce.key,
    ensures
        state.advanced(nonce).next_nonce(other.key) == state.next_nonce(other.key),
        state.nonces.contains_key(other.key) ==> state.advanced(nonce).verdict(sender, other)
            == state.verdict(sender, other),
{
}

/// The state after a sender's payments were offered one after the other.
pub open spec fn after_payments(
    state: SenderNonces,
    sender: Address,
    nonces: Seq<NonceKey>,
) -> SenderNonces
    decreases nonces.len(),
{
    if nonces.len() == 0 {
        state
    } else {
        let before = after_payments(state, sender, nonces.drop_last());
        if before.verdict(sender, nonces.last()) is Ok {
            before.advanced(nonces.last())
        } else {
            before
        }
    }
}

/// The state of a sender before any payment: the protocol nonce alone.
pub open spec fn first_state(protocol_nonce: u64, max_keys: u16) -> SenderNonces {
    SenderNonces { nonces: map![0u64 => protocol_nonce], max_keys }
}

/// The number of keys stays within the limit of the sender, but for the protocol key,
/// which is in use from the start: whatever payments are offered, a sender never has
/// more keys than the limit, or than one where the limit is zero.
pub proof fn law_key_count_is_bounded(
    protocol_nonce: u64,
    max_keys: u16,
    sender: Address,
    nonces: Seq<NonceKey>,
)
    ensures
        ({
            let state = after_payments(first_state(protocol_nonce, max_keys), sender, nonces);
            &&& state.max_keys == max_keys
            &&& state.nonces.dom().finite()
            &&& state.nonces.contains_key(0)
            &&& state.nonces.len() <= if max_keys >= 1 {
                max_keys as nat
            } else {
                1
            }
        }),
    decreases nonces.len(),
{
    if nonces.len() == 0 {
        let state = first_state(protocol_nonce, max_keys);
        assert(state.nonces.dom() =~= Set::<u64>::empty().insert(0));
    } else {
        law_key_count_is_bounded(protocol_nonce, max_keys, sender, nonces.drop_last());
    }
}

/// Whether payment `i` of those offered is accepted.
pub open spec fn is_accepted(
    state: SenderNonces,
    sender: Address,
    nonces: Seq<NonceKey>,
    i: int,
) -> bool {
    after_payments(state, sender, nonces.take(i)).verdict(sender, nonces[i]) is Ok
}

/// Of all payments that a sender ever offers, no two with the same nonce are accepted.
pub proof fn law_nonce_is_used_once(
    state: SenderNonces,
    sender: Address,
    nonces: Seq<NonceKey>,
    i: int,
    j: int,
)
    requires
        0 <= i < j < nonces.len(),
        forall|k: int| 0 <= k < nonces.len() ==> (#[trigger] nonces[k]).value < u64::MAX,
        is_accepted(state, sender, nonces, i),
        is_accepted(state, sender, nonces, j),
    ensures
        nonces[i] != nonces[j],
{
    let before = after_payments(state, sender, nonces.take(i));
    assert(nonces.take(i + 1).drop_last() =~= nonces.take(i));
    assert(nonces.take(i + 1).last() == nonces[i]);
    assert(after_payments(state, sender, nonces.take(i + 1)) == before.advanced(nonces[i]));
    lemma_next_nonce_grows(state, sender, nonces, i + 1, j, nonces[i].key);
}

/// The next nonce of a key never goes down.
proof fn lemma_next_nonce_grows(
    state: SenderNonces,
    sender: Address,
    nonces: Seq<NonceKey>,
    i: int,
    j: int,
    key: u64,
)
    requires
        0 <= i <= j <= nonces.len(),
        forall|k: int| 0 <= k < nonces.len() ==> (#[trigger] nonces[k]).value < u64::MAX,
    ensures
        after_payments(state, sender, nonces.take(i)).next_nonce(key) <= after_payments(
            state,
            sender,
            nonces.take(j),
        ).next_nonce(key),
    decreases j - i,
{
    if i < j {
        lemma_next_nonce_grows(state, sender, nonces, i, j - 1, key);
        assert(nonces.take(j).drop_last() =~= nonces.take(j - 1));
        assert(nonces.take(j).last() == nonces[j - 1]);
    }
}

/// An unbounded window is open at all times.
pub proof fn law_unbounded_window_is_always_open(timestamp: u64)
    ensures
        (ValidityWindow { valid_after: 0, valid_before: 0 }).open_at(timestamp),
{
}

/// The lower bound of a window is inclusive and the upper one exclusive.
pub proof fn law_window_bounds(window: ValidityWindow, timestamp: u64)
    requires
        window.valid_before > 0,
    ensures
        window.open_at(timestamp) <==> window.valid_after <= timestamp < window.valid_before,
{
}

/// What has expired stays expired, so an expired payment can never be replayed.
pub proof fn law_expiry_is_permanent(window: ValidityWindow, timestamp: u64, later: u64)
    requires
        window.closed_by(timestamp),
        timestamp <= later,
    ensures
        window.closed_by(later),
{
}

/// A window is open from its lower bound on and, where it has an upper bound, until just
/// before it; before that it has not opened, after that it has closed.
pub proof fn law_window_is_open_between_its_bounds(window: ValidityWindow, timestamp: u64)
    ensures
        window.open_at(timestamp) <==> timestamp >= window.valid_after && (window.valid_before == 0
            || timestamp < window.valid_before),
        window.opens_after(timestamp) <==> timestamp < window.valid_after,
        window.closed_by(timestamp) <==> window.valid_before != 0 && timestamp
            >= window.valid_before,
{
}

/// The answer to every nonce: below the next nonce of its key it is too low, above it too
/// high, each with the numbers; at the next nonce it is accepted, unless it would open a
/// key beyond the limit. A key that is not in use has 0 as its next nonce.
pub proof fn law_verdict_on_every_nonce(state: SenderNonces, sender: Address, nonce: NonceKey)
    ensures
        ({
            let verdict = state.verdict(sender, nonce);
            let known = state.nonces.contains_key(nonce.key);
            let expected = if known {
                state.nonces[nonce.key]
            } else {
                0
            };
            &&& state.next_nonce(nonce.key) == expected
            &&& if nonce.value < expected {
                verdict == Err::<(), NonceError>(
                    NonceError::NonceTooLow { key: nonce.key, expected, got: nonce.value },
                )
            } else if nonce.value > expected {
                verdict == Err::<(), NonceError>(
                    NonceError::NonceTooHigh { key: nonce.key, expected, got: nonce.value },
                )
            } else if known || state.nonces.len() < state.max_keys {
                verdict is Ok
            } else {
                verdict == Err::<(), NonceError>(
                    NonceError::TooManyNonceKeys { max: state.max_keys, sender },
                )
            }
        }),
{
}

/// The answer to payment metadata: it is accepted exactly if its window is open and its
/// nonce is the next of a key that is in use or has room. A closed window counts before
/// one that has not opened, and the window before the nonce.
pub proof fn law_verdict_on_every_payment(
    sender: Address,
    meta: PaymentTxMeta,
    state: SenderNonces,
    timestamp: u64,
)
    ensures
        ({
            let verdict = meta_verdict(sender, meta, state, timestamp);
            let after = meta.validity.valid_after;
            let before = meta.validity.valid_before;
            let key = meta.nonce_key.key;
            let known = state.nonces.contains_key(key);
            &&& verdict is Ok <==> {
                &&& after <= timestamp
                &&& before == 0 || timestamp < before
                &&& known ==> meta.nonce_key.value == state.nonces[key]
                &&& !known ==> meta.nonce_key.value == 0 && state.nonces.len() < state.max_keys
            }
            &&& if before != 0 && before <= timestamp {
                verdict == Err::<(), NonceError>(
                    NonceError::Expired { valid_before: before, timestamp },
                )
            } else if timestamp < after {
                verdict == Err::<(), NonceError>(
                    NonceError::NotYetValid { valid_after: after, timestamp },
                )
            } else {
                verdict == state.verdict(sender, meta.nonce_key)
            }
        }),
{
}

/// Accepting a nonce moves its key, and no other, to the nonce after it.
pub proof fn law_accepting_moves_one_key(state: SenderNonces, nonce: NonceKey)
    requires
        nonce.value < u64::MAX,
    ensures
        ({
            let after = state.advanced(nonce);
            &&& after.max_keys == state.max_keys
            &&& after.nonces.contains_key(nonce.key)
            &&& after.nonces[nonce.key] == nonce.value + 1
            &&& forall|key: u64|
                key != nonce.key ==> (#[trigger] after.nonces.contains_key(key)
                    <==> state.nonces.contains_key(key))
            &&& forall|key: u64|
                key != nonce.key && state.nonces.contains_key(key)
                    ==> #[trigger] after.nonces[key] == state.nonces[key]
        }),
{
}

/// A sender starts with the protocol key alone, at the given nonce.
pub proof fn law_senders_start_with_the_protocol_key(protocol_nonce: u64, max_keys: u16)
    ensures
        ({
            let state = first_state(protocol_nonce, max_keys);
            &&& state.max_keys == max_keys
            &&& state.nonces[0] == protocol_nonce
            &&& forall|key: u64| #[trigger] state.nonces.contains_key(key) <==> key == 0
        }),
{
}

/// A sender's payments are answered one after the other: what is accepted moves the
/// state on, what is refused leaves it.
pub proof fn law_payments_are_answered_in_turn(
    state: SenderNonces,
    sender: Address,
    nonces: Seq<NonceKey>,
    next: NonceKey,
)
    ensures
        after_payments(state, sender, Seq::empty()) == state,
        ({
            let before = after_payments(state, sender, nonces);
            let after = after_payments(state, sender, nonces.push(next));
            &&& before.verdict(sender, next) is Ok ==> after == before.advanced(next)
            &&& before.verdict(sender, next) is Err ==> after == before
        }),
{
    assert(nonces.push(next).drop_last() =~= nonces);
}

/// The messages of the errors, put together from their parts.
pub proof fn law_messages(
    start: Seq<char>,
    sender: Seq<char>,
    key: u64,
    expected: u64,
    got: u64,
    max: u16,
)
    ensures
        nonce_gap_text(start, key, expected, got) == start + decimal(key as nat) + ": expected "@
            + decimal(expected as nat) + ", got "@ + decimal(got as nat),
        window_text(start, expected, got) == start + decimal(expected as nat)
            + ", current timestamp "@ + decimal(got as nat),
        too_many_keys_text(sender, max) == "too many nonce keys for sender "@ + sender + ": max "@
            + decimal(max as nat),
{
}

} // verus!

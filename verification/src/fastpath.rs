//! Constrained fast path: payments whose read/write set follows from their fields
//! alone, and the partition of such payments into batches that may run in parallel.
//!
//! A payment touches the slots `(asset, sender)` and `(asset, receiver)`. Two payments
//! conflict if they share a slot; conflicting payments never stand in one batch.

use crate::primitives::{Address, U256};
use vstd::prelude::*;
use vstd::std_specs::cmp::PartialEqSpec;

verus! {

/// A payment that can be analysed without running it.
#[derive(Debug, Clone, PartialEq, Eq, Hash)]
pub struct PaymentIntent {
    /// Sender of the payment.
    pub from: Address,
    /// Receiver of the payment.
    pub to: Address,
    /// Asset contract address (the zero address for the native asset).
    pub asset: Address,
    /// Amount to transfer.
    pub amount: U256,
    /// Nonce key for parallel execution.
    pub nonce_key: u64,
    /// Nonce value.
    pub nonce_value: u64,
}

/// A state slot that a payment touches.
#[derive(Debug, Clone, Copy, Eq, Hash)]
pub struct ConflictKey {
    /// The asset contract address.
    pub asset: Address,
    /// The account whose balance is affected.
    pub account: Address,
}

impl PartialEq for ConflictKey {
    fn eq(&self, other: &Self) -> (equal: bool) {
        self.asset == other.asset && self.account == other.account
    }
}

impl vstd::std_specs::cmp::PartialEqSpecImpl for ConflictKey {
    open spec fn obeys_eq_spec() -> bool {
        true
    }

    open spec fn eq_spec(&self, other: &Self) -> bool {
        *self == *other
    }
}

impl PaymentIntent {
    /// Whether running this payment reads or writes the slot `key`.
    pub open spec fn touches(self, key: ConflictKey) -> bool {
        key.asset == self.asset && (key.account == self.from || key.account == self.to)
    }

    /// Whether the two payments share a slot.
    pub open spec fn conflicts_with(self, other: PaymentIntent) -> bool {
        exists|key: ConflictKey| #[trigger] self.touches(key) && other.touches(key)
    }

    /// Returns the read/write set for this payment intent: the slot whose balance
    /// decreases, then the one whose balance increases.
    pub fn conflict_keys(&self) -> (keys: [ConflictKey; 2])
        ensures
            keys@ == seq![
                ConflictKey { asset: self.asset, account: self.from },
                ConflictKey { asset: self.asset, account: self.to },
            ],
            forall|key: ConflictKey| keys@.contains(key) <==> self.touches(key),
    {
        let keys = [
            ConflictKey { asset: self.asset, account: self.from },
            ConflictKey { asset: self.asset, account: self.to },
        ];
        assert(keys@ =~= seq![
            ConflictKey { asset: self.asset, account: self.from },
            ConflictKey { asset: self.asset, account: self.to },
        ]);
        assert forall|key: ConflictKey| keys@.contains(key) <==> self.touches(key) by {
            assert(keys@[0] == ConflictKey { asset: self.asset, account: self.from });
            assert(keys@[1] == ConflictKey { asset: self.asset, account: self.to });
        }
        keys
    }

    /// Returns whether this payment intent is valid on the surface: it moves a
    /// non-zero amount between two different accounts.
    pub fn is_valid(&self) -> (valid: bool)
        ensures
            valid == (self.from != self.to && self.amount@ > 0),
    {
        self.from != self.to && self.amount.exceeds(&U256::zero())
    }
}

/// Batch payment intent for atomic multi-transfer operations.
#[derive(Debug, Clone)]
pub struct BatchPaymentIntent {
    /// The sender (payer) for all transfers in this batch.
    pub from: Address,
    /// Individual transfer targets and amounts.
    pub transfers: Vec<TransferTarget>,
    /// Asset contract address (single asset per batch).
    pub asset: Address,
    /// Nonce key for parallel execution.
    pub nonce_key: u64,
    /// Nonce value.
    pub nonce_value: u64,
}

/// A single transfer target in a batch payment.
#[derive(Debug, Clone, PartialEq, Eq, Hash)]
pub struct TransferTarget {
    /// Recipient address.
    pub to: Address,
    /// Amount to transfer.
    pub amount: U256,
}

impl BatchPaymentIntent {
    /// Whether running this batch reads or writes the slot `key`.
    pub open spec fn touches(self, key: ConflictKey) -> bool {
        key.asset == self.asset && (key.account == self.from || exists|i: int|
            0 <= i < self.transfers@.len() && (#[trigger] self.transfers@[i]).to == key.account)
    }

    /// Returns all conflict keys for this batch payment: the sender's slot, then the
    /// slot of each receiver, in order.
    pub fn conflict_keys(&self) -> (keys: Vec<ConflictKey>)
        ensures
            keys@.len() == 1 + self.transfers@.len(),
            keys@[0] == (ConflictKey { asset: self.asset, account: self.from }),
            forall|i: int|
                0 <= i < self.transfers@.len() ==> #[trigger] keys@[i + 1] == (ConflictKey {
                    asset: self.asset,
                    account: self.transfers@[i].to,
                }),
            forall|key: ConflictKey| keys@.contains(key) <==> self.touches(key),
    {
        let mut keys: Vec<ConflictKey> = Vec::new();
        keys.push(ConflictKey { asset: self.asset, account: self.from });
        let mut i: usize = 0;
        while i < self.transfers.len()
            invariant
                i <= self.transfers@.len(),
                keys@.len() == 1 + i,
                keys@[0] == (ConflictKey { asset: self.asset, account: self.from }),
                forall|j: int|
                    0 <= j < i ==> #[trigger] keys@[j + 1] == (ConflictKey {
                        asset: self.asset,
                        account: self.transfers@[j].to,
                    }),
            decreases self.transfers@.len() - i,
        {
            keys.push(ConflictKey { asset: self.asset, account: self.transfers[i].to });
            i = i + 1;
        }
        assert forall|key: ConflictKey| keys@.contains(key) <==> self.touches(key) by {
            if keys@.contains(key) {
                let k = choose|k: int| 0 <= k < keys@.len() && keys@[k] == key;
                if k > 0 {
                    assert(keys@[(k - 1) + 1] == key);
                    assert(self.transfers@[k - 1].to == key.account);
                }
            }
            if self.touches(key) && key.account != self.from {
                let j = choose|j: int|
                    0 <= j < self.transfers@.len() && (#[trigger] self.transfers@[j]).to
                        == key.account;
                assert(keys@[j + 1] == key);
            }
        }
        keys
    }

    /// Returns true if the batch is valid: non-empty, non-self-transfers, non-zero
    /// amounts.
    pub fn is_valid(&self) -> (valid: bool)
        ensures
            valid == (self.transfers@.len() > 0 && forall|i: int|
                0 <= i < self.transfers@.len() ==> {
                    let transfer = #[trigger] self.transfers@[i];
                    transfer.to != self.from && transfer.amount@ > 0
                }),
    {
        let mut i: usize = 0;
        while i < self.transfers.len()
            invariant
                i <= self.transfers@.len(),
                forall|j: int|
                    0 <= j < i ==> {
                        let transfer = #[trigger] self.transfers@[j];
                        transfer.to != self.from && transfer.amount@ > 0
                    },
            decreases self.transfers@.len() - i,
        {
            if self.transfers[i].to == self.from || !self.transfers[i].amount.exceeds(
                &U256::zero(),
            ) {
                return false;
            }
            i = i + 1;
        }
        self.transfers.len() > 0
    }
}

/// The payments that touch one slot.
#[derive(Debug)]
struct SlotEntry {
    /// The slot.
    key: ConflictKey,
    /// Indices of the payments that touch it, in ascending order.
    payments: Vec<usize>,
}

/// Whether the numbers of `indices` stand in strictly ascending order.
pub open spec fn ascending(indices: Seq<usize>) -> bool {
    forall|j: int, k: int| 0 <= j < k < indices.len() ==> indices[j] < indices[k]
}

/// Whether `slots` lists each slot that one of `payments` touches, once, with the
/// indices of all payments that touch it.
pub open spec fn is_conflict_index(
    slots: Seq<(ConflictKey, Seq<usize>)>,
    payments: Seq<PaymentIntent>,
) -> bool {
    &&& forall|s: int, t: int|
        0 <= s < t < slots.len() ==> (#[trigger] slots[s]).0 != (#[trigger] slots[t]).0
    &&& forall|s: int|
        0 <= s < slots.len() ==> ascending((#[trigger] slots[s]).1) && slots[s].1.len() > 0
    &&& forall|s: int, i: usize|
        0 <= s < slots.len() ==> (#[trigger] slots[s].1.contains(i) <==> i < payments.len()
            && payments[i as int].touches(slots[s].0))
    &&& forall|i: int, key: ConflictKey|
        0 <= i < payments.len() && #[trigger] payments[i].touches(key) ==> exists|s: int|
            0 <= s < slots.len() && (#[trigger] slots[s]).0 == key
}

/// Detects conflicts between payment intents and groups them into
/// non-conflicting parallel batches.
#[derive(Debug)]
pub struct ConflictDetector {
    /// For each slot touched, the payments that touch it. No slot occurs twice.
    slots: Vec<SlotEntry>,
}

/// The batches as sequences of payment indices.
pub open spec fn batch_rows(batches: Seq<Vec<usize>>) -> Seq<Seq<usize>> {
    batches.map_values(|batch: Vec<usize>| batch@)
}

/// Whether `batches` is the first-fit partition of `payments`: every payment stands in
/// exactly one batch, batches are free of conflicts and list their payments in
/// order, and a payment is put past a batch only for a conflict with an earlier
/// payment in that batch.
pub open spec fn is_first_fit(payments: Seq<PaymentIntent>, batches: Seq<Seq<usize>>) -> bool {
    &&& forall|i: usize| i < payments.len() ==> #[trigger] is_placed(batches, i)
    &&& forall|c: int, d: int, i: usize|
        0 <= c < batches.len() && 0 <= d < batches.len() && #[trigger] batches[c].contains(i)
            && #[trigger] batches[d].contains(i) ==> c == d
    &&& forall|c: int|
        0 <= c < batches.len() ==> ascending(#[trigger] batches[c]) && batches[c].len() > 0
    &&& forall|c: int, i: usize|
        0 <= c < batches.len() && #[trigger] batches[c].contains(i) ==> i < payments.len()
    &&& forall|c: int, i: usize, j: usize|
        0 <= c < batches.len() && #[trigger] batches[c].contains(i)
            && #[trigger] batches[c].contains(j) && i != j
            ==> !payments[i as int].conflicts_with(payments[j as int])
    &&& forall|c: int, d: int, i: usize|
        0 <= d < c < batches.len() && #[trigger] batches[c].contains(i)
            ==> #[trigger] blocked_by(payments, batches[d], i)
}

/// Whether payment `i` stands in a batch.
pub open spec fn is_placed(batches: Seq<Seq<usize>>, i: usize) -> bool {
    exists|c: int| 0 <= c < batches.len() && #[trigger] batches[c].contains(i)
}

/// Whether `batch` holds a payment before `i` that conflicts with payment `i`.
pub open spec fn blocked_by(payments: Seq<PaymentIntent>, batch: Seq<usize>, i: usize) -> bool {
    exists|j: usize|
        #[trigger] batch.contains(j) && j < i && payments[i as int].conflicts_with(
            payments[j as int],
        )
}

impl ConflictDetector {
    /// The slots touched by the payments of the latest partition.
    pub closed spec fn slots(self) -> Seq<(ConflictKey, Seq<usize>)> {
        self.slots@.map_values(|entry: SlotEntry| (entry.key, entry.payments@))
    }

    /// Creates a new empty [`ConflictDetector`].
    pub fn new() -> (detector: Self)
        ensures
            detector.slots().len() == 0,
    {
        ConflictDetector { slots: Vec::new() }
    }

    /// Partitions a set of payment intents into non-conflicting parallel batches.
    ///
    /// Returns a vector of batches, where each batch contains indices of payments
    /// that can execute in parallel without conflicts. Each payment goes, in order, to
    /// the first batch that holds no payment it conflicts with.
    pub fn partition(&mut self, payments: &[PaymentIntent]) -> (batches: Vec<Vec<usize>>)
        ensures
            is_first_fit(payments@, batch_rows(batches@)),
            is_conflict_index(final(self).slots(), payments@),
    {
        let mut slots: Vec<SlotEntry> = Vec::new();
        index_payments(&mut slots, payments);
        let graph = conflict_graph(&slots, payments.len());
        proof {
            assert forall|i: usize, j: usize| i < payments@.len() implies (#[trigger] linked(
                graph@,
                i as int,
                j,
            ) <==> i != j && j < payments@.len() && payments@[i as int].conflicts_with(
                payments@[j as int],
            )) by {
                lemma_share_slot_is_conflict(slots@, payments@, i, j);
            }
            lemma_index_is_conflict_index(slots@, payments@);
        }
        self.slots = slots;
        first_fit(&graph, payments)
    }
}

/// Whether no slot occurs twice in `slots`, and every slot has payments, in ascending
/// order.
spec fn slots_wf(slots: Seq<SlotEntry>) -> bool {
    &&& forall|s: int, t: int|
        0 <= s < t < slots.len() ==> (#[trigger] slots[s]).key != (#[trigger] slots[t]).key
    &&& forall|s: int|
        0 <= s < slots.len() ==> ascending((#[trigger] slots[s]).payments@)
            && slots[s].payments@.len() > 0
}

/// Whether slot `key` occurs in `slots`.
spec fn has_slot(slots: Seq<SlotEntry>, key: ConflictKey) -> bool {
    exists|s: int| 0 <= s < slots.len() && (#[trigger] slots[s]).key == key
}

/// Whether `slots` records that payment `i` touches `key`.
spec fn records(slots: Seq<SlotEntry>, key: ConflictKey, i: usize) -> bool {
    exists|s: int|
        0 <= s < slots.len() && (#[trigger] slots[s]).key == key && slots[s].payments@.contains(i)
}

/// Finds the entry of slot `key`.
fn find_slot(slots: &Vec<SlotEntry>, key: &ConflictKey) -> (found: Option<usize>)
    ensures
        match found {
            Some(s) => s < slots@.len() && slots@[s as int].key == *key,
            None => !has_slot(slots@, *key),
        },
{
    let mut s: usize = 0;
    while s < slots.len()
        invariant
            s <= slots@.len(),
            forall|t: int| 0 <= t < s ==> (#[trigger] slots@[t]).key != *key,
        decreases slots@.len() - s,
    {
        if slots[s].key == *key {
            return Some(s);
        }
        s = s + 1;
    }
    None
}

/// Adds to the index that payment `index`, the latest one, touches `key`.
fn index_key(slots: &mut Vec<SlotEntry>, key: ConflictKey, index: usize)
    requires
        slots_wf(old(slots)@),
        forall|k: ConflictKey, i: usize| #[trigger] records(old(slots)@, k, i) ==> i <= index,
    ensures
        slots_wf(final(slots)@),
        forall|k: ConflictKey, i: usize| #[trigger]
            records(final(slots)@, k, i) <==> records(old(slots)@, k, i) || (k == key && i
                == index),
{
    let ghost before = slots@;
    match find_slot(slots, &key) {
        Some(s) => {
            let ghost row = before[s as int].payments@;
            let last: usize = slots[s].payments[slots[s].payments.len() - 1];
            assert(row.contains(last));
            assert(records(before, key, last));
            if last != index {
                slots[s].payments.push(index);
                proof {
                    let new_row = slots@[s as int].payments@;
                    assert(new_row == row.push(index));
                    assert forall|i: usize| #[trigger] new_row.contains(i) <==> row.contains(i) || i
                        == index by {
                        if row.contains(i) {
                            let k = choose|k: int| 0 <= k < row.len() && row[k] == i;
                            assert(new_row[k] == i);
                        }
                        assert(new_row[row.len() as int] == index);
                    }
                    lemma_records_after_change(before, slots@, s as int, key, index);
                }
            } else {
                assert(row[row.len() - 1] == index);
            }
        },
        None => {
            let mut payments: Vec<usize> = Vec::new();
            payments.push(index);
            slots.push(SlotEntry { key, payments });
            proof {
                let after = slots@;
                let s = before.len() as int;
                assert(after[s].payments@[0] == index);
                assert forall|k: ConflictKey, i: usize| #[trigger]
                    records(after, k, i) <==> records(before, k, i) || (k == key && i == index) by {
                    if records(before, k, i) {
                        let t = choose|t: int|
                            0 <= t < before.len() && (#[trigger] before[t]).key == k
                                && before[t].payments@.contains(i);
                        assert(after[t] == before[t]);
                    }
                    if records(after, k, i) {
                        let t = choose|t: int|
                            0 <= t < after.len() && (#[trigger] after[t]).key == k
                                && after[t].payments@.contains(i);
                        if t < before.len() {
                            assert(after[t] == before[t]);
                        }
                    }
                    if k == key && i == index {
                        assert(after[s].key == key && after[s].payments@.contains(index));
                    }
                }
            }
        },
    }
}

impl Default for ConflictDetector {
    fn default() -> (detector: Self)
        ensures
            detector.slots().len() == 0,
    {
        ConflictDetector::new()
    }
}

/// Adding `index` to the row of the slot `key` adds just that to what is recorded.
proof fn lemma_records_after_change(
    before: Seq<SlotEntry>,
    after: Seq<SlotEntry>,
    s: int,
    key: ConflictKey,
    index: usize,
)
    requires
        0 <= s < before.len() == after.len(),
        before[s].key == key,
        after[s].key == key,
        forall|i: usize| #[trigger]
            after[s].payments@.contains(i) <==> before[s].payments@.contains(i) || i == index,
        forall|t: int| 0 <= t < before.len() && t != s ==> after[t] == before[t],
    ensures
        forall|k: ConflictKey, i: usize| #[trigger]
            records(after, k, i) <==> records(before, k, i) || (k == key && i == index),
{
    assert forall|k: ConflictKey, i: usize| #[trigger]
        records(after, k, i) <==> records(before, k, i) || (k == key && i == index) by {
        if records(before, k, i) {
            let t = choose|t: int|
                0 <= t < before.len() && (#[trigger] before[t]).key == k
                    && before[t].payments@.contains(i);
            assert(after[t].key == k && after[t].payments@.contains(i));
        }
        if records(after, k, i) {
            let t = choose|t: int|
                0 <= t < after.len() && (#[trigger] after[t]).key == k
                    && after[t].payments@.contains(i);
            if t != s {
                assert(before[t].key == k && before[t].payments@.contains(i));
            } else if i != index {
                assert(before[t].payments@.contains(i));
            }
        }
        if k == key && i == index {
            assert(after[s].key == key && after[s].payments@.contains(index));
        }
    }
}

/// Indexes `payments` by the slots they touch, from an empty index.
fn index_payments(slots: &mut Vec<SlotEntry>, payments: &[PaymentIntent])
    requires
        old(slots)@.len() == 0,
    ensures
        slots_wf(final(slots)@),
        forall|k: ConflictKey, i: usize| #[trigger]
            records(final(slots)@, k, i) <==> i < payments@.len() && payments@[i as int].touches(k),
{
    let mut index: usize = 0;
    while index < payments.len()
        invariant
            index <= payments@.len(),
            slots_wf(slots@),
            forall|k: ConflictKey, i: usize| #[trigger]
                records(slots@, k, i) <==> i < index && payments@[i as int].touches(k),
        decreases payments@.len() - index,
    {
        let keys = payments[index].conflict_keys();
        index_key(slots, keys[0], index);
        index_key(slots, keys[1], index);
        assert forall|k: ConflictKey, i: usize| #[trigger] records(slots@, k, i) <==> i < index + 1
            && payments@[i as int].touches(k) by {
            let payment = payments@[index as int];
            assert(payment.touches(k) <==> (k == keys@[0] || k == keys@[1]));
        }
        index = index + 1;
    }
}

/// Whether payment `j` is a neighbour of payment `i` in the conflict graph.
spec fn linked(graph: Seq<Vec<usize>>, i: int, j: usize) -> bool {
    graph[i]@.contains(j)
}

/// Adds an edge to the conflict graph, in one direction.
fn link(graph: &mut Vec<Vec<usize>>, from: usize, to: usize)
    requires
        from < old(graph)@.len(),
    ensures
        final(graph)@.len() == old(graph)@.len(),
        forall|i: int, j: usize|
            0 <= i < old(graph)@.len() ==> (#[trigger] linked(final(graph)@, i, j) <==> linked(
                old(graph)@,
                i,
                j,
            ) || (i == from && j == to)),
{
    let ghost before = graph@;
    graph[from].push(to);
    proof {
        let row = before[from as int]@;
        let new_row = graph@[from as int]@;
        assert(new_row == row.push(to));
        assert forall|j: usize| #[trigger] new_row.contains(j) <==> row.contains(j) || j == to by {
            if row.contains(j) {
                let k = choose|k: int| 0 <= k < row.len() && row[k] == j;
                assert(new_row[k] == j);
            }
            assert(new_row[row.len() as int] == to);
        }
    }
}

/// Adds to the conflict graph that any two payments of `group` conflict.
fn link_group(graph: &mut Vec<Vec<usize>>, group: &Vec<usize>)
    requires
        ascending(group@),
        forall|k: int| 0 <= k < group@.len() ==> (#[trigger] group@[k]) < old(graph)@.len(),
    ensures
        final(graph)@.len() == old(graph)@.len(),
        forall|i: usize, j: usize|
            i < old(graph)@.len() ==> (#[trigger] linked(final(graph)@, i as int, j) <==> linked(
                old(graph)@,
                i as int,
                j,
            ) || (i != j && group@.contains(i) && group@.contains(j))),
{
    let ghost before = graph@;
    let mut a: usize = 0;
    while a < group.len()
        invariant
            a <= group@.len(),
            ascending(group@),
            before == old(graph)@,
            graph@.len() == before.len(),
            forall|k: int| 0 <= k < group@.len() ==> (#[trigger] group@[k]) < before.len(),
            forall|i: usize, j: usize|
                i < before.len() ==> (#[trigger] linked(graph@, i as int, j) <==> linked(
                    before,
                    i as int,
                    j,
                ) || paired(group@, a as int, a + 1, i, j)),
        decreases group@.len() - a,
    {
        let mut b: usize = a + 1;
        while b < group.len()
            invariant
                a < group@.len(),
                a + 1 <= b <= group@.len(),
                ascending(group@),
                graph@.len() == before.len(),
                forall|k: int| 0 <= k < group@.len() ==> (#[trigger] group@[k]) < before.len(),
                forall|i: usize, j: usize|
                    i < before.len() ==> (#[trigger] linked(graph@, i as int, j) <==> linked(
                        before,
                        i as int,
                        j,
                    ) || paired(group@, a as int, b as int, i, j)),
            decreases group@.len() - b,
        {
            link(graph, group[a], group[b]);
            link(graph, group[b], group[a]);
            assert forall|i: usize, j: usize|
                i < before.len() implies (#[trigger] linked(graph@, i as int, j) <==> linked(
                before,
                i as int,
                j,
            ) || paired(group@, a as int, b + 1, i, j)) by {
                lemma_paired_step(group@, a as int, b as int, i, j);
            }
            b = b + 1;
        }
        assert forall|i: usize, j: usize|
            i < before.len() implies (#[trigger] linked(graph@, i as int, j) <==> linked(
            before,
            i as int,
            j,
        ) || paired(group@, a + 1, a + 2, i, j)) by {
            lemma_paired_row(group@, a as int, i, j);
        }
        a = a + 1;
    }
    assert forall|i: usize, j: usize|
        i < before.len() implies (#[trigger] linked(graph@, i as int, j) <==> linked(
        before,
        i as int,
        j,
    ) || (i != j && group@.contains(i) && group@.contains(j))) by {
        lemma_paired_all(group@, i, j);
    }
}

/// Whether `i` and `j` stand, in either order, at positions `p < q` of `group` such that
/// the pair `(p, q)` comes before `(a, b)` in lexicographic order.
spec fn paired(group: Seq<usize>, a: int, b: int, i: usize, j: usize) -> bool {
    exists|p: int, q: int| #[trigger] at_pair(group, p, q, i, j) && (p < a || (p == a && q < b))
}

spec fn at_pair(group: Seq<usize>, p: int, q: int, i: usize, j: usize) -> bool {
    &&& 0 <= p < q < group.len()
    &&& (group[p] == i && group[q] == j) || (group[p] == j && group[q] == i)
}

proof fn lemma_paired_step(group: Seq<usize>, a: int, b: int, i: usize, j: usize)
    requires
        0 <= a < b < group.len(),
    ensures
        paired(group, a, b + 1, i, j) <==> paired(group, a, b, i, j) || at_pair(group, a, b, i, j),
{
    if paired(group, a, b + 1, i, j) {
        let (p, q) = choose|p: int, q: int| #[trigger]
            at_pair(group, p, q, i, j) && (p < a || (p == a && q < b + 1));
        assert(at_pair(group, p, q, i, j));
    }
}

proof fn lemma_paired_row(group: Seq<usize>, a: int, i: usize, j: usize)
    requires
        0 <= a < group.len(),
    ensures
        paired(group, a, group.len() as int, i, j) <==> paired(group, a + 1, a + 2, i, j),
{
    if paired(group, a + 1, a + 2, i, j) {
        let (p, q) = choose|p: int, q: int| #[trigger]
            at_pair(group, p, q, i, j) && (p < a + 1 || (p == a + 1 && q < a + 2));
        assert(at_pair(group, p, q, i, j));
    }
}

proof fn lemma_paired_all(group: Seq<usize>, i: usize, j: usize)
    requires
        ascending(group),
    ensures
        paired(group, group.len() as int, group.len() as int + 1, i, j) <==> (i != j && group.contains(i)
            && group.contains(j)),
{
    if i != j && group.contains(i) && group.contains(j) {
        let p = choose|p: int| 0 <= p < group.len() && group[p] == i;
        let q = choose|q: int| 0 <= q < group.len() && group[q] == j;
        if p < q {
            assert(at_pair(group, p, q, i, j));
        } else {
            assert(at_pair(group, q, p, i, j));
        }
    }
}

/// Whether an entry among the first `count` lists both payments.
spec fn share_slot(slots: Seq<SlotEntry>, count: int, i: usize, j: usize) -> bool {
    exists|s: int|
        0 <= s < count && #[trigger] slots[s].payments@.contains(i) && slots[s].payments@.contains(
            j,
        )
}

/// Builds the conflict graph of `count` payments: for each payment, its neighbours.
fn conflict_graph(slots: &Vec<SlotEntry>, count: usize) -> (graph: Vec<Vec<usize>>)
    requires
        slots_wf(slots@),
        forall|k: ConflictKey, i: usize| #[trigger] records(slots@, k, i) ==> i < count,
    ensures
        graph@.len() == count,
        forall|i: usize, j: usize|
            i < count ==> (#[trigger] linked(graph@, i as int, j) <==> i != j && share_slot(
                slots@,
                slots@.len() as int,
                i,
                j,
            )),
{
    let mut graph: Vec<Vec<usize>> = Vec::new();
    while graph.len() < count
        invariant
            graph@.len() <= count,
            forall|i: int| 0 <= i < graph@.len() ==> (#[trigger] graph@[i])@.len() == 0,
        decreases count - graph@.len(),
    {
        graph.push(Vec::new());
    }
    let mut g: usize = 0;
    while g < slots.len()
        invariant
            g <= slots@.len(),
            slots_wf(slots@),
            graph@.len() == count,
            forall|k: ConflictKey, i: usize| #[trigger] records(slots@, k, i) ==> i < count,
            forall|i: usize, j: usize|
                i < count ==> (#[trigger] linked(graph@, i as int, j) <==> i != j && share_slot(
                    slots@,
                    g as int,
                    i,
                    j,
                )),
        decreases slots@.len() - g,
    {
        let ghost row = slots@[g as int].payments@;
        assert forall|k: int| 0 <= k < row.len() implies (#[trigger] row[k]) < count by {
            assert(row.contains(row[k]));
            assert(records(slots@, slots@[g as int].key, row[k]));
        }
        link_group(&mut graph, &slots[g].payments);
        assert forall|i: usize, j: usize|
            i < count implies (#[trigger] linked(graph@, i as int, j) <==> i != j && share_slot(
            slots@,
            g + 1,
            i,
            j,
        )) by {
            if share_slot(slots@, g + 1, i, j) {
                let s = choose|s: int|
                    0 <= s < g + 1 && #[trigger] slots@[s].payments@.contains(i)
                        && slots@[s].payments@.contains(j);
                if s < g {
                    assert(share_slot(slots@, g as int, i, j));
                }
            }
            if share_slot(slots@, g as int, i, j) {
                let s = choose|s: int|
                    0 <= s < g && #[trigger] slots@[s].payments@.contains(i)
                        && slots@[s].payments@.contains(j);
                assert(slots@[s].payments@.contains(i));
            }
            if row.contains(i) && row.contains(j) {
                assert(slots@[g as int].payments@.contains(i));
            }
        }
        g = g + 1;
    }
    graph
}

/// Two payments share an entry of the index exactly if they conflict.
proof fn lemma_share_slot_is_conflict(
    slots: Seq<SlotEntry>,
    payments: Seq<PaymentIntent>,
    i: usize,
    j: usize,
)
    requires
        slots_wf(slots),
        forall|k: ConflictKey, i: usize| #[trigger]
            records(slots, k, i) <==> i < payments.len() && payments[i as int].touches(k),
        i < payments.len(),
    ensures
        share_slot(slots, slots.len() as int, i, j) <==> j < payments.len()
            && payments[i as int].conflicts_with(payments[j as int]),
{
    if share_slot(slots, slots.len() as int, i, j) {
        let s = choose|s: int|
            0 <= s < slots.len() && #[trigger] slots[s].payments@.contains(i)
                && slots[s].payments@.contains(j);
        assert(records(slots, slots[s].key, i));
        assert(records(slots, slots[s].key, j));
        assert(payments[i as int].touches(slots[s].key));
    }
    if j < payments.len() && payments[i as int].conflicts_with(payments[j as int]) {
        let key = choose|key: ConflictKey| #[trigger]
            payments[i as int].touches(key) && payments[j as int].touches(key);
        assert(records(slots, key, i));
        assert(records(slots, key, j));
        let s = choose|s: int|
            0 <= s < slots.len() && (#[trigger] slots[s]).key == key
                && slots[s].payments@.contains(i);
        let t = choose|t: int|
            0 <= t < slots.len() && (#[trigger] slots[t]).key == key
                && slots[t].payments@.contains(j);
        assert(s == t) by {
            if s < t {
                assert(slots[s].key != slots[t].key);
            } else if t < s {
                assert(slots[t].key != slots[s].key);
            }
        }
        assert(slots[s].payments@.contains(i));
    }
}

/// Whether one of `neighbours` already has color `color`.
spec fn color_taken(neighbours: Seq<usize>, colors: Seq<usize>, color: int) -> bool {
    exists|k: usize| #[trigger]
        neighbours.contains(k) && k < colors.len() && colors[k as int] == color
}

/// The least color below `limit` that no colored neighbour has, or `limit`.
fn first_free_color(neighbours: &Vec<usize>, colors: &Vec<usize>, limit: usize) -> (color: usize)
    requires
        forall|k: int| 0 <= k < colors@.len() ==> (#[trigger] colors@[k]) < limit,
    ensures
        color <= limit,
        !color_taken(neighbours@, colors@, color as int),
        forall|c: int| 0 <= c < color ==> #[trigger] color_taken(neighbours@, colors@, c),
{
    let mut taken: Vec<bool> = Vec::new();
    while taken.len() < limit
        invariant
            taken@.len() <= limit,
            forall|c: int| 0 <= c < taken@.len() ==> !(#[trigger] taken@[c]),
        decreases limit - taken@.len(),
    {
        taken.push(false);
    }
    let mut k: usize = 0;
    while k < neighbours.len()
        invariant
            k <= neighbours@.len(),
            taken@.len() == limit,
            forall|k: int| 0 <= k < colors@.len() ==> (#[trigger] colors@[k]) < limit,
            forall|c: int|
                0 <= c < limit ==> (#[trigger] taken@[c] <==> exists|m: int|
                    0 <= m < k && (#[trigger] neighbours@[m]) < colors@.len()
                        && colors@[neighbours@[m] as int] == c),
        decreases neighbours@.len() - k,
    {
        let j: usize = neighbours[k];
        let ghost before = taken@;
        if j < colors.len() {
            let color: usize = colors[j];
            taken.set(color, true);
        }
        assert forall|c: int| 0 <= c < limit implies (#[trigger] taken@[c] <==> exists|m: int|
            0 <= m < k + 1 && (#[trigger] neighbours@[m]) < colors@.len()
                && colors@[neighbours@[m] as int] == c) by {
            if taken@[c] {
                if before[c] {
                    let m = choose|m: int|
                        0 <= m < k && (#[trigger] neighbours@[m]) < colors@.len()
                            && colors@[neighbours@[m] as int] == c;
                    assert(neighbours@[m] < colors@.len());
                } else {
                    assert(neighbours@[k as int] < colors@.len());
                }
            }
            if exists|m: int|
                0 <= m < k + 1 && (#[trigger] neighbours@[m]) < colors@.len()
                    && colors@[neighbours@[m] as int] == c {
                let m = choose|m: int|
                    0 <= m < k + 1 && (#[trigger] neighbours@[m]) < colors@.len()
                        && colors@[neighbours@[m] as int] == c;
                if m < k {
                    assert(before[c]);
                }
            }
        }
        k = k + 1;
    }
    assert forall|c: int| 0 <= c < limit implies (#[trigger] taken@[c] <==> color_taken(
        neighbours@,
        colors@,
        c,
    )) by {
        if taken@[c] {
            let m = choose|m: int|
                0 <= m < neighbours@.len() && (#[trigger] neighbours@[m]) < colors@.len()
                    && colors@[neighbours@[m] as int] == c;
            assert(neighbours@.contains(neighbours@[m]));
        }
        if color_taken(neighbours@, colors@, c) {
            let j = choose|j: usize| #[trigger]
                neighbours@.contains(j) && j < colors@.len() && colors@[j as int] == c;
            let m = choose|m: int| 0 <= m < neighbours@.len() && neighbours@[m] == j;
            assert(neighbours@[m] < colors@.len());
        }
    }
    let mut color: usize = 0;
    while color < limit && taken[color]
        invariant
            color <= limit,
            taken@.len() == limit,
            forall|c: int| 0 <= c < color ==> #[trigger] taken@[c],
        decreases limit - color,
    {
        color = color + 1;
    }
    if color == limit {
        assert(!color_taken(neighbours@, colors@, limit as int));
    }
    assert forall|c: int| 0 <= c < color implies #[trigger] color_taken(
        neighbours@,
        colors@,
        c,
    ) by {
        assert(taken@[c]);
    }
    color
}

/// The entries that the construction yields are the conflict index of the payments.
proof fn lemma_index_is_conflict_index(slots: Seq<SlotEntry>, payments: Seq<PaymentIntent>)
    requires
        slots_wf(slots),
        forall|k: ConflictKey, i: usize| #[trigger]
            records(slots, k, i) <==> i < payments.len() && payments[i as int].touches(k),
        payments.len() <= usize::MAX,
    ensures
        is_conflict_index(
            slots.map_values(|entry: SlotEntry| (entry.key, entry.payments@)),
            payments,
        ),
{
    let rows = slots.map_values(|entry: SlotEntry| (entry.key, entry.payments@));
    assert forall|s: int, i: usize| 0 <= s < rows.len() implies (#[trigger] rows[s].1.contains(i)
        <==> i < payments.len() && payments[i as int].touches(rows[s].0)) by {
        if rows[s].1.contains(i) {
            assert(slots[s].payments@.contains(i));
            assert(records(slots, slots[s].key, i));
        }
        if i < payments.len() && payments[i as int].touches(rows[s].0) {
            assert(records(slots, rows[s].0, i));
            let t = choose|t: int|
                0 <= t < slots.len() && (#[trigger] slots[t]).key == rows[s].0
                    && slots[t].payments@.contains(i);
            assert(s == t) by {
                if s < t {
                    assert(slots[s].key != slots[t].key);
                } else if t < s {
                    assert(slots[t].key != slots[s].key);
                }
            }
        }
    }
    assert forall|i: int, key: ConflictKey|
        0 <= i < payments.len() && #[trigger] payments[i].touches(key) implies exists|s: int|
        0 <= s < rows.len() && (#[trigger] rows[s]).0 == key by {
        assert(records(slots, key, i as usize));
        let t = choose|t: int|
            0 <= t < slots.len() && (#[trigger] slots[t]).key == key
                && slots[t].payments@.contains(i as usize);
        assert(rows[t].0 == key);
    }
}

/// Whether the first payments, as many as there are `colors`, stand in the batch of
/// their color, and batches list them in order.
spec fn batches_match(batches: Seq<Vec<usize>>, colors: Seq<usize>) -> bool {
    &&& forall|k: int| 0 <= k < colors.len() ==> (#[trigger] colors[k]) < batches.len()
    &&& forall|c: int, i: usize|
        0 <= c < batches.len() ==> (#[trigger] batches[c]@.contains(i) <==> i < colors.len()
            && colors[i as int] == c)
    &&& forall|c: int|
        0 <= c < batches.len() ==> ascending((#[trigger] batches[c])@) && batches[c]@.len() > 0
}

/// Whether the colors are those that first fit gives.
spec fn colors_fit(payments: Seq<PaymentIntent>, colors: Seq<usize>) -> bool {
    &&& forall|i: int, j: int|
        0 <= i < colors.len() && 0 <= j < colors.len() && i != j && #[trigger] colors[i]
            == #[trigger] colors[j] ==> !payments[i].conflicts_with(payments[j])
    &&& forall|i: int, c: int|
        0 <= i < colors.len() && 0 <= c < colors[i] ==> #[trigger] color_blocked(
            payments,
            colors,
            i,
            c,
        )
}

/// Whether a payment before `i` of color `c` conflicts with payment `i`.
spec fn color_blocked(payments: Seq<PaymentIntent>, colors: Seq<usize>, i: int, c: int) -> bool {
    exists|j: int|
        0 <= j < i && #[trigger] colors[j] == c && payments[i].conflicts_with(payments[j])
}

/// Colors the conflict graph of `payments` greedily, a batch for each color.
fn first_fit(graph: &Vec<Vec<usize>>, payments: &[PaymentIntent]) -> (batches: Vec<Vec<usize>>)
    requires
        graph@.len() == payments@.len(),
        forall|i: usize, j: usize|
            i < payments@.len() ==> (#[trigger] linked(graph@, i as int, j) <==> i != j && j
                < payments@.len() && payments@[i as int].conflicts_with(payments@[j as int])),
    ensures
        is_first_fit(payments@, batch_rows(batches@)),
{
    let mut colors: Vec<usize> = Vec::new();
    let mut batches: Vec<Vec<usize>> = Vec::new();
    let mut i: usize = 0;
    while i < graph.len()
        invariant
            i <= graph@.len(),
            graph@.len() == payments@.len(),
            colors@.len() == i,
            batches@.len() <= i,
            forall|i: usize, j: usize|
                i < payments@.len() ==> (#[trigger] linked(graph@, i as int, j) <==> i != j && j
                    < payments@.len() && payments@[i as int].conflicts_with(payments@[j as int])),
            batches_match(batches@, colors@),
            colors_fit(payments@, colors@),
        decreases graph@.len() - i,
    {
        let ghost old_colors = colors@;
        let ghost old_batches = batches@;
        let color: usize = first_free_color(&graph[i], &colors, batches.len());
        colors.push(color);
        if color == batches.len() {
            batches.push(Vec::new());
        }
        let ghost row = batches@[color as int]@;
        batches[color].push(i);
        proof {
            let new_row = batches@[color as int]@;
            assert(new_row == row.push(i));
            assert forall|k: int| 0 <= k < row.len() implies (#[trigger] row[k]) < i by {
                assert(row.contains(row[k]));
            }
            assert forall|j: usize| #[trigger] new_row.contains(j) <==> row.contains(j) || j == i by {
                if row.contains(j) {
                    let k = choose|k: int| 0 <= k < row.len() && row[k] == j;
                    assert(new_row[k] == j);
                }
                assert(new_row[row.len() as int] == i);
            }
            assert(batches_match(batches@, colors@)) by {
                assert forall|c: int, j: usize| 0 <= c < batches@.len() implies (
                #[trigger] batches@[c]@.contains(j) <==> j < colors@.len() && colors@[j as int]
                    == c) by {
                    if c < old_batches.len() {
                        assert(old_batches[c]@.contains(j) <==> j < old_colors.len()
                            && old_colors[j as int] == c);
                    }
                    if j < old_colors.len() {
                        assert(old_colors[j as int] < old_batches.len());
                    }
                }
            }
            lemma_color_fits(graph@, payments@, old_colors, color);
        }
        i = i + 1;
    }
    proof {
        lemma_colors_give_first_fit(payments@, batches@, colors@);
    }
    batches
}

/// The color found for the next payment keeps the colors first-fit.
proof fn lemma_color_fits(
    graph: Seq<Vec<usize>>,
    payments: Seq<PaymentIntent>,
    colors: Seq<usize>,
    color: usize,
)
    requires
        graph.len() == payments.len(),
        colors.len() < payments.len() <= usize::MAX,
        forall|i: usize, j: usize|
            i < payments.len() ==> (#[trigger] linked(graph, i as int, j) <==> i != j && j
                < payments.len() && payments[i as int].conflicts_with(payments[j as int])),
        colors_fit(payments, colors),
        !color_taken(graph[colors.len() as int]@, colors, color as int),
        forall|c: int|
            0 <= c < color ==> #[trigger] color_taken(graph[colors.len() as int]@, colors, c),
    ensures
        colors_fit(payments, colors.push(color)),
{
    let n = colors.len() as int;
    let next = colors.push(color);
    let row = graph[n]@;
    assert forall|i: int, j: int|
        0 <= i < next.len() && 0 <= j < next.len() && i != j && #[trigger] next[i]
            == #[trigger] next[j] implies !payments[i].conflicts_with(payments[j]) by {
        if payments[i].conflicts_with(payments[j]) {
            law_conflict_is_symmetric(payments[i], payments[j]);
            if i < n && j < n {
                assert(colors[i] == colors[j]);
            } else {
                let other = if i == n {
                    j
                } else {
                    i
                };
                assert(linked(graph, (n as usize) as int, other as usize));
                assert(row.contains(other as usize) && colors[other] == color);
            }
        }
    }
    assert forall|i: int, c: int| 0 <= i < next.len() && 0 <= c < next[i] implies #[trigger]
        color_blocked(payments, next, i, c) by {
        if i < n {
            assert(color_blocked(payments, colors, i, c));
            let j = choose|j: int|
                0 <= j < i && #[trigger] colors[j] == c && payments[i].conflicts_with(payments[j]);
            assert(next[j] == c);
        } else {
            assert(color_taken(row, colors, c));
            let k = choose|k: usize| #[trigger]
                row.contains(k) && k < colors.len() && colors[k as int] == c;
            assert(linked(graph, (n as usize) as int, k));
            assert(next[k as int] == c);
        }
    }
}

/// Whether two payments conflict does not depend on their order.
pub proof fn law_conflict_is_symmetric(a: PaymentIntent, b: PaymentIntent)
    ensures
        a.conflicts_with(b) == b.conflicts_with(a),
{
    if a.conflicts_with(b) {
        let key = choose|key: ConflictKey| #[trigger] a.touches(key) && b.touches(key);
        assert(b.touches(key));
    }
    if b.conflicts_with(a) {
        let key = choose|key: ConflictKey| #[trigger] b.touches(key) && a.touches(key);
        assert(a.touches(key));
    }
}

/// First-fit colors give first-fit batches.
proof fn lemma_colors_give_first_fit(
    payments: Seq<PaymentIntent>,
    batches: Seq<Vec<usize>>,
    colors: Seq<usize>,
)
    requires
        colors.len() == payments.len(),
        batches_match(batches, colors),
        colors_fit(payments, colors),
    ensures
        is_first_fit(payments, batch_rows(batches)),
{
    let rows = batch_rows(batches);
    assert forall|i: usize| i < payments.len() implies #[trigger] is_placed(rows, i) by {
        let c = colors[i as int] as int;
        assert(batches[c]@.contains(i));
        assert(rows[c].contains(i));
    }
    assert forall|c: int, i: usize| 0 <= c < rows.len() && #[trigger] rows[c].contains(i) implies i
        < payments.len() && colors[i as int] == c by {
        assert(batches[c]@.contains(i));
    }
    assert forall|c: int, i: usize, j: usize|
        0 <= c < rows.len() && #[trigger] rows[c].contains(i) && #[trigger] rows[c].contains(j) && i
            != j implies !payments[i as int].conflicts_with(payments[j as int]) by {
        assert(colors[i as int] == colors[j as int]);
    }
    assert forall|c: int, d: int, i: usize|
        0 <= d < c < rows.len() && #[trigger] rows[c].contains(i) implies #[trigger] blocked_by(
        payments,
        rows[d],
        i,
    ) by {
        assert(color_blocked(payments, colors, i as int, d));
        let j = choose|j: int|
            0 <= j < i && #[trigger] colors[j] == d && payments[i as int].conflicts_with(
                payments[j],
            );
        assert(batches[d]@.contains(j as usize));
        assert(rows[d].contains(j as usize));
    }
    assert forall|c: int| 0 <= c < rows.len() implies ascending(#[trigger] rows[c])
        && rows[c].len() > 0 by {
        assert(ascending(batches[c]@));
    }
}

/// Two payments conflict exactly if they move the same asset and an account of one is
/// an account of the other.
pub proof fn law_conflict_is_a_shared_account(a: PaymentIntent, b: PaymentIntent)
    ensures
        a.conflicts_with(b) <==> a.asset == b.asset && (a.from == b.from || a.from == b.to || a.to
            == b.from || a.to == b.to),
{
    if a.asset == b.asset {
        let sender = ConflictKey { asset: a.asset, account: a.from };
        let receiver = ConflictKey { asset: a.asset, account: a.to };
        assert(a.touches(sender) && a.touches(receiver));
        if a.from == b.from || a.from == b.to {
            assert(b.touches(sender));
        }
        if a.to == b.from || a.to == b.to {
            assert(b.touches(receiver));
        }
    }
}

/// Payments of different assets never conflict, whoever sends and receives them.
pub proof fn law_assets_are_independent(a: PaymentIntent, b: PaymentIntent)
    requires
        a.asset != b.asset,
    ensures
        !a.conflicts_with(b),
{
}

/// Conflicting payments are serialized: they stand in different batches.
pub proof fn law_conflicting_payments_are_serialized(
    payments: Seq<PaymentIntent>,
    batches: Seq<Seq<usize>>,
    i: usize,
    j: usize,
    c: int,
    d: int,
)
    requires
        is_first_fit(payments, batches),
        i != j,
        i < payments.len(),
        j < payments.len(),
        payments[i as int].conflicts_with(payments[j as int]),
        0 <= c < batches.len(),
        0 <= d < batches.len(),
        batches[c].contains(i),
        batches[d].contains(j),
    ensures
        c != d,
{
}

/// Payments none of which conflict all stand in one batch, in order.
pub proof fn law_disjoint_payments_share_a_batch(
    payments: Seq<PaymentIntent>,
    batches: Seq<Seq<usize>>,
)
    requires
        is_first_fit(payments, batches),
        0 < payments.len() <= usize::MAX,
        forall|i: int, j: int|
            0 <= i < payments.len() && 0 <= j < payments.len() && i != j
                ==> !(#[trigger] payments[i]).conflicts_with(#[trigger] payments[j]),
    ensures
        batches == seq![Seq::new(payments.len(), |i: int| i as usize)],
{
    let all = Seq::new(payments.len(), |i: int| i as usize);
    assert(batches.len() <= 1) by {
        if batches.len() > 1 {
            let i = batches[1][0];
            assert(batches[1].contains(i));
            assert(blocked_by(payments, batches[0], i));
            let j = choose|j: usize| #[trigger]
                batches[0].contains(j) && j < i && payments[i as int].conflicts_with(
                    payments[j as int],
                );
            assert(false);
        }
    }
    assert(is_placed(batches, 0));
    assert(batches.len() == 1);
    assert forall|i: usize| batches[0].contains(i) <==> all.contains(i) by {
        if all.contains(i) {
            let k = choose|k: int| 0 <= k < all.len() && all[k] == i;
            assert(is_placed(batches, i));
        }
        if batches[0].contains(i) {
            assert(all[i as int] == i);
        }
    }
    lemma_ascending_determined(batches[0], all);
    assert(batches =~= seq![all]);
}

/// A batch is determined by the set of its payments.
proof fn lemma_ascending_determined(a: Seq<usize>, b: Seq<usize>)
    requires
        ascending(a),
        ascending(b),
        forall|i: usize| a.contains(i) <==> b.contains(i),
    ensures
        a == b,
{
    assert forall|k: int| 0 <= k < a.len() && k < b.len() implies a[k] == b[k] by {
        lemma_ascending_prefix(a, b, k);
    }
    if a.len() > b.len() {
        let i = a[b.len() as int];
        assert(a.contains(i));
        let m = choose|m: int| 0 <= m < b.len() && b[m] == i;
        assert(a[m] == i);
    }
    if b.len() > a.len() {
        let i = b[a.len() as int];
        assert(b.contains(i));
        let m = choose|m: int| 0 <= m < a.len() && a[m] == i;
        assert(b[m] == i);
    }
    assert(a =~= b);
}

proof fn lemma_ascending_prefix(a: Seq<usize>, b: Seq<usize>, k: int)
    requires
        ascending(a),
        ascending(b),
        forall|i: usize| a.contains(i) <==> b.contains(i),
        0 <= k < a.len(),
        k < b.len(),
    ensures
        a[k] == b[k],
    decreases k,
{
    assert forall|m: int| 0 <= m < k implies a[m] == b[m] by {
        lemma_ascending_prefix(a, b, m);
    }
    assert(a.contains(a[k]));
    let m = choose|m: int| 0 <= m < b.len() && b[m] == a[k];
    if m < k {
        assert(a[m] == b[m]);
    }
    assert(b.contains(b[k]));
    let l = choose|l: int| 0 <= l < a.len() && a[l] == b[k];
    if l < k {
        assert(a[l] == b[l]);
    }
}

/// The partition is a function of the payments: there is one first-fit partition.
pub proof fn law_partition_is_determined(
    payments: Seq<PaymentIntent>,
    a: Seq<Seq<usize>>,
    b: Seq<Seq<usize>>,
)
    requires
        is_first_fit(payments, a),
        is_first_fit(payments, b),
    ensures
        a == b,
{
    lemma_no_more_batches(payments, a, b);
    lemma_no_more_batches(payments, b, a);
    assert forall|c: int| 0 <= c < a.len() implies a[c] == b[c] by {
        assert forall|i: usize| a[c].contains(i) <==> b[c].contains(i) by {
            if a[c].contains(i) {
                assert(is_placed(b, i));
                let d = choose|d: int| 0 <= d < b.len() && #[trigger] b[d].contains(i);
                lemma_same_batch(payments, a, b, i, c, d);
            }
            if b[c].contains(i) {
                assert(is_placed(a, i));
                let d = choose|d: int| 0 <= d < a.len() && #[trigger] a[d].contains(i);
                lemma_same_batch(payments, a, b, i, d, c);
            }
        }
        assert(ascending(a[c]) && ascending(b[c]));
        lemma_ascending_determined(a[c], b[c]);
    }
    assert(a =~= b);
}

proof fn lemma_no_more_batches(
    payments: Seq<PaymentIntent>,
    a: Seq<Seq<usize>>,
    b: Seq<Seq<usize>>,
)
    requires
        is_first_fit(payments, a),
        is_first_fit(payments, b),
    ensures
        a.len() <= b.len(),
{
    if a.len() > 0 {
        let c = a.len() - 1;
        assert(a[c].len() > 0);
        let i = a[c][0];
        assert(a[c].contains(i));
        assert(is_placed(b, i));
        let d = choose|d: int| 0 <= d < b.len() && #[trigger] b[d].contains(i);
        lemma_same_batch(payments, a, b, i, c, d);
    }
}

proof fn lemma_same_batch(
    payments: Seq<PaymentIntent>,
    a: Seq<Seq<usize>>,
    b: Seq<Seq<usize>>,
    i: usize,
    c: int,
    d: int,
)
    requires
        is_first_fit(payments, a),
        is_first_fit(payments, b),
        0 <= c < a.len(),
        0 <= d < b.len(),
        a[c].contains(i),
        b[d].contains(i),
    ensures
        c == d,
    decreases i,
{
    if d < c {
        assert(blocked_by(payments, a[d], i));
        let j = choose|j: usize| #[trigger]
            a[d].contains(j) && j < i && payments[i as int].conflicts_with(payments[j as int]);
        assert(is_placed(b, j));
        let e = choose|e: int| 0 <= e < b.len() && #[trigger] b[e].contains(j);
        lemma_same_batch(payments, a, b, j, d, e);
    } else if c < d {
        assert(blocked_by(payments, b[c], i));
        let j = choose|j: usize| #[trigger]
            b[c].contains(j) && j < i && payments[i as int].conflicts_with(payments[j as int]);
        assert(is_placed(a, j));
        let e = choose|e: int| 0 <= e < a.len() && #[trigger] a[e].contains(j);
        lemma_same_batch(payments, a, b, j, e, c);
    }
}

/// The number of payments in all batches.
pub open spec fn batched_count(batches: Seq<Seq<usize>>) -> nat
    decreases batches.len(),
{
    if batches.len() == 0 {
        0
    } else {
        batched_count(batches.drop_last()) + batches.last().len()
    }
}

/// Every payment is assigned exactly once: the batches hold as many entries as there
/// are payments, and payment `i` stands in one of them.
pub proof fn law_every_payment_is_assigned_once(
    payments: Seq<PaymentIntent>,
    batches: Seq<Seq<usize>>,
    i: usize,
)
    requires
        is_first_fit(payments, batches),
        payments.len() <= usize::MAX,
    ensures
        batched_count(batches) == payments.len(),
        i < payments.len() ==> is_placed(batches, i),
{
    lemma_count_is_union_size(payments, batches, batches.len() as int);
    assert(batches.take(batches.len() as int) =~= batches);
    let placed = placed_in(batches, batches.len() as int);
    let all = vstd::set_lib::set_int_range(0, payments.len() as int);
    assert forall|x: int| placed.contains(x) <==> all.contains(x) by {
        if all.contains(x) {
            assert(is_placed(batches, x as usize));
            let c = choose|c: int| 0 <= c < batches.len() && #[trigger] batches[c].contains(
                x as usize,
            );
            assert(batches[c].contains(x as usize));
        }
    }
    assert(placed =~= all);
    vstd::set_lib::lemma_int_range(0, payments.len() as int);
}

/// The payments in the first `count` batches.
spec fn placed_in(batches: Seq<Seq<usize>>, count: int) -> Set<int> {
    Set::new(
        |x: int|
            0 <= x <= usize::MAX && exists|c: int|
                0 <= c < count && #[trigger] batches[c].contains(x as usize),
    )
}

proof fn lemma_count_is_union_size(
    payments: Seq<PaymentIntent>,
    batches: Seq<Seq<usize>>,
    count: int,
)
    requires
        is_first_fit(payments, batches),
        0 <= count <= batches.len(),
    ensures
        placed_in(batches, count).finite(),
        placed_in(batches, count).len() == batched_count(batches.take(count)),
    decreases count,
{
    if count == 0 {
        assert(placed_in(batches, 0) =~= Set::empty());
    } else {
        let c = count - 1;
        lemma_count_is_union_size(payments, batches, c);
        assert(batches.take(count).drop_last() =~= batches.take(c));
        let numbers = batches[c].map_values(|x: usize| x as int);
        assert(ascending(batches[c]));
        assert(numbers.no_duplicates());
        numbers.unique_seq_to_set();
        let row = numbers.to_set();
        let rest = placed_in(batches, c);
        assert forall|x: int| row.contains(x) <==> 0 <= x <= usize::MAX && batches[c].contains(
            x as usize,
        ) by {
            if row.contains(x) {
                let k = choose|k: int| 0 <= k < numbers.len() && numbers[k] == x;
                assert(batches[c][k] == x);
            }
            if 0 <= x <= usize::MAX && batches[c].contains(x as usize) {
                let k = choose|k: int| 0 <= k < batches[c].len() && batches[c][k] == x as usize;
                assert(numbers[k] == x);
            }
        }
        assert(row.disjoint(rest)) by {
            assert forall|x: int| !(row.contains(x) && rest.contains(x)) by {
                if row.contains(x) && rest.contains(x) {
                    let d = choose|d: int| 0 <= d < c && #[trigger] batches[d].contains(x as usize);
                    assert(batches[c].contains(x as usize));
                }
            }
        }
        vstd::set_lib::lemma_set_disjoint_lens(rest, row);
        assert(placed_in(batches, count) =~= rest + row) by {
            assert forall|x: int| placed_in(batches, count).contains(x) implies (rest
                + row).contains(x) by {
                let d = choose|d: int| 0 <= d < count && #[trigger] batches[d].contains(x as usize);
                if d < c {
                    assert(rest.contains(x));
                }
            }
            assert forall|x: int| rest.contains(x) implies placed_in(batches, count).contains(x) by {
                let d = choose|d: int| 0 <= d < c && #[trigger] batches[d].contains(x as usize);
                assert(0 <= d < count);
            }
        }
    }
}

/// What a payment touches: the slots of its sender and its receiver for its asset, and
/// no other.
pub proof fn law_payments_touch_two_accounts(payment: PaymentIntent, key: ConflictKey)
    ensures
        payment.touches(key) <==> key.asset == payment.asset && (key.account == payment.from
            || key.account == payment.to),
{
}

/// What a batch touches: the slots of its sender and of every receiver for its asset,
/// and no other.
pub proof fn law_batches_touch_their_accounts(batch: BatchPaymentIntent, key: ConflictKey)
    ensures
        batch.touches(key) <==> key.asset == batch.asset && (key.account == batch.from || exists|i:
            int|
            0 <= i < batch.transfers@.len() && (#[trigger] batch.transfers@[i]).to == key.account),
{
}

/// The rows are the batches, in order.
pub proof fn law_rows_are_the_batches(batches: Seq<Vec<usize>>, c: int)
    requires
        0 <= c < batches.len(),
    ensures
        batch_rows(batches).len() == batches.len(),
        batch_rows(batches)[c] == batches[c]@,
{
}

/// What the batches of a partition are: they are not empty and list payments in their
/// order, each payment in one batch only, and no two payments of a batch move one asset
/// and share an account.
pub proof fn law_batches_are_free_of_shared_accounts(
    payments: Seq<PaymentIntent>,
    batches: Seq<Seq<usize>>,
)
    requires
        is_first_fit(payments, batches),
    ensures
        forall|c: int| 0 <= c < batches.len() ==> (#[trigger] batches[c]).len() > 0,
        forall|c: int, p: int, q: int|
            0 <= c < batches.len() && 0 <= p < q < batches[c].len() ==> #[trigger] batches[c][p]
                < #[trigger] batches[c][q],
        forall|c: int, p: int|
            0 <= c < batches.len() && 0 <= p < batches[c].len() ==> (#[trigger] batches[c][p])
                < payments.len(),
        forall|c: int, d: int, i: usize|
            0 <= c < batches.len() && 0 <= d < batches.len() && #[trigger] batches[c].contains(i)
                && #[trigger] batches[d].contains(i) ==> c == d,
        forall|c: int, i: usize, j: usize|
            0 <= c < batches.len() && #[trigger] batches[c].contains(i)
                && #[trigger] batches[c].contains(j) && i != j ==> {
                let a = payments[i as int];
                let b = payments[j as int];
                a.asset != b.asset || (a.from != b.from && a.from != b.to && a.to != b.from && a.to
                    != b.to)
            },
{
    assert forall|c: int, p: int| 0 <= c < batches.len() && 0 <= p < batches[c].len() implies (
    #[trigger] batches[c][p]) < payments.len() by {
        assert(batches[c].contains(batches[c][p]));
    }
    assert forall|c: int, p: int, q: int|
        0 <= c < batches.len() && 0 <= p < q < batches[c].len() implies #[trigger] batches[c][p]
        < #[trigger] batches[c][q] by {
        assert(ascending(batches[c]));
    }
    assert forall|c: int, i: usize, j: usize|
        0 <= c < batches.len() && #[trigger] batches[c].contains(i)
            && #[trigger] batches[c].contains(j) && i != j implies {
        let a = payments[i as int];
        let b = payments[j as int];
        a.asset != b.asset || (a.from != b.from && a.from != b.to && a.to != b.from && a.to != b.to)
    } by {
        law_conflict_is_a_shared_account(payments[i as int], payments[j as int]);
    }
}

/// Every payment takes the first batch that is free for it: it stands in a batch, and in
/// each batch `d` before its batch `c` there is an earlier payment that moves the same
/// asset and shares an account with it.
pub proof fn law_payments_take_the_first_free_batch(
    payments: Seq<PaymentIntent>,
    batches: Seq<Seq<usize>>,
    i: usize,
    c: int,
    d: int,
)
    requires
        is_first_fit(payments, batches),
        i < payments.len(),
    ensures
        exists|e: int| 0 <= e < batches.len() && #[trigger] batches[e].contains(i),
        0 <= d < c < batches.len() && batches[c].contains(i) ==> exists|p: int|
            0 <= p < batches[d].len() && {
                let j = #[trigger] batches[d][p];
                let a = payments[i as int];
                let b = payments[j as int];
                j < i && a.asset == b.asset && (a.from == b.from || a.from == b.to || a.to == b.from
                    || a.to == b.to)
            },
{
    assert(is_placed(batches, i));
    if 0 <= d < c < batches.len() && batches[c].contains(i) {
        assert(blocked_by(payments, batches[d], i));
        let j = choose|j: usize| #[trigger]
            batches[d].contains(j) && j < i && payments[i as int].conflicts_with(
                payments[j as int],
            );
        law_conflict_is_a_shared_account(payments[i as int], payments[j as int]);
        let p = choose|p: int| 0 <= p < batches[d].len() && batches[d][p] == j;
        assert(batches[d][p] == j);
    }
}

/// The conflict index means what it lists: a payment stands in the row of a slot exactly
/// if the slot is that of its sender or its receiver for its asset, no slot has two rows,
/// and both slots of every payment have one.
pub proof fn law_index_lists_who_touches_what(
    slots: Seq<(ConflictKey, Seq<usize>)>,
    payments: Seq<PaymentIntent>,
    i: usize,
)
    requires
        is_conflict_index(slots, payments),
        i < payments.len(),
    ensures
        forall|s: int|
            0 <= s < slots.len() ==> (#[trigger] slots[s].1.contains(i) <==> slots[s].0.asset
                == payments[i as int].asset && (slots[s].0.account == payments[i as int].from
                || slots[s].0.account == payments[i as int].to)),
        forall|s: int, t: int|
            0 <= s < t < slots.len() ==> (#[trigger] slots[s]).0 != (#[trigger] slots[t]).0,
        exists|s: int|
            0 <= s < slots.len() && (#[trigger] slots[s]).0.account == payments[i as int].from
                && slots[s].0.asset == payments[i as int].asset,
        exists|s: int|
            0 <= s < slots.len() && (#[trigger] slots[s]).0.account == payments[i as int].to
                && slots[s].0.asset == payments[i as int].asset,
{
    let payment = payments[i as int];
    let sender = ConflictKey { asset: payment.asset, account: payment.from };
    let receiver = ConflictKey { asset: payment.asset, account: payment.to };
    assert(payments[i as int].touches(sender));
    assert(payments[i as int].touches(receiver));
}

/// Slots are equal exactly if asset and account are.
pub proof fn law_slots_are_equal_by_asset_and_account(a: ConflictKey, b: ConflictKey)
    ensures
        ConflictKey::obeys_eq_spec(),
        a.eq_spec(&b) <==> a.asset == b.asset && a.account == b.account,
{
}

} // verus!

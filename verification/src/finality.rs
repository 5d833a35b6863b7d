//! BFT finality: votes of a committee of validators on proposed blocks, and the
//! certificates that prove a block final.
//!
//! A block is final once a supermajority of the committee has voted for it. Each
//! validator counts once per block, and only validators of the committee count.

use crate::primitives::{Duration, B256, U256};
use crate::text::{append_decimal, decimal};
use vstd::prelude::*;
use vstd::string::StringExecFns;

verus! {

/// Configuration for the BFT finality sidecar.
#[derive(Debug, Clone, Copy)]
pub struct BftConfig {
    /// Target block production interval.
    pub block_interval: Duration,
    /// Number of validators in the committee.
    pub validator_count: u32,
    /// Byzantine fault tolerance threshold: max Byzantine validators =
    /// (`validator_count` - 1) / 3.
    pub fault_tolerance: u32,
    /// Timeout for proposal phase.
    pub proposal_timeout: Duration,
    /// Timeout for voting phase.
    pub vote_timeout: Duration,
}

impl Default for BftConfig {
    fn default() -> (config: Self)
        ensures
            config.block_interval.total_nanos() == 600_000_000,
            config.validator_count == 4,
            config.fault_tolerance == (config.validator_count - 1) / 3,
            config.proposal_timeout.total_nanos() == 400_000_000,
            config.vote_timeout.total_nanos() == 200_000_000,
    {
        let validator_count: u32 = 4;
        BftConfig {
            block_interval: Duration::from_millis(600),
            validator_count,
            fault_tolerance: (validator_count - 1) / 3,
            proposal_timeout: Duration::from_millis(400),
            vote_timeout: Duration::from_millis(200),
        }
    }
}

/// Two thirds of `validators`, rounded up.
pub open spec fn two_thirds(validators: nat) -> nat {
    (2 * validators + 2) / 3
}

impl BftConfig {
    /// Returns the quorum size (2f+1) needed for agreement.
    pub fn quorum_size(&self) -> (quorum: u32)
        requires
            2 * self.fault_tolerance + 1 <= u32::MAX,
        ensures
            quorum == 2 * self.fault_tolerance + 1,
    {
        2 * self.fault_tolerance + 1
    }

    /// Returns the supermajority threshold (2/3 of validators, rounded up).
    pub fn supermajority(&self) -> (votes: u32)
        requires
            2 * self.validator_count <= u32::MAX,
        ensures
            votes == two_thirds(self.validator_count as nat),
            2 * self.validator_count <= 3 * votes < 2 * self.validator_count + 3,
    {
        let doubled: u32 = self.validator_count * 2;
        let thirds: u32 = doubled / 3;
        if doubled % 3 == 0 {
            thirds
        } else {
            thirds + 1
        }
    }
}

/// State of a block in the BFT finality pipeline.
#[derive(Debug, Clone, Copy, PartialEq, Eq, Hash, Structural)]
pub enum BlockFinalityState {
    /// Block has been proposed but not yet voted on.
    Proposed,
    /// Block has received votes but not yet reached quorum.
    Voting {
        /// Number of votes received.
        votes: u32,
    },
    /// Block has been finalized (irreversible).
    Finalized,
    /// Block was rejected (insufficient votes or conflicting proposals).
    Rejected,
}

impl BlockFinalityState {
    /// The text of the state.
    pub fn to_string(&self) -> (text: String)
        ensures
            text@ == match *self {
                BlockFinalityState::Proposed => "proposed"@,
                BlockFinalityState::Voting { votes } => "voting ("@ + decimal(votes as nat)
                    + " votes)"@,
                BlockFinalityState::Finalized => "finalized"@,
                BlockFinalityState::Rejected => "rejected"@,
            },
    {
        match self {
            BlockFinalityState::Proposed => String::from_str("proposed"),
            BlockFinalityState::Voting { votes } => {
                let mut text = String::from_str("voting (");
                append_decimal(&mut text, *votes as u64);
                text.append(" votes)");
                text
            },
            BlockFinalityState::Finalized => String::from_str("finalized"),
            BlockFinalityState::Rejected => String::from_str("rejected"),
        }
    }
}

/// A vote from a validator for a specific block.
#[derive(Debug, Clone, PartialEq, Eq)]
pub struct Vote {
    /// The validator index that cast this vote.
    pub validator_index: u32,
    /// The block hash being voted on.
    pub block_hash: B256,
    /// The block number.
    pub block_number: u64,
    /// Signature over (`block_hash`, `block_number`), as opaque bytes.
    pub signature: Vec<u8>,
}

/// The validators that cast `votes`.
pub open spec fn voters(votes: Seq<Vote>) -> Set<int> {
    votes.map_values(|vote: Vote| vote.validator_index as int).to_set()
}

/// Whether no validator cast two of `votes`.
pub open spec fn distinct_voters(votes: Seq<Vote>) -> bool {
    forall|i: int, j: int|
        0 <= i < j < votes.len() ==> (#[trigger] votes[i]).validator_index != (
        #[trigger] votes[j]).validator_index
}

/// Whether validator `index` cast one of `votes`.
pub open spec fn has_voted(votes: Seq<Vote>, index: u32) -> bool {
    exists|i: int| 0 <= i < votes.len() && (#[trigger] votes[i]).validator_index == index
}

/// Searches `votes` for a vote of validator `index` among the first `count`.
fn contains_voter(votes: &Vec<Vote>, count: usize, index: u32) -> (found: bool)
    requires
        count <= votes@.len(),
    ensures
        found == has_voted(votes@.take(count as int), index),
{
    let ghost head = votes@.take(count as int);
    let mut i: usize = 0;
    while i < count
        invariant
            i <= count <= votes@.len(),
            head == votes@.take(count as int),
            forall|j: int| 0 <= j < i ==> (#[trigger] head[j]).validator_index != index,
        decreases count - i,
    {
        if votes[i].validator_index == index {
            assert(head[i as int].validator_index == index);
            return true;
        }
        i = i + 1;
    }
    false
}

/// A finality certificate proving that a block has been finalized.
///
/// Contains the supermajority of votes needed to prove finality.
#[derive(Debug, Clone)]
pub struct FinalityCertificate {
    /// The finalized block hash.
    pub block_hash: B256,
    /// The finalized block number.
    pub block_number: u64,
    /// Votes from the supermajority that finalized this block.
    pub votes: Vec<Vote>,
    /// Total fees in the finalized block.
    pub total_fees: U256,
}

impl FinalityCertificate {
    /// Whether every vote of the certificate is for its block.
    pub open spec fn votes_match(self) -> bool {
        forall|i: int|
            0 <= i < self.votes@.len() ==> {
                let vote = #[trigger] self.votes@[i];
                vote.block_hash == self.block_hash && vote.block_number == self.block_number
            }
    }

    /// Whether the certificate proves its block final: votes of a supermajority of
    /// different validators, all for that block.
    pub open spec fn proves_finality(self, validator_count: nat) -> bool {
        &&& self.votes_match()
        &&& distinct_voters(self.votes@)
        &&& self.votes@.len() >= two_thirds(validator_count)
    }

    /// Verifies this certificate has enough votes for the given BFT config: a
    /// supermajority of distinct validators, each voting for this very block.
    pub fn is_valid(&self, config: &BftConfig) -> (valid: bool)
        requires
            2 * config.validator_count <= u32::MAX,
        ensures
            valid == self.proves_finality(config.validator_count as nat),
    {
        let mut i: usize = 0;
        while i < self.votes.len()
            invariant
                i <= self.votes@.len(),
                forall|k: int|
                    0 <= k < i ==> {
                        let vote = #[trigger] self.votes@[k];
                        vote.block_hash == self.block_hash && vote.block_number
                            == self.block_number
                    },
                forall|j: int, k: int|
                    0 <= j < k < i ==> (#[trigger] self.votes@[j]).validator_index != (
                    #[trigger] self.votes@[k]).validator_index,
            decreases self.votes@.len() - i,
        {
            if self.votes[i].block_hash != self.block_hash || self.votes[i].block_number
                != self.block_number {
                return false;
            }
            if contains_voter(&self.votes, i, self.votes[i].validator_index) {
                proof {
                    let head = self.votes@.take(i as int);
                    let j = choose|j: int|
                        0 <= j < head.len() && (#[trigger] head[j]).validator_index
                            == self.votes@[i as int].validator_index;
                    assert(self.votes@[j].validator_index == self.votes@[i as int].validator_index);
                }
                return false;
            }
            assert forall|j: int| 0 <= j < i implies (#[trigger] self.votes@[j]).validator_index
                != self.votes@[i as int].validator_index by {
                assert(self.votes@.take(i as int)[j] == self.votes@[j]);
            }
            i = i + 1;
        }
        self.votes.len() >= config.supermajority() as usize
    }

    /// Returns the number of votes in this certificate.
    pub fn vote_count(&self) -> (count: usize)
        ensures
            count == self.votes@.len(),
    {
        self.votes.len()
    }
}

/// Preconfirmation for a payment transaction.
///
/// This provides a fast, verifiable signal that a payment has been accepted
/// and will be included in the next block, without waiting for full finality.
#[derive(Debug, Clone)]
pub struct PaymentPreconfirmation {
    /// The transaction hash that was preconfirmed.
    pub tx_hash: B256,
    /// The block number this transaction is targeting.
    pub target_block: u64,
    /// The proposer that issued this preconfirmation.
    pub proposer_index: u32,
    /// Signature from the proposer.
    pub signature: Vec<u8>,
}

/// Tracks the finality state machine for blocks.
#[derive(Debug)]
pub struct FinalityTracker {
    /// The latest finalized block number.
    pub latest_finalized: u64,
    /// The latest finalized block hash.
    pub latest_finalized_hash: B256,
    /// Pending blocks awaiting finalization.
    pub pending_blocks: Vec<PendingBlock>,
}

/// A block pending finalization in the BFT pipeline.
#[derive(Debug, Clone)]
pub struct PendingBlock {
    /// Block hash.
    pub hash: B256,
    /// Block number.
    pub number: u64,
    /// Current finality state.
    pub state: BlockFinalityState,
    /// Collected votes.
    pub votes: Vec<Vote>,
}

/// What becomes of a vote for a pending block.
pub enum VoteEffect {
    /// The block is already final; the vote changes nothing.
    AlreadyFinalized,
    /// The voter is not in the committee; the vote is rejected.
    OutOfRange,
    /// The voter has voted for this block before; the vote is ignored.
    Duplicate,
    /// The vote is added and completes a supermajority.
    Finalizes,
    /// The vote is added and the block stays short of a supermajority.
    Counts,
}

impl PendingBlock {
    /// What becomes of `vote` for this block in a committee of `validator_count`.
    pub open spec fn effect_of(self, vote: Vote, validator_count: u32) -> VoteEffect {
        if self.state is Finalized {
            VoteEffect::AlreadyFinalized
        } else if vote.validator_index >= validator_count {
            VoteEffect::OutOfRange
        } else if has_voted(self.votes@, vote.validator_index) {
            VoteEffect::Duplicate
        } else if self.next_count() >= two_thirds(validator_count as nat) {
            VoteEffect::Finalizes
        } else {
            VoteEffect::Counts
        }
    }

    /// The number of votes once one more is added, as a 32-bit number.
    pub open spec fn next_count(self) -> u32 {
        (self.votes@.len() + 1) as u32
    }

    /// Whether `after` is this block with `vote` added and the given state.
    pub open spec fn becomes(
        self,
        after: PendingBlock,
        vote: Vote,
        state: BlockFinalityState,
    ) -> bool {
        &&& after.hash == self.hash
        &&& after.number == self.number
        &&& after.state == state
        &&& after.votes@ == self.votes@.push(vote)
    }

    /// Whether the record of the block is one that votes of a committee of
    /// `validator_count` lead to: each validator of the committee counts at most once,
    /// each vote is for this block, and the state says how far the votes reach. No vote
    /// leads to a rejected block.
    pub open spec fn wf(self, validator_count: u32) -> bool {
        &&& distinct_voters(self.votes@)
        &&& forall|i: int|
            0 <= i < self.votes@.len() ==> {
                let vote = #[trigger] self.votes@[i];
                vote.validator_index < validator_count && vote.block_hash == self.hash
            }
        &&& match self.state {
            BlockFinalityState::Proposed => self.votes@.len() == 0,
            BlockFinalityState::Voting { votes } => 0 < votes == self.votes@.len() < two_thirds(
                validator_count as nat,
            ),
            BlockFinalityState::Finalized => self.votes@.len() >= two_thirds(
                validator_count as nat,
            ),
            BlockFinalityState::Rejected => false,
        }
    }
}

/// Whether block `k` is the first one of hash `hash`.
pub open spec fn is_first_of_hash(blocks: Seq<PendingBlock>, k: int, hash: B256) -> bool {
    &&& 0 <= k < blocks.len()
    &&& blocks[k].hash == hash
    &&& forall|j: int| 0 <= j < k ==> (#[trigger] blocks[j]).hash != hash
}

/// Whether one of `blocks` has hash `hash`.
pub open spec fn has_hash(blocks: Seq<PendingBlock>, hash: B256) -> bool {
    exists|k: int| 0 <= k < blocks.len() && (#[trigger] blocks[k]).hash == hash
}

/// Finds the first block of hash `hash`.
fn find_block(blocks: &Vec<PendingBlock>, hash: &B256) -> (found: Option<usize>)
    ensures
        match found {
            Some(k) => is_first_of_hash(blocks@, k as int, *hash),
            None => !has_hash(blocks@, *hash),
        },
{
    let mut k: usize = 0;
    while k < blocks.len()
        invariant
            k <= blocks@.len(),
            forall|j: int| 0 <= j < k ==> (#[trigger] blocks@[j]).hash != *hash,
        decreases blocks@.len() - k,
    {
        if blocks[k].hash == *hash {
            return Some(k);
        }
        k = k + 1;
    }
    None
}

impl FinalityTracker {
    /// Whether each pending block is one that votes of a committee of
    /// `validator_count` lead to.
    pub open spec fn wf(self, validator_count: u32) -> bool {
        forall|k: int|
            0 <= k < self.pending_blocks@.len() ==> (#[trigger] self.pending_blocks@[k]).wf(
                validator_count,
            )
    }

    /// Whether a vote, in a committee of `validator_count`, takes this tracker to
    /// `after` and is answered with `state`.
    pub open spec fn takes_vote(
        self,
        after: FinalityTracker,
        vote: Vote,
        validator_count: u32,
        state: Option<BlockFinalityState>,
    ) -> bool {
        &&& !has_hash(self.pending_blocks@, vote.block_hash) ==> state is None && after == self
        &&& forall|k: int| #[trigger]
            is_first_of_hash(self.pending_blocks@, k, vote.block_hash) ==> {
                let old_block = self.pending_blocks@[k];
                let new_block = after.pending_blocks@[k];
                match old_block.effect_of(vote, validator_count) {
                    VoteEffect::AlreadyFinalized => {
                        &&& state == Some(BlockFinalityState::Finalized)
                        &&& after == self
                    },
                    VoteEffect::OutOfRange => state is None && after == self,
                    VoteEffect::Duplicate => state == Some(old_block.state) && after == self,
                    VoteEffect::Finalizes => {
                        &&& state == Some(BlockFinalityState::Finalized)
                        &&& old_block.becomes(new_block, vote, BlockFinalityState::Finalized)
                        &&& after.latest_finalized == old_block.number
                        &&& after.latest_finalized_hash == old_block.hash
                    },
                    VoteEffect::Counts => {
                        let counted = BlockFinalityState::Voting { votes: old_block.next_count() };
                        &&& state == Some(counted)
                        &&& old_block.becomes(new_block, vote, counted)
                        &&& after.latest_finalized == self.latest_finalized
                        &&& after.latest_finalized_hash == self.latest_finalized_hash
                    },
                }
            }
        &&& after.pending_blocks@.len() == self.pending_blocks@.len()
        &&& forall|j: int|
            0 <= j < self.pending_blocks@.len() && !is_first_of_hash(
                self.pending_blocks@,
                j,
                vote.block_hash,
            ) ==> #[trigger] after.pending_blocks@[j] == self.pending_blocks@[j]
    }

    /// Creates a new finality tracker starting from the given finalized block.
    pub fn new(finalized_number: u64, finalized_hash: B256) -> (tracker: Self)
        ensures
            tracker.latest_finalized == finalized_number,
            tracker.latest_finalized_hash == finalized_hash,
            tracker.pending_blocks@.len() == 0,
    {
        FinalityTracker {
            latest_finalized: finalized_number,
            latest_finalized_hash: finalized_hash,
            pending_blocks: Vec::new(),
        }
    }

    /// Records a new block proposal.
    pub fn propose_block(&mut self, hash: B256, number: u64)
        ensures
            final(self).latest_finalized == old(self).latest_finalized,
            final(self).latest_finalized_hash == old(self).latest_finalized_hash,
            final(self).pending_blocks@.len() == old(self).pending_blocks@.len() + 1,
            final(self).pending_blocks@.drop_last() == old(self).pending_blocks@,
            ({
                let block = final(self).pending_blocks@.last();
                &&& block.hash == hash
                &&& block.number == number
                &&& block.state is Proposed
                &&& block.votes@.len() == 0
            }),
            forall|validator_count: u32| #[trigger]
                old(self).wf(validator_count) ==> final(self).wf(validator_count),
    {
        self.pending_blocks.push(
            PendingBlock {
                hash,
                number,
                state: BlockFinalityState::Proposed,
                votes: Vec::new(),
            },
        );
        assert(self.pending_blocks@.drop_last() =~= old(self).pending_blocks@);
        assert forall|validator_count: u32| #[trigger]
            old(self).wf(validator_count) implies self.wf(validator_count) by {
            assert forall|k: int| 0 <= k < self.pending_blocks@.len() implies (
            #[trigger] self.pending_blocks@[k]).wf(validator_count) by {
                if k < old(self).pending_blocks@.len() {
                    assert(self.pending_blocks@[k] == old(self).pending_blocks@[k]);
                }
            }
        }
    }

    /// Records a vote for a pending block. Returns the updated finality state, or
    /// `None` where the vote is for no pending block or from outside the committee.
    ///
    /// A second vote of one validator is ignored, as is any vote for a block that is
    /// already final.
    pub fn add_vote(&mut self, vote: Vote, config: &BftConfig) -> (state: Option<
        BlockFinalityState,
    >)
        requires
            forall|k: int| #[trigger]
                is_first_of_hash(old(self).pending_blocks@, k, vote.block_hash) && (
                old(self).pending_blocks@[k].effect_of(vote, config.validator_count) is Finalizes
                    || old(self).pending_blocks@[k].effect_of(vote, config.validator_count)
                    is Counts) ==> 2 * config.validator_count <= u32::MAX,
        ensures
            old(self).takes_vote(*final(self), vote, config.validator_count, state),
            old(self).wf(config.validator_count) ==> final(self).wf(config.validator_count),
    {
        let k: usize = match find_block(&self.pending_blocks, &vote.block_hash) {
            Some(k) => k,
            None => {
                return None;
            },
        };
        let ghost before = self.pending_blocks@[k as int];
        assert forall|j: int| #[trigger]
            is_first_of_hash(self.pending_blocks@, j, vote.block_hash) implies j == k by {
            if j < k {
                assert(self.pending_blocks@[j].hash != vote.block_hash);
            } else if k < j {
                assert(self.pending_blocks@[k as int].hash != vote.block_hash);
            }
        }
        if self.pending_blocks[k].state == BlockFinalityState::Finalized {
            return Some(BlockFinalityState::Finalized);
        }
        if vote.validator_index >= config.validator_count {
            return None;
        }
        let cast: usize = self.pending_blocks[k].votes.len();
        assert(before.votes@.take(cast as int) =~= before.votes@);
        if contains_voter(&self.pending_blocks[k].votes, cast, vote.validator_index) {
            return Some(self.pending_blocks[k].state);
        }
        let ghost added = vote;
        let supermajority: u32 = config.supermajority();
        self.pending_blocks[k].votes.push(vote);
        let vote_count: u32 = self.pending_blocks[k].votes.len() as u32;
        assert(vote_count == before.next_count());
        if vote_count >= supermajority {
            self.pending_blocks[k].state = BlockFinalityState::Finalized;
            self.latest_finalized = self.pending_blocks[k].number;
            self.latest_finalized_hash = self.pending_blocks[k].hash;
            proof {
                lemma_wf_after_vote(
                    *old(self),
                    *self,
                    k as int,
                    added,
                    BlockFinalityState::Finalized,
                    config.validator_count,
                );
            }
            Some(BlockFinalityState::Finalized)
        } else {
            self.pending_blocks[k].state = BlockFinalityState::Voting { votes: vote_count };
            proof {
                lemma_wf_after_vote(
                    *old(self),
                    *self,
                    k as int,
                    added,
                    BlockFinalityState::Voting { votes: vote_count },
                    config.validator_count,
                );
            }
            Some(BlockFinalityState::Voting { votes: vote_count })
        }
    }

    /// Prunes the blocks at or below the latest finalized block less `keep`.
    pub fn prune(&mut self, keep: u64)
        ensures
            final(self).latest_finalized == old(self).latest_finalized,
            final(self).latest_finalized_hash == old(self).latest_finalized_hash,
            final(self).pending_blocks@ == (if old(self).latest_finalized > keep {
                old(self).pending_blocks@.filter(
                    |block: PendingBlock| block.number > old(self).latest_finalized - keep,
                )
            } else {
                old(self).pending_blocks@
            }),
            forall|validator_count: u32| #[trigger]
                old(self).wf(validator_count) ==> final(self).wf(validator_count),
    {
        if self.latest_finalized > keep {
            let cutoff: u64 = self.latest_finalized - keep;
            let ghost blocks = self.pending_blocks@;
            let ghost kept = |block: PendingBlock|
                block.number > old(self).latest_finalized - keep;
            let mut reversed: Vec<PendingBlock> = Vec::new();
            while self.pending_blocks.len() > 0
                invariant
                    self.latest_finalized == old(self).latest_finalized,
                    self.latest_finalized_hash == old(self).latest_finalized_hash,
                    self.pending_blocks@.len() + reversed@.len() == blocks.len(),
                    self.pending_blocks@ == blocks.take(self.pending_blocks@.len() as int),
                    forall|i: int|
                        0 <= i < reversed@.len() ==> reversed@[i] == blocks[blocks.len() - 1 - i],
                decreases self.pending_blocks@.len(),
            {
                let ghost last = self.pending_blocks@.len() - 1;
                if let Some(block) = self.pending_blocks.pop() {
                    assert(self.pending_blocks@ =~= blocks.take(last));
                    reversed.push(block);
                }
            }
            proof {
                reveal(Seq::filter);
                assert(self.pending_blocks@ =~= blocks.take(0).filter(kept));
            }
            while reversed.len() > 0
                invariant
                    self.latest_finalized == old(self).latest_finalized,
                    self.latest_finalized_hash == old(self).latest_finalized_hash,
                    cutoff == old(self).latest_finalized - keep,
                    kept == (|block: PendingBlock|
                        block.number > old(self).latest_finalized - keep),
                    reversed@.len() <= blocks.len(),
                    forall|i: int|
                        0 <= i < reversed@.len() ==> reversed@[i] == blocks[blocks.len() - 1 - i],
                    self.pending_blocks@ == blocks.take(blocks.len() - reversed@.len()).filter(
                        kept,
                    ),
                decreases reversed@.len(),
            {
                let ghost done = blocks.len() - reversed@.len();
                if let Some(block) = reversed.pop() {
                    proof {
                        reveal(Seq::filter);
                        assert(blocks.take(done + 1).drop_last() =~= blocks.take(done));
                        assert(blocks.take(done + 1).last() == block);
                    }
                    if block.number > cutoff {
                        self.pending_blocks.push(block);
                    }
                }
            }
            assert(blocks.take(blocks.len() as int) =~= blocks);
            assert forall|validator_count: u32| #[trigger]
                old(self).wf(validator_count) implies self.wf(validator_count) by {
                assert forall|k: int| 0 <= k < self.pending_blocks@.len() implies (
                #[trigger] self.pending_blocks@[k]).wf(validator_count) by {
                    let block = self.pending_blocks@[k];
                    assert(blocks.filter(kept).contains(block));
                    blocks.lemma_filter_contains_rev(kept, block);
                    let i = choose|i: int| 0 <= i < blocks.len() && blocks[i] == block;
                    assert(old(self).pending_blocks@[i].wf(validator_count));
                }
            }
        }
    }
}

impl Default for FinalityTracker {
    fn default() -> (tracker: Self)
        ensures
            tracker.latest_finalized == 0,
            tracker.latest_finalized_hash.is_zero(),
            tracker.pending_blocks@.len() == 0,
    {
        FinalityTracker::new(0, B256::zero())
    }
}

/// Adding a new voter of the committee keeps the records well-formed.
proof fn lemma_wf_after_vote(
    before: FinalityTracker,
    after: FinalityTracker,
    k: int,
    vote: Vote,
    state: BlockFinalityState,
    validator_count: u32,
)
    requires
        0 <= k < before.pending_blocks@.len() == after.pending_blocks@.len(),
        forall|j: int|
            0 <= j < before.pending_blocks@.len() && j != k ==> #[trigger] after.pending_blocks@[j]
                == before.pending_blocks@[j],
        before.pending_blocks@[k].becomes(after.pending_blocks@[k], vote, state),
        before.pending_blocks@[k].hash == vote.block_hash,
        vote.validator_index < validator_count,
        2 * validator_count <= u32::MAX,
        !has_voted(before.pending_blocks@[k].votes@, vote.validator_index),
        state == (if before.pending_blocks@[k].next_count() >= two_thirds(validator_count as nat) {
            BlockFinalityState::Finalized
        } else {
            BlockFinalityState::Voting { votes: before.pending_blocks@[k].next_count() }
        }),
    ensures
        before.wf(validator_count) ==> after.wf(validator_count),
{
    if before.wf(validator_count) {
        let old_block = before.pending_blocks@[k];
        let new_block = after.pending_blocks@[k];
        assert(old_block.wf(validator_count));
        assert(distinct_voters(new_block.votes@)) by {
            assert forall|i: int, j: int| 0 <= i < j < new_block.votes@.len() implies (
            #[trigger] new_block.votes@[i]).validator_index != (
            #[trigger] new_block.votes@[j]).validator_index by {
                assert(new_block.votes@[i] == old_block.votes@[i]);
                if j < old_block.votes@.len() {
                    assert(new_block.votes@[j] == old_block.votes@[j]);
                }
            }
        }
        lemma_voters_bounded(new_block.votes@, validator_count as nat);
        assert forall|j: int| 0 <= j < after.pending_blocks@.len() implies (
        #[trigger] after.pending_blocks@[j]).wf(validator_count) by {
            if j != k {
                assert(before.pending_blocks@[j].wf(validator_count));
            }
        }
    }
}

/// Different voters below `validator_count` are at most `validator_count`, and as many
/// as there are votes.
proof fn lemma_voters_bounded(votes: Seq<Vote>, validator_count: nat)
    requires
        distinct_voters(votes),
        forall|i: int|
            0 <= i < votes.len() ==> (#[trigger] votes[i]).validator_index < validator_count,
    ensures
        voters(votes).finite(),
        voters(votes).len() == votes.len() <= validator_count,
        voters(votes).subset_of(vstd::set_lib::set_int_range(0, validator_count as int)),
{
    let indices = votes.map_values(|vote: Vote| vote.validator_index as int);
    assert(indices.no_duplicates());
    indices.unique_seq_to_set();
    let committee = vstd::set_lib::set_int_range(0, validator_count as int);
    vstd::set_lib::lemma_int_range(0, validator_count as int);
    assert forall|v: int| voters(votes).contains(v) implies committee.contains(v) by {
        let i = choose|i: int| 0 <= i < indices.len() && indices[i] == v;
        assert(votes[i].validator_index == v);
    }
    vstd::set_lib::lemma_len_subset(voters(votes), committee);
}

/// With the largest fault tolerance that `3f + 1` validators allow, the quorum of
/// `2f + 1` is the supermajority.
pub proof fn law_quorum_is_supermajority(fault_tolerance: nat)
    ensures
        two_thirds(3 * fault_tolerance + 1) == 2 * fault_tolerance + 1,
{
}

/// A supermajority can be reached without the validators that may fail: where at
/// least two thirds are honest, they are a supermajority.
pub proof fn law_honest_two_thirds_suffice(validators: nat, honest: nat)
    requires
        3 * honest >= 2 * validators,
    ensures
        honest >= two_thirds(validators),
{
}

/// Two supermajorities of one committee share at least a third of it.
pub proof fn law_supermajorities_overlap(a: Seq<Vote>, b: Seq<Vote>, validator_count: nat)
    requires
        distinct_voters(a),
        distinct_voters(b),
        forall|i: int| 0 <= i < a.len() ==> (#[trigger] a[i]).validator_index < validator_count,
        forall|i: int| 0 <= i < b.len() ==> (#[trigger] b[i]).validator_index < validator_count,
        a.len() >= two_thirds(validator_count),
        b.len() >= two_thirds(validator_count),
    ensures
        3 * voters(a).intersect(voters(b)).len() >= validator_count,
{
    let committee = vstd::set_lib::set_int_range(0, validator_count as int);
    lemma_voters_bounded(a, validator_count);
    lemma_voters_bounded(b, validator_count);
    vstd::set_lib::lemma_int_range(0, validator_count as int);
    vstd::set_lib::lemma_set_intersect_union_lens(voters(a), voters(b));
    assert((voters(a) + voters(b)).subset_of(committee));
    vstd::set_lib::lemma_len_subset(voters(a) + voters(b), committee);
}

/// Safety of certificates: as long as fewer than a third of the validators vote for two
/// blocks of one height, no two certificates prove different blocks of that height
/// final.
pub proof fn law_certificates_do_not_conflict(
    a: FinalityCertificate,
    b: FinalityCertificate,
    validator_count: nat,
    byzantine: Set<int>,
)
    requires
        a.proves_finality(validator_count),
        b.proves_finality(validator_count),
        forall|i: int|
            0 <= i < a.votes@.len() ==> (#[trigger] a.votes@[i]).validator_index < validator_count,
        forall|i: int|
            0 <= i < b.votes@.len() ==> (#[trigger] b.votes@[i]).validator_index < validator_count,
        a.block_number == b.block_number,
        byzantine.finite(),
        3 * byzantine.len() < validator_count,
        a.block_hash != b.block_hash ==> forall|v: int|
            voters(a.votes@).contains(v) && voters(b.votes@).contains(v) ==> byzantine.contains(v),
    ensures
        a.block_hash == b.block_hash,
{
    if a.block_hash != b.block_hash {
        law_supermajorities_overlap(a.votes@, b.votes@, validator_count);
        let common = voters(a.votes@).intersect(voters(b.votes@));
        assert(common.subset_of(byzantine));
        vstd::set_lib::lemma_len_subset(common, byzantine);
    }
}

/// Safety of finalized blocks: as long as fewer than a third of the validators vote for
/// two blocks of one height, no two different blocks of that height are finalized, be
/// they of one tracker, of one tracker at different times, or of two nodes.
pub proof fn law_finalized_blocks_agree(
    a: PendingBlock,
    b: PendingBlock,
    validator_count: u32,
    byzantine: Set<int>,
)
    requires
        a.wf(validator_count),
        b.wf(validator_count),
        a.state is Finalized,
        b.state is Finalized,
        a.number == b.number,
        byzantine.finite(),
        3 * byzantine.len() < validator_count,
        a.hash != b.hash ==> forall|v: int|
            voters(a.votes@).contains(v) && voters(b.votes@).contains(v) ==> byzantine.contains(v),
    ensures
        a.hash == b.hash,
{
    if a.hash != b.hash {
        law_supermajorities_overlap(a.votes@, b.votes@, validator_count as nat);
        let common = voters(a.votes@).intersect(voters(b.votes@));
        assert(common.subset_of(byzantine));
        vstd::set_lib::lemma_len_subset(common, byzantine);
    }
}

/// Safety of the tracker: as long as fewer than a third of the validators vote for two
/// blocks of one height, no two different blocks of that height are finalized in it.
pub proof fn law_finalized_blocks_do_not_conflict(
    tracker: FinalityTracker,
    i: int,
    j: int,
    validator_count: u32,
    byzantine: Set<int>,
)
    requires
        tracker.wf(validator_count),
        0 <= i < tracker.pending_blocks@.len(),
        0 <= j < tracker.pending_blocks@.len(),
        tracker.pending_blocks@[i].state is Finalized,
        tracker.pending_blocks@[j].state is Finalized,
        tracker.pending_blocks@[i].number == tracker.pending_blocks@[j].number,
        byzantine.finite(),
        3 * byzantine.len() < validator_count,
        tracker.pending_blocks@[i].hash != tracker.pending_blocks@[j].hash ==> forall|v: int|
            voters(tracker.pending_blocks@[i].votes@).contains(v) && voters(
                tracker.pending_blocks@[j].votes@,
            ).contains(v) ==> byzantine.contains(v),
    ensures
        tracker.pending_blocks@[i].hash == tracker.pending_blocks@[j].hash,
{
    law_finalized_blocks_agree(
        tracker.pending_blocks@[i],
        tracker.pending_blocks@[j],
        validator_count,
        byzantine,
    );
}

/// The votes of a finalized block certify it: where they carry its number, a certificate
/// made of them proves it final.
pub proof fn law_finalized_block_has_a_certificate(
    block: PendingBlock,
    validator_count: u32,
    certificate: FinalityCertificate,
)
    requires
        block.wf(validator_count),
        block.state is Finalized,
        forall|i: int|
            0 <= i < block.votes@.len() ==> (#[trigger] block.votes@[i]).block_number
                == block.number,
        certificate.block_hash == block.hash,
        certificate.block_number == block.number,
        certificate.votes@ == block.votes@,
    ensures
        certificate.proves_finality(validator_count as nat),
{
}

/// Liveness: once every validator of an honest two thirds has voted for a block, the
/// block is finalized.
pub proof fn law_honest_votes_finalize(
    block: PendingBlock,
    validator_count: u32,
    honest: Set<int>,
)
    requires
        block.wf(validator_count),
        validator_count > 0,
        3 * honest.len() >= 2 * validator_count,
        honest.finite(),
        honest.subset_of(voters(block.votes@)),
    ensures
        block.state is Finalized,
{
    lemma_voters_bounded(block.votes@, validator_count as nat);
    vstd::set_lib::lemma_len_subset(honest, voters(block.votes@));
}

/// Finality is irreversible: no vote changes the record of a finalized block.
pub proof fn law_votes_keep_finalized_blocks(
    before: FinalityTracker,
    after: FinalityTracker,
    vote: Vote,
    validator_count: u32,
    state: Option<BlockFinalityState>,
    k: int,
)
    requires
        before.takes_vote(after, vote, validator_count, state),
        0 <= k < before.pending_blocks@.len(),
        before.pending_blocks@[k].state is Finalized,
    ensures
        after.pending_blocks@[k] == before.pending_blocks@[k],
{
    if is_first_of_hash(before.pending_blocks@, k, vote.block_hash) {
        assert(after == before);
    }
}

/// No reorganisation: a vote moves the latest finalized block forward or leaves it,
/// where the block voted for is not below it.
pub proof fn law_latest_finalized_does_not_go_back(
    before: FinalityTracker,
    after: FinalityTracker,
    vote: Vote,
    validator_count: u32,
    state: Option<BlockFinalityState>,
)
    requires
        before.takes_vote(after, vote, validator_count, state),
        forall|k: int| #[trigger]
            is_first_of_hash(before.pending_blocks@, k, vote.block_hash)
                ==> before.pending_blocks@[k].number >= before.latest_finalized,
    ensures
        after.latest_finalized >= before.latest_finalized,
{
    if has_hash(before.pending_blocks@, vote.block_hash) {
        lemma_first_exists(before.pending_blocks@, vote.block_hash, 0);
    }
}

/// Where a block has the hash, a first one has it.
proof fn lemma_first_exists(blocks: Seq<PendingBlock>, hash: B256, from: int)
    requires
        has_hash(blocks, hash),
        0 <= from <= blocks.len(),
        forall|j: int| 0 <= j < from ==> (#[trigger] blocks[j]).hash != hash,
    ensures
        exists|k: int| #[trigger] is_first_of_hash(blocks, k, hash),
    decreases blocks.len() - from,
{
    let k = choose|k: int| 0 <= k < blocks.len() && (#[trigger] blocks[k]).hash == hash;
    if blocks[from].hash == hash {
        assert(is_first_of_hash(blocks, from, hash));
    } else {
        lemma_first_exists(blocks, hash, from + 1);
    }
}

/// What pruning at a cutoff keeps: the blocks above the cutoff, whatever their state.
pub proof fn law_prune_keeps_blocks_above_cutoff(
    blocks: Seq<PendingBlock>,
    cutoff: int,
    block: PendingBlock,
)
    ensures
        blocks.filter(|b: PendingBlock| b.number > cutoff).contains(block) <==> blocks.contains(
            block,
        ) && block.number > cutoff,
{
    let kept = |b: PendingBlock| b.number > cutoff;
    if blocks.filter(kept).contains(block) {
        blocks.lemma_filter_contains_rev(kept, block);
        let k = choose|k: int|
            0 <= k < blocks.filter(kept).len() && blocks.filter(kept)[k] == block;
        blocks.lemma_filter_pred(kept, k);
    }
    if blocks.contains(block) && block.number > cutoff {
        let i = choose|i: int| 0 <= i < blocks.len() && blocks[i] == block;
        blocks.lemma_filter_contains(kept, i);
    }
}

/// A supermajority is the smallest number of validators that is at least two thirds of
/// the committee.
pub proof fn law_supermajority_is_the_least_two_thirds(validators: nat, votes: nat)
    ensures
        votes >= two_thirds(validators) <==> 3 * votes >= 2 * validators,
{
}

/// A certificate proves its block final exactly if every vote is for its hash and its
/// number, no two votes are of one validator, and the votes are at least two thirds of
/// the committee.
pub proof fn law_certificate_proves_finality_exactly_if(
    certificate: FinalityCertificate,
    validator_count: nat,
)
    ensures
        certificate.proves_finality(validator_count) <==> {
            let votes = certificate.votes@;
            &&& forall|i: int|
                0 <= i < votes.len() ==> (#[trigger] votes[i]).block_hash == certificate.block_hash
                    && votes[i].block_number == certificate.block_number
            &&& forall|i: int, j: int|
                0 <= i < j < votes.len() ==> (#[trigger] votes[i]).validator_index != (
                #[trigger] votes[j]).validator_index
            &&& 3 * votes.len() >= 2 * validator_count
        },
{
}

/// Every validator of the committee is heard: the first vote of a validator for a pending
/// block that is not final is added to the votes of the block, whatever its index, its
/// number and its signature. It is answered with the number of votes, or with finality
/// once the votes are at least two thirds of the committee, and then the block is the
/// latest finalized one.
pub proof fn law_every_validator_is_heard(
    before: FinalityTracker,
    after: FinalityTracker,
    vote: Vote,
    validator_count: u32,
    state: Option<BlockFinalityState>,
    k: int,
)
    requires
        before.takes_vote(after, vote, validator_count, state),
        0 <= k < before.pending_blocks@.len(),
        before.pending_blocks@[k].hash == vote.block_hash,
        forall|j: int|
            0 <= j < k ==> (#[trigger] before.pending_blocks@[j]).hash != vote.block_hash,
        before.pending_blocks@[k].state != BlockFinalityState::Finalized,
        vote.validator_index < validator_count,
        forall|i: int|
            0 <= i < before.pending_blocks@[k].votes@.len() ==> (
            #[trigger] before.pending_blocks@[k].votes@[i]).validator_index
                != vote.validator_index,
        before.pending_blocks@[k].votes@.len() < u32::MAX,
    ensures
        ({
            let block = before.pending_blocks@[k];
            let count = block.votes@.len() + 1;
            &&& after.pending_blocks@[k].hash == block.hash
            &&& after.pending_blocks@[k].number == block.number
            &&& after.pending_blocks@[k].votes@ == block.votes@.push(vote)
            &&& Some(after.pending_blocks@[k].state) == state
            &&& if 3 * count >= 2 * validator_count {
                &&& state == Some(BlockFinalityState::Finalized)
                &&& after.latest_finalized == block.number
                &&& after.latest_finalized_hash == block.hash
            } else {
                &&& state == Some(BlockFinalityState::Voting { votes: count as u32 })
                &&& after.latest_finalized == before.latest_finalized
                &&& after.latest_finalized_hash == before.latest_finalized_hash
            }
        }),
{
    assert(is_first_of_hash(before.pending_blocks@, k, vote.block_hash));
    assert(!has_voted(before.pending_blocks@[k].votes@, vote.validator_index));
}

/// A vote that does not count changes nothing: one for a block that is already final is
/// answered with finality, one from outside the committee with nothing, and a second one
/// of a validator with the state of the block.
pub proof fn law_votes_that_do_not_count_change_nothing(
    before: FinalityTracker,
    after: FinalityTracker,
    vote: Vote,
    validator_count: u32,
    state: Option<BlockFinalityState>,
    k: int,
)
    requires
        before.takes_vote(after, vote, validator_count, state),
        0 <= k < before.pending_blocks@.len(),
        before.pending_blocks@[k].hash == vote.block_hash,
        forall|j: int|
            0 <= j < k ==> (#[trigger] before.pending_blocks@[j]).hash != vote.block_hash,
        before.pending_blocks@[k].state == BlockFinalityState::Finalized || vote.validator_index
            >= validator_count || exists|i: int|
            0 <= i < before.pending_blocks@[k].votes@.len() && (
            #[trigger] before.pending_blocks@[k].votes@[i]).validator_index
                == vote.validator_index,
    ensures
        after == before,
        if before.pending_blocks@[k].state == BlockFinalityState::Finalized {
            state == Some(BlockFinalityState::Finalized)
        } else if vote.validator_index >= validator_count {
            state is None
        } else {
            state == Some(before.pending_blocks@[k].state)
        },
{
    assert(is_first_of_hash(before.pending_blocks@, k, vote.block_hash));
}

/// A vote for no pending block is answered with nothing and changes nothing.
pub proof fn law_votes_for_unknown_blocks_change_nothing(
    before: FinalityTracker,
    after: FinalityTracker,
    vote: Vote,
    validator_count: u32,
    state: Option<BlockFinalityState>,
)
    requires
        before.takes_vote(after, vote, validator_count, state),
        forall|j: int|
            0 <= j < before.pending_blocks@.len() ==> (#[trigger] before.pending_blocks@[j]).hash
                != vote.block_hash,
    ensures
        after == before,
        state is None,
{
}

/// A vote concerns its block alone: the records of all other blocks, and of later blocks
/// of the same hash, stay as they are, and none comes or goes.
pub proof fn law_votes_leave_other_blocks(
    before: FinalityTracker,
    after: FinalityTracker,
    vote: Vote,
    validator_count: u32,
    state: Option<BlockFinalityState>,
    j: int,
)
    requires
        before.takes_vote(after, vote, validator_count, state),
        0 <= j < before.pending_blocks@.len(),
        before.pending_blocks@[j].hash != vote.block_hash || exists|k: int|
            0 <= k < j && (#[trigger] before.pending_blocks@[k]).hash == vote.block_hash,
    ensures
        after.pending_blocks@.len() == before.pending_blocks@.len(),
        after.pending_blocks@[j] == before.pending_blocks@[j],
{
    assert(!is_first_of_hash(before.pending_blocks@, j, vote.block_hash));
}

/// What the record of a block means: different validators of the committee, each voting
/// for this block, none while it is proposed, fewer than two thirds of the committee
/// while it is voted on and at least that once it is final.
pub proof fn law_records_mean_their_votes(block: PendingBlock, validator_count: u32)
    requires
        block.wf(validator_count),
    ensures
        forall|i: int|
            0 <= i < block.votes@.len() ==> (#[trigger] block.votes@[i]).validator_index
                < validator_count && block.votes@[i].block_hash == block.hash,
        forall|i: int, j: int|
            0 <= i < j < block.votes@.len() ==> (#[trigger] block.votes@[i]).validator_index != (
            #[trigger] block.votes@[j]).validator_index,
        block.state == BlockFinalityState::Proposed ==> block.votes@.len() == 0,
        block.state == BlockFinalityState::Finalized <==> 3 * block.votes@.len() >= 2
            * validator_count && block.state != BlockFinalityState::Proposed,
        block.state matches BlockFinalityState::Voting { votes } ==> votes == block.votes@.len(),
        block.state != BlockFinalityState::Rejected,
{
}

} // verus!

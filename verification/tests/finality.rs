use payment_lane::finality::{
    BftConfig, BlockFinalityState, FinalityCertificate, FinalityTracker, PaymentPreconfirmation,
    Vote,
};
use payment_lane::primitives::{Duration, B256, U256};

fn vote(validator_index: u32, block_hash: B256, block_number: u64) -> Vote {
    Vote { validator_index, block_hash, block_number, signature: vec![validator_index as u8] }
}

#[test]
fn test_bft_config_defaults() {
    let config = BftConfig::default();
    assert_eq!(config.validator_count, 4);
    assert_eq!(config.fault_tolerance, 1);
    assert_eq!(config.quorum_size(), 3);
    assert_eq!(config.supermajority(), 3);
}

#[test]
fn test_finality_tracker_basic_flow() {
    let config = BftConfig::default();
    let mut tracker = FinalityTracker::new(0, B256::zero());

    let block_hash = B256 { bytes: [1u8; 32] };
    tracker.propose_block(block_hash, 1);

    // Add votes until supermajority
    for i in 0..3 {
        let vote =
            Vote { validator_index: i, block_hash, block_number: 1, signature: vec![i as u8] };
        let state = tracker.add_vote(vote, &config);
        if i < 2 {
            assert!(matches!(state, Some(BlockFinalityState::Voting { .. })));
        } else {
            assert_eq!(state, Some(BlockFinalityState::Finalized));
        }
    }

    assert_eq!(tracker.latest_finalized, 1);
    assert_eq!(tracker.latest_finalized_hash, block_hash);
}

#[test]
fn test_finality_certificate_validation() {
    let config = BftConfig::default();

    let cert = FinalityCertificate {
        block_hash: B256 { bytes: [1u8; 32] },
        block_number: 1,
        votes: vec![
            Vote {
                validator_index: 0,
                block_hash: B256 { bytes: [1u8; 32] },
                block_number: 1,
                signature: vec![0],
            },
            Vote {
                validator_index: 1,
                block_hash: B256 { bytes: [1u8; 32] },
                block_number: 1,
                signature: vec![1],
            },
            Vote {
                validator_index: 2,
                block_hash: B256 { bytes: [1u8; 32] },
                block_number: 1,
                signature: vec![2],
            },
        ],
        total_fees: U256::zero(),
    };

    assert!(cert.is_valid(&config));
    assert_eq!(cert.vote_count(), 3);

    // Insufficient votes
    let bad_cert = FinalityCertificate { votes: vec![cert.votes[0].clone()], ..cert };
    assert!(!bad_cert.is_valid(&config));
}

#[test]
fn test_preconfirmation() {
    let preconf = PaymentPreconfirmation {
        tx_hash: B256 { bytes: [0xAA; 32] },
        target_block: 42,
        proposer_index: 0,
        signature: vec![1, 2, 3],
    };
    assert_eq!(preconf.target_block, 42);
}

#[test]
fn test_prune_old_blocks() {
    let mut tracker = FinalityTracker::new(0, B256::zero());

    for i in 1..=10 {
        tracker.propose_block(B256 { bytes: [i as u8; 32] }, i);
    }
    tracker.latest_finalized = 10;

    tracker.prune(5);
    assert!(tracker.pending_blocks.iter().all(|b| b.number > 5));
}

#[test]
fn test_bft_fault_tolerance_scales() {
    // 10 validators: f=3, quorum=7, supermajority=7
    let config = BftConfig { validator_count: 10, fault_tolerance: 3, ..Default::default() };
    assert_eq!(config.quorum_size(), 7);
    assert_eq!(config.supermajority(), 7);
}

#[test]
fn test_block_finality_state_display() {
    assert_eq!(BlockFinalityState::Proposed.to_string(), "proposed");
    assert_eq!(BlockFinalityState::Voting { votes: 2 }.to_string(), "voting (2 votes)");
    assert_eq!(BlockFinalityState::Finalized.to_string(), "finalized");
    assert_eq!(BlockFinalityState::Rejected.to_string(), "rejected");
}

#[test]
fn default_timeouts() {
    let config = BftConfig::default();
    assert_eq!(config.block_interval, Duration { secs: 0, nanos: 600_000_000 });
    assert_eq!(config.proposal_timeout, Duration { secs: 0, nanos: 400_000_000 });
    assert_eq!(config.vote_timeout, Duration { secs: 0, nanos: 200_000_000 });
    assert_eq!(Duration::from_millis(12_345), Duration { secs: 12, nanos: 345_000_000 });
}

#[test]
fn supermajority_rounds_up() {
    for (validator_count, votes) in [(0, 0), (1, 1), (2, 2), (3, 2), (4, 3), (5, 4), (6, 4), (7, 5)] {
        let config = BftConfig { validator_count, ..Default::default() };
        assert_eq!(config.supermajority(), votes);
    }
}

#[test]
fn vote_for_an_unknown_block_changes_nothing() {
    let config = BftConfig::default();
    let mut tracker = FinalityTracker::new(7, B256::zero());
    tracker.propose_block(B256 { bytes: [1; 32] }, 8);
    assert_eq!(tracker.add_vote(vote(0, B256 { bytes: [2; 32] }, 8), &config), None);
    assert_eq!(tracker.pending_blocks[0].state, BlockFinalityState::Proposed);
    assert_eq!(tracker.latest_finalized, 7);
}

#[test]
fn second_vote_of_a_validator_is_ignored() {
    let config = BftConfig::default();
    let mut tracker = FinalityTracker::new(0, B256::zero());
    let hash = B256 { bytes: [1; 32] };
    tracker.propose_block(hash, 1);
    let voting = Some(BlockFinalityState::Voting { votes: 1 });
    assert_eq!(tracker.add_vote(vote(0, hash, 1), &config), voting);
    assert_eq!(tracker.add_vote(vote(0, hash, 1), &config), voting);
    assert_eq!(tracker.add_vote(vote(0, hash, 1), &config), voting);
    assert_eq!(tracker.pending_blocks[0].votes.len(), 1);
}

#[test]
fn vote_from_outside_the_committee_is_rejected() {
    let config = BftConfig::default();
    let mut tracker = FinalityTracker::new(0, B256::zero());
    let hash = B256 { bytes: [1; 32] };
    tracker.propose_block(hash, 1);
    assert_eq!(tracker.add_vote(vote(4, hash, 1), &config), None);
    assert!(tracker.pending_blocks[0].votes.is_empty());
}

#[test]
fn final_block_takes_no_more_votes() {
    let config = BftConfig::default();
    let mut tracker = FinalityTracker::new(0, B256::zero());
    let hash = B256 { bytes: [1; 32] };
    tracker.propose_block(hash, 1);
    for i in 0..3 {
        tracker.add_vote(vote(i, hash, 1), &config);
    }
    assert_eq!(tracker.add_vote(vote(3, hash, 1), &config), Some(BlockFinalityState::Finalized));
    assert_eq!(tracker.pending_blocks[0].votes.len(), 3);
}

#[test]
fn certificate_needs_distinct_voters_for_its_block() {
    let config = BftConfig::default();
    let hash = B256 { bytes: [1; 32] };
    let other = B256 { bytes: [2; 32] };
    let certificate = |votes: Vec<Vote>| FinalityCertificate {
        block_hash: hash,
        block_number: 1,
        votes,
        total_fees: U256::zero(),
    };
    let three = vec![vote(0, hash, 1), vote(1, hash, 1), vote(2, hash, 1)];
    assert!(certificate(three).is_valid(&config));
    let repeated = vec![vote(0, hash, 1), vote(1, hash, 1), vote(1, hash, 1)];
    assert!(!certificate(repeated).is_valid(&config));
    let wrong_hash = vec![vote(0, hash, 1), vote(1, hash, 1), vote(2, other, 1)];
    assert!(!certificate(wrong_hash).is_valid(&config));
    let wrong_number = vec![vote(0, hash, 1), vote(1, hash, 1), vote(2, hash, 2)];
    assert!(!certificate(wrong_number).is_valid(&config));
}

#[test]
fn two_certificates_cannot_conflict() {
    // Of four validators one is faulty and votes twice: no second block is certified.
    let config = BftConfig::default();
    let certificate = |hash: B256, voters: &[u32]| FinalityCertificate {
        block_hash: hash,
        block_number: 1,
        votes: voters.iter().map(|voter| vote(*voter, hash, 1)).collect(),
        total_fees: U256::zero(),
    };
    let a = B256 { bytes: [1; 32] };
    let b = B256 { bytes: [2; 32] };
    assert!(certificate(a, &[0, 1, 2]).is_valid(&config));
    assert!(!certificate(b, &[2, 3]).is_valid(&config));
}

#[test]
fn prune_keeps_what_is_above_the_cutoff() {
    let mut tracker = FinalityTracker::new(0, B256::zero());
    for i in 1..=10u64 {
        tracker.propose_block(B256 { bytes: [i as u8; 32] }, i);
    }
    // Nothing is final yet: nothing is pruned.
    tracker.prune(5);
    assert_eq!(tracker.pending_blocks.len(), 10);
    tracker.latest_finalized = 10;
    tracker.prune(3);
    let left: Vec<u64> = tracker.pending_blocks.iter().map(|block| block.number).collect();
    assert_eq!(left, vec![8, 9, 10]);
    tracker.prune(10);
    assert_eq!(tracker.pending_blocks.len(), 3);
}

#[test]
fn default_tracker_starts_at_zero() {
    let tracker = FinalityTracker::default();
    assert_eq!(tracker.latest_finalized, 0);
    assert_eq!(tracker.latest_finalized_hash, B256::zero());
    assert_eq!(B256::default(), B256::zero());
    assert!(tracker.pending_blocks.is_empty());
}

#[test]
fn finalized_block_has_a_certificate() {
    let config = BftConfig::default();
    let mut tracker = FinalityTracker::new(0, B256::zero());
    let hash = B256 { bytes: [1; 32] };
    tracker.propose_block(hash, 1);
    for i in 0..3 {
        tracker.add_vote(vote(i, hash, 1), &config);
    }
    let block = &tracker.pending_blocks[0];
    let certificate = FinalityCertificate {
        block_hash: block.hash,
        block_number: block.number,
        votes: block.votes.clone(),
        total_fees: U256::zero(),
    };
    assert!(certificate.is_valid(&config));
}

#[test]
fn quorum_is_the_supermajority_of_three_f_plus_one() {
    for fault_tolerance in 0..50 {
        let config = BftConfig {
            validator_count: 3 * fault_tolerance + 1,
            fault_tolerance,
            ..Default::default()
        };
        assert_eq!(config.quorum_size(), config.supermajority());
        // Two quorums share more validators than may fail.
        assert!(2 * config.quorum_size() - config.validator_count > fault_tolerance);
    }
}

#[test]
fn tracker_finalizes_one_block_of_a_height() {
    // Validator 2 votes for both blocks; the others vote once.
    let config = BftConfig::default();
    let mut tracker = FinalityTracker::new(0, B256::zero());
    let a = B256 { bytes: [1; 32] };
    let b = B256 { bytes: [2; 32] };
    tracker.propose_block(a, 1);
    tracker.propose_block(b, 1);
    for voter in [0, 1, 2] {
        tracker.add_vote(vote(voter, a, 1), &config);
    }
    for voter in [2, 3] {
        tracker.add_vote(vote(voter, b, 1), &config);
    }
    assert_eq!(tracker.pending_blocks[0].state, BlockFinalityState::Finalized);
    assert_eq!(tracker.pending_blocks[1].state, BlockFinalityState::Voting { votes: 2 });
    assert_eq!(tracker.latest_finalized_hash, a);
}

#[test]
fn latest_finalized_moves_forward() {
    let config = BftConfig::default();
    let mut tracker = FinalityTracker::new(0, B256::zero());
    for number in 1..=3u8 {
        let hash = B256 { bytes: [number; 32] };
        tracker.propose_block(hash, number as u64);
        for voter in 0..4 {
            tracker.add_vote(vote(voter, hash, number as u64), &config);
        }
        assert_eq!(tracker.latest_finalized, number as u64);
    }
}

#[test]
fn two_nodes_finalize_the_same_block() {
    // Each node sees both blocks; validator 2 votes for both, the others once.
    let config = BftConfig::default();
    let a = B256 { bytes: [1; 32] };
    let b = B256 { bytes: [2; 32] };
    let votes = [(3, b), (2, b), (0, a), (1, a), (2, a)];
    let mut finalized = Vec::new();
    for reversed in [false, true] {
        let mut tracker = FinalityTracker::new(0, B256::zero());
        tracker.propose_block(a, 1);
        tracker.propose_block(b, 1);
        let order: Vec<(u32, B256)> =
            if reversed { votes.iter().rev().copied().collect() } else { votes.to_vec() };
        for (voter, hash) in order {
            tracker.add_vote(vote(voter, hash, 1), &config);
        }
        finalized.push((tracker.latest_finalized, tracker.latest_finalized_hash));
        // What was final stays the answer once the record is pruned.
        tracker.prune(0);
        assert!(tracker.pending_blocks.is_empty());
        assert_eq!(tracker.latest_finalized_hash, a);
    }
    assert_eq!(finalized, vec![(1, a), (1, a)]);
}

use reliable_broadcast::quorum::{quorum_decision, QuorumDecision, MIN_PEERS};
use reliable_broadcast::stream::ConsensusError;

fn expect(peers: usize, echos: usize, expected: QuorumDecision) {
    assert_eq!(
        quorum_decision(peers, echos),
        expected,
        "peers={} echos={}",
        peers,
        echos
    );
}

#[test]
fn quorum_boundary_with_four_peers() {
    // The decision flips retry -> accepted exactly at the two-thirds
    // threshold (3 of 4) and retry -> insufficient below one third (< 2 of 4).
    expect(4, 0, QuorumDecision::Reject(ConsensusError::InsufficientEchos));
    expect(4, 1, QuorumDecision::Reject(ConsensusError::InsufficientEchos));
    expect(4, 2, QuorumDecision::Retry);
    expect(4, 3, QuorumDecision::Accept);
    expect(4, 4, QuorumDecision::Accept);
}

#[test]
fn quorum_boundary_with_seven_peers() {
    // 3 x echos >= 7 first at 3 echoes; 3 x echos >= 14 first at 5 echoes.
    expect(7, 0, QuorumDecision::Reject(ConsensusError::InsufficientEchos));
    expect(7, 2, QuorumDecision::Reject(ConsensusError::InsufficientEchos));
    expect(7, 3, QuorumDecision::Retry);
    expect(7, 4, QuorumDecision::Retry);
    expect(7, 5, QuorumDecision::Accept);
    expect(7, 7, QuorumDecision::Accept);
}

#[test]
fn quorum_boundary_with_ten_peers() {
    // 3 x echos >= 10 first at 4 echoes; 3 x echos >= 20 first at 7 echoes.
    expect(10, 0, QuorumDecision::Reject(ConsensusError::InsufficientEchos));
    expect(10, 3, QuorumDecision::Reject(ConsensusError::InsufficientEchos));
    expect(10, 4, QuorumDecision::Retry);
    expect(10, 6, QuorumDecision::Retry);
    expect(10, 7, QuorumDecision::Accept);
    expect(10, 10, QuorumDecision::Accept);
}

#[test]
fn below_minimum_population_rejects_whatever_the_echo_count() {
    assert_eq!(MIN_PEERS, 4);
    for peers in 0..MIN_PEERS {
        for echos in 0..10 {
            expect(
                peers,
                echos,
                QuorumDecision::Reject(ConsensusError::InsufficientPeers),
            );
        }
    }
}

//! The Bracha-style quorum rule: the per-round decision a broadcast worker
//! takes from the size of the known peer population and the number of echoes
//! collected for one broadcast.

use vstd::prelude::*;
use crate::stream::ConsensusError;

verus! {

/// The population size below which the quorum arithmetic is not meaningful:
/// any broadcast is rejected while fewer peers than this are known.
pub const MIN_PEERS: usize = 4;

/// What one round tick decides for one broadcast.
#[derive(Debug, Clone, Copy, PartialEq, Eq, Structural)]
pub enum QuorumDecision {
    /// More than two thirds of the known peers echoed: accept.
    Accept,
    /// At least one third echoed: re-announce readiness and run another round.
    Retry,
    /// Reject, with the reason carried in the resulting event.
    Reject(ConsensusError),
}

/// The decision taken from `num_peers` known peers and `num_echos` collected
/// echoes: reject outright below the minimum population; accept at the
/// two-thirds threshold; retry in the ambiguous middle band at or above the
/// one-third threshold; reject below it.
pub open spec fn spec_quorum_decision(num_peers: int, num_echos: int) -> QuorumDecision {
    if num_peers < MIN_PEERS as int {
        QuorumDecision::Reject(ConsensusError::InsufficientPeers)
    } else if 3 * num_echos >= 2 * num_peers {
        QuorumDecision::Accept
    } else if 3 * num_echos >= num_peers {
        QuorumDecision::Retry
    } else {
        QuorumDecision::Reject(ConsensusError::InsufficientEchos)
    }
}

/// The executable decision; the products are taken in 128 bits, which cannot
/// overflow for operands that fit in `usize`.
pub fn quorum_decision(num_peers: usize, num_echos: usize) -> (d: QuorumDecision)
    ensures
        d == spec_quorum_decision(num_peers as int, num_echos as int),
{
    if num_peers < MIN_PEERS {
        QuorumDecision::Reject(ConsensusError::InsufficientPeers)
    } else if 3 * (num_echos as u128) >= 2 * (num_peers as u128) {
        QuorumDecision::Accept
    } else if 3 * (num_echos as u128) >= (num_peers as u128) {
        QuorumDecision::Retry
    } else {
        QuorumDecision::Reject(ConsensusError::InsufficientEchos)
    }
}

/// Quorum boundary: for a population of at least `MIN_PEERS`, the decision is
/// `Accept` exactly at and above the two-thirds threshold, `Retry` exactly in
/// the band between one third and two thirds, and `InsufficientEchos` exactly
/// below one third, following the `3 × echos` versus `2 × peers` (or `peers`)
/// comparison; equivalently, the rounded integer thresholds flip the decision
/// at `ceil(2p/3)` and `ceil(p/3)`.
pub proof fn lemma_quorum_boundary(num_peers: int, num_echos: int)
    requires
        num_peers >= MIN_PEERS as int,
        num_echos >= 0,
    ensures
        spec_quorum_decision(num_peers, num_echos) == QuorumDecision::Accept
            <==> 3 * num_echos >= 2 * num_peers,
        spec_quorum_decision(num_peers, num_echos) == QuorumDecision::Retry
            <==> (num_peers <= 3 * num_echos && 3 * num_echos < 2 * num_peers),
        spec_quorum_decision(num_peers, num_echos)
            == QuorumDecision::Reject(ConsensusError::InsufficientEchos)
            <==> 3 * num_echos < num_peers,
        spec_quorum_decision(num_peers, num_echos)
            != QuorumDecision::Reject(ConsensusError::InsufficientPeers),
{
}

/// Below-quorum population: with fewer than `MIN_PEERS` known peers the
/// decision is `InsufficientPeers`, whatever the echo count.
pub proof fn lemma_below_quorum_population(num_peers: int, num_echos: int)
    requires
        num_peers < MIN_PEERS as int,
    ensures
        spec_quorum_decision(num_peers, num_echos)
            == QuorumDecision::Reject(ConsensusError::InsufficientPeers),
{
}

} // verus!

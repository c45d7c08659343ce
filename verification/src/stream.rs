//! The events the engine delivers to its consumer: one terminal decision per
//! admitted broadcast.

use vstd::prelude::*;
use crate::message::BroadcastId;

verus! {

/// The ordinary, expected terminal outcomes of a broadcast that was not
/// accepted. These are consensus outcomes, not failures of the engine.
#[derive(Debug, Clone, Copy, PartialEq, Eq, Structural, Hash)]
pub enum ConsensusError {
    /// The number of known peers was less than the minimum population.
    InsufficientPeers,
    /// The number of echos was below one third of the known peers.
    InsufficientEchos,
    /// The round budget ran out before the two-thirds threshold was reached.
    ConsensusLost,
}

/// The decision the engine emits for one broadcast: the payload on
/// acceptance or the rejection reason, the broadcast's identifier, the
/// latency from the broadcast's origin timestamp to the decision (in the
/// clock's nanosecond scale), and the number of rounds that were run up to
/// the decision.
#[derive(Debug, PartialEq, Eq, Hash)]
pub struct Event<T> {
    pub result: Result<T, ConsensusError>,
    pub broadcast_id: BroadcastId,
    pub latency: u64,
    pub num_rounds: usize,
}

} // verus!

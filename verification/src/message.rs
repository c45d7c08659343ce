//! The identity and wire message model of the reliable broadcast protocol.

use vstd::prelude::*;

verus! {

/// The identity of a peer. Peer identities are 128-bit values; a fresh one is
/// drawn at random when an engine instance is constructed.
pub type PeerId = u128;

/// The identifier for a broadcast: the broadcaster's identity together with
/// that broadcaster's sequence number for the message.
#[derive(Debug, Clone, Copy, PartialEq, Eq, Structural, Hash)]
pub struct BroadcastId {
    /// The ID of the message sender of (m, s).
    pub broadcaster: PeerId,
    /// The sequence number of the message.
    pub seq: u64,
}

/// The message type of *(m, s)*: a payload originated by one peer.
#[derive(Debug, Clone, PartialEq, Eq, Hash)]
pub struct Broadcast<T> {
    pub from: PeerId,
    pub seq: u64,
    /// The data to send in the message.
    pub data: T,
}

impl<T> Broadcast<T> {
    /// The identifier under which all bookkeeping for this broadcast is keyed.
    pub fn broadcast_id(&self) -> (id: BroadcastId)
        ensures
            id == (BroadcastId { broadcaster: self.from, seq: self.seq }),
    {
        BroadcastId { broadcaster: self.from, seq: self.seq }
    }
}

/// The message type of *echo(m, s)*: a batched acknowledgment that the sender
/// has seen each of the listed broadcasts.
#[derive(Debug, Clone, PartialEq, Eq, Hash)]
pub struct Echo {
    pub from: PeerId,
    pub broadcast_ids: Vec<BroadcastId>,
}

/// The message type of *present*: a liveness announcement with no other
/// effect than populating the active-peer approximation.
#[derive(Debug, Clone, Copy, PartialEq, Eq, Structural, Hash)]
pub struct Present {
    pub from: PeerId,
}

/// The enumeration of all types of messages used in reliable broadcast.
#[derive(Debug, Clone, PartialEq, Eq, Hash)]
pub enum Message<T> {
    /// The message type of *(m, s)*.
    Broadcast(Broadcast<T>),
    /// The message type of *present*.
    Present(Present),
    /// The message type of *echo(m, s)*.
    Echo(Echo),
}

} // verus!

//! A reliable broadcast primitive layered over a best-effort
//! publish/subscribe transport.
//!
//! Every participant decides, for every broadcast it observes, whether the
//! broadcast was sufficiently echoed by the currently known peer population
//! within a bounded round budget, following a Bracha-style two-thirds /
//! one-third echo quorum rule.

pub mod bench;
pub mod clock;
pub mod collections;
pub mod config;
pub mod laws;
pub mod message;
pub mod model;
pub mod quorum;
pub mod session;
pub mod state;
pub mod stream;
pub mod zenoh_io;

pub use config::Config;
pub use message::BroadcastId;
pub use stream::{ConsensusError, Event};

use vstd::prelude::*;

verus! {

/// The errors that are fatal to an engine instance: a configuration that
/// fails the construction-time sanity check, or a message timestamp that has
/// drifted pathologically far from the local clock.
#[derive(Debug, Clone, Copy, PartialEq, Eq, Structural)]
pub enum Error {
    /// The echo interval must be strictly less than the round timeout.
    EchoIntervalNotLessThanRoundTimeout,
    /// The number of extra rounds must be strictly less than the round budget.
    ExtraRoundsNotLessThanMaxRounds,
    /// An incoming timestamp could not be reconciled with the local clock.
    ClockDrift,
}

} // verus!

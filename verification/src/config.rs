//! The engine configuration: the round budget and timing knobs the quorum
//! state machine runs under, and the description of which underlying
//! transport backend carries the wire messages. Durations are plain
//! millisecond counts; the timing itself is driven by the caller.

use vstd::prelude::*;
use crate::state::State;
use crate::Error;

verus! {

/// Defines the structure of the config file.
#[derive(Debug, Clone, PartialEq)]
pub struct Config {
    /// The maximum number of rounds to run the reliable broadcast.
    pub max_rounds: usize,
    /// The number of extra rounds to send echo(m,s). It will not exceed the
    /// `max_rounds`.
    pub extra_rounds: usize,
    /// The timeout for each round, in milliseconds.
    pub round_timeout: u64,
    /// The interval that publishes echo messages, in milliseconds.
    pub echo_interval: u64,
    /// I/O configuration.
    pub io: IoConfig,
}

impl Config {
    /// Validate the configuration and construct the engine state for one
    /// participant, under a freshly drawn identity. The caller wires the
    /// state to a transport and drives its workers.
    pub fn build<T>(&self) -> (r: Result<State<T>, Error>)
        ensures
            self.echo_interval >= self.round_timeout ==> (r matches Err(e) && e
                == Error::EchoIntervalNotLessThanRoundTimeout),
            self.echo_interval < self.round_timeout && self.extra_rounds >= self.max_rounds
                ==> (r matches Err(e) && e == Error::ExtraRoundsNotLessThanMaxRounds),
            self.echo_interval < self.round_timeout && self.extra_rounds < self.max_rounds
                ==> (r matches Ok(s) && s@ == crate::model::spec_init::<T>(
                s@.my_id,
                self.max_rounds,
                self.extra_rounds,
                self.round_timeout,
                self.echo_interval,
            ) && crate::model::wf(s@)),
    {
        State::new(self)
    }
}

/// The selection of the concrete transport backend and its parameters.
#[derive(Debug, Clone, PartialEq)]
pub enum IoConfig {
    Zenoh(ZenohConfig),
    RustDds(DdsConfig),
    CycloneDds(DdsConfig),
}

impl IoConfig {
    /// Returns `true` if the io config is [`Zenoh`].
    ///
    /// [`Zenoh`]: IoConfig::Zenoh
    pub fn is_zenoh(&self) -> (r: bool)
        ensures
            r == (self is Zenoh),
    {
        matches!(self, IoConfig::Zenoh(..))
    }

    /// Returns `true` if the io config is [`RustDds`].
    ///
    /// [`RustDds`]: IoConfig::RustDds
    pub fn is_rust_dds(&self) -> (r: bool)
        ensures
            r == (self is RustDds),
    {
        matches!(self, IoConfig::RustDds(..))
    }

    /// Returns `true` if the io config is [`CycloneDds`].
    ///
    /// [`CycloneDds`]: IoConfig::CycloneDds
    pub fn is_cyclone_dds(&self) -> (r: bool)
        ensures
            r == (self is CycloneDds),
    {
        matches!(self, IoConfig::CycloneDds(..))
    }
}

/// The parameters of a publish/subscribe transport keyed by an expression.
#[derive(Debug, Clone, PartialEq)]
pub struct ZenohConfig {
    pub key: String,
    /// Subscription mode.
    pub sub_mode: SubMode,
    /// Reliability quality of service.
    pub reliability: Reliability,
    /// Congestion control quality of service.
    pub congestion_control: CongestionControl,
}

#[derive(Debug, Copy, Clone, PartialEq, Eq, Structural)]
pub enum SubMode {
    Push,
    Pull,
}

#[derive(Debug, Copy, Clone, PartialEq, Eq, Structural)]
pub enum Reliability {
    BestEffort,
    Reliable,
}

#[derive(Debug, Copy, Clone, PartialEq, Eq, Structural)]
pub enum CongestionControl {
    Block,
    Drop,
}

/// The parameters of a data-distribution-service transport keyed by topic.
#[derive(Debug, Clone, PartialEq)]
pub struct DdsConfig {
    pub topic: String,
    pub durability: Durability,
    pub reliability: DdsReliability,
    pub history: History,
}

#[derive(Debug, Copy, Clone, PartialEq, Eq, Structural)]
pub enum Durability {
    Volatile,
    TransientLocal,
    Transient,
    Persistent,
}

#[derive(Debug, Copy, Clone, PartialEq, Eq, Structural)]
pub enum DdsReliability {
    BestEffort,
    Reliable { max_blocking_time_ns: u64 },
}

#[derive(Debug, Copy, Clone, PartialEq, Eq, Structural)]
pub enum History {
    KeepLast { depth: i32 },
    KeepAll,
}

} // verus!

//! The quality-of-service parameters a publish/subscribe sender and receiver
//! are built with. Building the transport itself is I/O and lives outside the
//! library; these are the values the engine's caller hands to it.

use vstd::prelude::*;
use crate::config::{CongestionControl, Reliability, SubMode};

verus! {

/// The kind of sample a sender puts: a value or a deletion marker.
#[derive(Debug, Clone, Copy, PartialEq, Eq, Structural)]
pub enum SampleKind {
    Put,
    Delete,
}

/// The parameters of an outgoing channel.
#[derive(Debug, Clone, Copy, PartialEq, Eq, Structural)]
pub struct ZnSenderConfig {
    pub congestion_control: CongestionControl,
    pub kind: SampleKind,
}

impl Default for ZnSenderConfig {
    fn default() -> (r: Self)
        ensures
            r.congestion_control == CongestionControl::Block,
            r.kind == SampleKind::Put,
    {
        ZnSenderConfig { congestion_control: CongestionControl::Block, kind: SampleKind::Put }
    }
}

/// The parameters of an incoming channel.
#[derive(Debug, Clone, Copy, PartialEq, Eq, Structural)]
pub struct ZnReceiverConfig {
    pub reliability: Reliability,
    pub sub_mode: SubMode,
}

impl Default for ZnReceiverConfig {
    fn default() -> (r: Self)
        ensures
            r.reliability == Reliability::BestEffort,
            r.sub_mode == SubMode::Push,
    {
        ZnReceiverConfig { reliability: Reliability::BestEffort, sub_mode: SubMode::Push }
    }
}

} // verus!

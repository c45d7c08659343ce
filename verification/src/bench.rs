//! The benchmark-facing configuration and bookkeeping values: the
//! command-line parameter set of the drivers, their derived timing values
//! (plain millisecond counts), per-peer statistics, and the payload helpers
//! that stamp a peer's identity into a message body.

use vstd::prelude::*;
use crate::Error;

verus! {

/// The command-line parameters of a benchmark run. Argument parsing itself
/// lives outside the library; this is the parsed value the drivers hand in.
#[derive(Debug, Clone, PartialEq)]
pub struct Cli {
    /// The path to store the output .json file.
    pub output_dir: String,
    /// The peer ID for this process.
    pub peer_id: usize,
    /// The total number of publisher peers.
    pub total_put_number: usize,
    /// The timeout for subscribers to stop receiving messages, in
    /// milliseconds; receiving starts together with the publishers.
    pub round_timeout: u64,
    /// The initialization time (ms) for starting up futures.
    pub init_time: u64,
    /// The number of messages each publisher peer will try to send.
    pub num_msgs_per_peer: usize,
    /// The payload size (bytes) of the message.
    pub payload_size: usize,
    /// Create multiple runtimes on a single machine for each peer.
    pub multipeer_mode: bool,
    /// Create a runtime for a pair of publisher and subscriber if not set.
    pub pub_sub_separate: bool,
    /// Locators for each peer to connect to.
    pub locators: Vec<String>,
    /// Number of remote publisher peers.
    pub remote_pub_peers: usize,
    /// The time interval before starting the session, in milliseconds.
    pub delay_startup: u64,
    /// The interval between published messages, in milliseconds.
    pub pub_interval: u64,
    /// Disables the publisher.
    pub pub_disable: bool,
    /// Disables the subscriber.
    pub sub_disable: bool,
    /// Subscription mode for the reliable-broadcast transport.
    pub sub_mode: Option<SubMode>,
    /// Reliability quality of service for the transport.
    pub reliability: Option<Reliability>,
    /// Congestion control quality of service for the transport.
    pub congestion_control: Option<CongestionControl>,
    /// The waiting time to publish batched echoes, in milliseconds.
    pub echo_interval: Option<u64>,
    /// The waiting time per round, in milliseconds.
    pub round_interval: Option<u64>,
    /// The maximum number of reliable-broadcast rounds.
    pub max_rounds: Option<usize>,
    /// The number of extra rounds.
    pub extra_rounds: Option<usize>,
}

impl Cli {
    /// How long the whole test may run, in milliseconds.
    pub fn test_timeout(&self) -> (r: u64)
        ensures
            r == self.round_timeout,
    {
        self.round_timeout
    }

    /// The configured per-round interval, in milliseconds.
    pub fn round_interval(&self) -> (r: u64)
        requires
            self.round_interval is Some,
        ensures
            r == self.round_interval->0,
    {
        self.round_interval.unwrap()
    }

    /// The configured echo-batch interval, in milliseconds.
    pub fn echo_interval(&self) -> (r: u64)
        requires
            self.echo_interval is Some,
        ensures
            r == self.echo_interval->0,
    {
        self.echo_interval.unwrap()
    }

    /// The interval between published messages: the worst-case duration of
    /// one full broadcast decision, padded by a small margin.
    pub fn publish_interval(&self) -> (r: u64)
        requires
            self.round_interval is Some,
            self.max_rounds is Some,
            self.round_interval->0 * self.max_rounds->0 + 50 <= u64::MAX,
        ensures
            r == self.round_interval->0 * self.max_rounds->0 + 50,
    {
        self.round_interval.unwrap() * (self.max_rounds.unwrap() as u64) + 50
    }

    /// When the measured run begins: the given instant (milliseconds) plus
    /// the initialization allowance.
    pub fn start_time_from_now(&self, now: u64) -> (r: u64)
        requires
            now + self.init_time <= u64::MAX,
        ensures
            r == now + self.init_time,
    {
        now + self.init_time
    }

    /// How many messages the whole test delivers: one per message per
    /// publishing peer, local and remote.
    pub fn total_msg_num(&self) -> (r: usize)
        requires
            self.total_put_number + self.remote_pub_peers <= usize::MAX,
            (self.total_put_number + self.remote_pub_peers) * self.num_msgs_per_peer <= usize::MAX,
        ensures
            r == (self.total_put_number + self.remote_pub_peers) * self.num_msgs_per_peer,
    {
        (self.total_put_number + self.remote_pub_peers) * self.num_msgs_per_peer
    }
}

/// The timing milestones of one publisher worker, in milliseconds from the
/// start of the run.
#[derive(Debug, Clone, Copy, PartialEq, Eq, Structural)]
pub struct PubTimeStatus {
    pub start_pub_worker: u128,
    pub session_start: Option<u128>,
    pub pub_sub_worker_start: Option<u128>,
    pub before_sending: u128,
    pub start_sending: u128,
    pub after_sending: u128,
}

/// The run parameters echoed into each report.
#[derive(Debug, Clone, Copy, PartialEq, Eq, Structural)]
pub struct ShortConfig {
    pub peer_id: usize,
    pub total_put_number: usize,
    pub num_msgs_per_peer: usize,
    pub payload_size: usize,
    pub round_timeout: u64,
    pub init_time: u64,
}

impl From<Cli> for ShortConfig {
    fn from(cli: Cli) -> (r: Self) {
        ShortConfig {
            peer_id: cli.peer_id,
            total_put_number: cli.total_put_number,
            num_msgs_per_peer: cli.num_msgs_per_peer,
            payload_size: cli.payload_size,
            round_timeout: cli.round_timeout,
            init_time: cli.init_time,
        }
    }
}

impl vstd::std_specs::convert::FromSpecImpl<Cli> for ShortConfig {
    open spec fn obeys_from_spec() -> bool {
        true
    }

    open spec fn from_spec(cli: Cli) -> Self {
        ShortConfig {
            peer_id: cli.peer_id,
            total_put_number: cli.total_put_number,
            num_msgs_per_peer: cli.num_msgs_per_peer,
            payload_size: cli.payload_size,
            round_timeout: cli.round_timeout,
            init_time: cli.init_time,
        }
    }
}

/// The timing milestones of one subscriber worker.
#[derive(Debug, Clone, Copy, PartialEq, Eq, Structural)]
pub struct SubTimeStatus {
    pub process_start_sec: i64,
    pub process_start_millis: i16,
    pub start_sub_worker: u128,
    pub session_start: Option<u128>,
    pub pub_sub_worker_start: Option<u128>,
    pub after_subscribing: u128,
    pub start_receiving: u128,
    pub after_receiving: u128,
}

/// Per-publisher receive statistics of one subscriber: the number of messages
/// received and the per-message latencies, in milliseconds.
#[derive(Debug, Clone)]
pub struct PubPeerStatistics {
    pub msg_cnt: usize,
    pub latency_vec: Vec<u64>,
}

impl PubPeerStatistics {
    pub fn new() -> (r: Self)
        ensures
            r.msg_cnt == 0,
            r.latency_vec@ == Seq::<u64>::empty(),
    {
        PubPeerStatistics { msg_cnt: 0, latency_vec: Vec::new() }
    }
}

impl Default for PubPeerStatistics {
    fn default() -> (r: Self)
        ensures
            r.msg_cnt == 0,
            r.latency_vec@ == Seq::<u64>::empty(),
    {
        PubPeerStatistics::new()
    }
}

/// The application payload of the benchmark: a byte string carrying the
/// publishing peer's identity.
#[derive(Debug, Clone, PartialEq, Eq, Hash)]
pub struct Msg(pub Vec<u8>);

/// A success of the library's result type, spelled out so that iterator
/// chains can name it.
#[allow(non_snake_case)]
pub fn ZOk<T>(value: T) -> (r: Result<T, Error>)
    ensures
        r == Ok::<T, Error>(value),
{
    Ok(value)
}

/// Byte `i` of the payload that stamps `peer_id`: the little-endian bytes of
/// the identity, repeated.
pub open spec fn le_byte(peer_id: u64, i: int) -> u8 {
    (peer_id >> (((i % 8) * 8) as u64)) as u8
}

/// The benchmark payload: the little-endian bytes of `peer_id`, repeated (and
/// truncated) to exactly `len` bytes.
pub fn get_msg_payload(len: usize, peer_id: u64) -> (r: Vec<u8>)
    ensures
        r@.len() == len,
        forall|i: int| 0 <= i < len ==> r@[i] == le_byte(peer_id, i),
{
    let mut out: Vec<u8> = Vec::new();
    for i in 0..len
        invariant
            out@.len() == i,
            forall|j: int| 0 <= j < i ==> out@[j] == le_byte(peer_id, j),
    {
        let shift: u64 = ((i % 8) as u64) * 8;
        out.push((peer_id >> shift) as u8);
    }
    out
}

/// The identity read back from the first eight bytes of a payload, little
/// endian.
pub open spec fn u64_from_le(s: Seq<u8>) -> u64 {
    (s[0] as u64) | ((s[1] as u64) << 8) | ((s[2] as u64) << 16) | ((s[3] as u64) << 24) | ((
    s[4] as u64) << 32) | ((s[5] as u64) << 40) | ((s[6] as u64) << 48) | ((s[7] as u64) << 56)
}

/// Read the publishing peer's identity back out of a payload.
pub fn peer_id_from_payload(payload: &[u8]) -> (r: u64)
    requires
        payload@.len() >= 8,
    ensures
        r == u64_from_le(payload@),
{
    (payload[0] as u64) | ((payload[1] as u64) << 8) | ((payload[2] as u64) << 16) | ((
    payload[3] as u64) << 24) | ((payload[4] as u64) << 32) | ((payload[5] as u64) << 40) | ((
    payload[6] as u64) << 48) | ((payload[7] as u64) << 56)
}

#[derive(Debug, Clone, Copy, PartialEq, Eq, Structural, Hash)]
pub enum CongestionControl {
    Block,
    Drop,
}

#[derive(Debug, Clone, Copy, PartialEq, Eq, Structural, Hash)]
pub enum SubMode {
    Push,
    Pull,
}

#[derive(Debug, Clone, Copy, PartialEq, Eq, Structural, Hash)]
pub enum Reliability {
    BestEffort,
    Reliable,
}

} // verus!

//! The shared engine state of one participant and the engine's operations.
//!
//! The protocol is described in terms of concurrent workers — a receiving
//! worker, an echo worker, and one worker per broadcast; here every decision
//! of those workers is a sequential operation on this state with an exact
//! contract against the model in [`crate::model`], and the caller drives the
//! timing and the concurrency it wants: it feeds
//! received messages to the `handle_*` operations, calls [`State::step_round`]
//! on each round tick of a broadcast, drains [`State::make_echo`] on each
//! echo tick, and consumes decisions through [`State::next_event`].

use vstd::prelude::*;
use crate::clock::Clock;
use crate::collections::{
    find_key, has_key, key_index, lemma_key_index_unique, lemma_remove_key_absent,
    lemma_remove_key_at, IdSet, PeerSet,
};
use crate::config::Config;
use crate::message::{Broadcast, BroadcastId, Echo, Message, PeerId, Present};
use crate::model::{
    lemma_wf_broadcast, lemma_wf_echo_one, lemma_wf_handle_broadcast, lemma_wf_handle_present,
    lemma_wf_init, lemma_wf_next_event, lemma_wf_step_round, lemma_wf_take_echo,
    lemma_echo_all_push, spec_broadcast, spec_echo_all, spec_echo_one, spec_handle_broadcast,
    spec_handle_echo, spec_handle_present, spec_init, spec_step_round, spec_take_echo, wf,
    CtxModel, Phase, StateModel,
};
use crate::quorum::{quorum_decision, QuorumDecision};
use crate::stream::Event;
use crate::Error;

verus! {

/// The context for a broadcast. In a concurrent deployment this would pair
/// the `acked` set with a handle to a running broadcast worker task; here the
/// worker's state is held inline and advanced by [`State::step_round`].
#[derive(Debug)]
pub struct BroadcastContext<T> {
    /// The set of peers that replied with echos for this broadcast.
    pub acked: PeerSet,
    /// The payload, held until it leaves with the acceptance event.
    pub data: Option<T>,
    /// The timestamp of the broadcast envelope, for latency measurement.
    pub origin_timestamp: u64,
    /// How many decision rounds have completed.
    pub rounds: usize,
    /// Where the worker stands.
    pub phase: Phase,
}

impl<T> View for BroadcastContext<T> {
    type V = CtxModel<T>;

    open spec fn view(&self) -> CtxModel<T> {
        CtxModel {
            acked: self.acked@,
            data: self.data,
            origin_timestamp: self.origin_timestamp,
            rounds: self.rounds,
            phase: self.phase,
        }
    }
}

/// The process-wide engine state of one local participant.
pub struct State<T> {
    /// This participant's identity, fixed for the state's lifetime.
    pub my_id: PeerId,
    /// Monotonically increasing counter of locally originated broadcasts.
    pub seq_number: u64,
    /// The peers observed via any message; grows, never shrinks.
    pub active_peers: PeerSet,
    /// The broadcasts awaiting the next echo-batch flush.
    pub echo_requests: IdSet,
    /// One entry per broadcast being decided or decided but not yet consumed.
    pub contexts: Vec<(BroadcastId, BroadcastContext<T>)>,
    /// Echoes that arrived before their broadcast, keyed by its identifier.
    pub pending_echos: Vec<(BroadcastId, PeerSet)>,
    /// The queue of finished events not yet consumed.
    pub commits: Vec<Event<T>>,
    /// The history of every event ever produced, in production order.
    pub emitted: Ghost<Seq<Event<T>>>,
    /// The history of every broadcast identifier ever admitted, in order.
    pub admitted: Ghost<Seq<BroadcastId>>,
    /// The maximum number of rounds to run the reliable broadcast.
    pub max_rounds: usize,
    /// The number of extra rounds to send echo(m,s); less than `max_rounds`.
    pub extra_rounds: usize,
    /// The timeout for each round, in milliseconds.
    pub round_timeout: u64,
    /// The interval between echo batches, in milliseconds.
    pub echo_interval: u64,
    /// The logical clock folding observed envelope timestamps.
    pub clock: Clock,
}

impl<T> View for State<T> {
    type V = StateModel<T>;

    open spec fn view(&self) -> StateModel<T> {
        StateModel {
            my_id: self.my_id,
            seq_number: self.seq_number,
            active_peers: self.active_peers@,
            echo_requests: self.echo_requests@,
            contexts: self.contexts@.map_values(
                |p: (BroadcastId, BroadcastContext<T>)| (p.0, p.1@),
            ),
            pending_echos: self.pending_echos@.map_values(
                |p: (BroadcastId, PeerSet)| (p.0, p.1@),
            ),
            commits: self.commits@,
            emitted: self.emitted@,
            admitted: self.admitted@,
            max_rounds: self.max_rounds,
            extra_rounds: self.extra_rounds,
            round_timeout: self.round_timeout,
            echo_interval: self.echo_interval,
            clock: self.clock@,
        }
    }
}

/// Relies on `uuid::Uuid::new_v4`: a fresh version-4 UUID drawn from the
/// operating system's randomness, carried as its 128-bit value. Nothing can
/// be promised of a random value.
#[verifier::external_body]
fn fresh_peer_id() -> PeerId {
    uuid::Uuid::new_v4().as_u128()
}

impl<T> State<T> {
    /// The engine invariant, stated on the model snapshot.
    pub open spec fn wf(&self) -> bool {
        wf(self@)
    }

    /// Construct the engine state under the given identity, after the one
    /// synchronous sanity check of the configuration: the echo interval must
    /// be less than the round timeout, and the extra rounds less than the
    /// round budget.
    pub fn with_id(config: &Config, my_id: PeerId) -> (r: Result<State<T>, Error>)
        ensures
            config.echo_interval >= config.round_timeout ==> (r matches Err(e) && e
                == Error::EchoIntervalNotLessThanRoundTimeout),
            config.echo_interval < config.round_timeout && config.extra_rounds >= config.max_rounds
                ==> (r matches Err(e) && e == Error::ExtraRoundsNotLessThanMaxRounds),
            config.echo_interval < config.round_timeout && config.extra_rounds < config.max_rounds
                ==> (r matches Ok(s) && s@ == spec_init::<T>(
                my_id,
                config.max_rounds,
                config.extra_rounds,
                config.round_timeout,
                config.echo_interval,
            ) && s.wf()),
    {
        if config.echo_interval >= config.round_timeout {
            return Err(Error::EchoIntervalNotLessThanRoundTimeout);
        }
        if config.extra_rounds >= config.max_rounds {
            return Err(Error::ExtraRoundsNotLessThanMaxRounds);
        }
        let s = State {
            my_id,
            seq_number: 0,
            active_peers: PeerSet::new(),
            echo_requests: IdSet::new(),
            contexts: Vec::new(),
            pending_echos: Vec::new(),
            commits: Vec::new(),
            emitted: Ghost(Seq::empty()),
            admitted: Ghost(Seq::empty()),
            max_rounds: config.max_rounds,
            extra_rounds: config.extra_rounds,
            round_timeout: config.round_timeout,
            echo_interval: config.echo_interval,
            clock: Clock::new(),
        };
        proof {
            let init = spec_init::<T>(
                my_id,
                config.max_rounds,
                config.extra_rounds,
                config.round_timeout,
                config.echo_interval,
            );
            assert(s@.contexts =~= init.contexts);
            assert(s@.pending_echos =~= init.pending_echos);
            assert(s@ =~= init);
            lemma_wf_init::<T>(
                my_id,
                config.max_rounds,
                config.extra_rounds,
                config.round_timeout,
                config.echo_interval,
            );
        }
        Ok(s)
    }

    /// Construct the engine state for one participant under a freshly drawn
    /// random identity.
    pub fn new(config: &Config) -> (r: Result<State<T>, Error>)
        ensures
            config.echo_interval >= config.round_timeout ==> (r matches Err(e) && e
                == Error::EchoIntervalNotLessThanRoundTimeout),
            config.echo_interval < config.round_timeout && config.extra_rounds >= config.max_rounds
                ==> (r matches Err(e) && e == Error::ExtraRoundsNotLessThanMaxRounds),
            config.echo_interval < config.round_timeout && config.extra_rounds < config.max_rounds
                ==> (r matches Ok(s) && s@ == spec_init::<T>(
                s@.my_id,
                config.max_rounds,
                config.extra_rounds,
                config.round_timeout,
                config.echo_interval,
            ) && s.wf()),
    {
        let my_id = fresh_peer_id();
        State::with_id(config, my_id)
    }

    /// Schedule a future echo for this broadcast: it will ride in the next
    /// batched echo message.
    pub fn request_sending_echo(&mut self, broadcast_id: BroadcastId)
        requires
            old(self).wf(),
        ensures
            final(self).wf(),
            final(self)@ == (StateModel {
                echo_requests: crate::collections::push_unique(
                    old(self)@.echo_requests,
                    broadcast_id,
                ),
                ..old(self)@
            }),
    {
        let ghost m0 = self@;
        self.echo_requests.insert(broadcast_id);
        proof {
            crate::collections::lemma_push_unique(m0.echo_requests, broadcast_id);
            assert(self@ =~= (StateModel {
                echo_requests: crate::collections::push_unique(m0.echo_requests, broadcast_id),
                ..m0
            }));
        }
    }

    /// Process an input present message: its sender is alive.
    pub fn handle_present(&mut self, msg: Present)
        requires
            old(self).wf(),
        ensures
            final(self).wf(),
            final(self)@ == spec_handle_present(old(self)@, msg.from),
    {
        let ghost m0 = self@;
        self.active_peers.insert(msg.from);
        proof {
            assert(self@ =~= spec_handle_present(m0, msg.from));
            lemma_wf_handle_present(m0, msg.from);
        }
    }

    /// The echo worker's tick: atomically drain the pending echo requests and
    /// batch them into one echo message, to be sent whether or not the batch
    /// is empty.
    pub fn make_echo(&mut self) -> (msg: Message<T>)
        requires
            old(self).wf(),
        ensures
            final(self).wf(),
            final(self)@ == spec_take_echo(old(self)@),
            msg matches Message::Echo(e) && e.from == old(self).my_id && e.broadcast_ids@ == old(
                self,
            )@.echo_requests,
    {
        let ghost m0 = self@;
        let broadcast_ids = self.echo_requests.take_all();
        proof {
            assert(self@ =~= spec_take_echo(m0));
            lemma_wf_take_echo(m0);
        }
        Message::Echo(Echo { from: self.my_id, broadcast_ids })
    }

    /// Originate a broadcast: assign the next sequence number and wrap the
    /// payload into the broadcast message for the caller to send. The engine
    /// learns of its own broadcast through the normal receiving path, exactly
    /// as it learns of any peer's.
    pub fn broadcast(&mut self, data: T) -> (msg: Message<T>)
        requires
            old(self).wf(),
            old(self).seq_number < u64::MAX,
        ensures
            final(self).wf(),
            final(self)@ == spec_broadcast(old(self)@),
            msg == Message::Broadcast(
                Broadcast { from: old(self).my_id, seq: old(self).seq_number, data },
            ),
    {
        let ghost m0 = self@;
        let seq = self.seq_number;
        self.seq_number = self.seq_number + 1;
        proof {
            assert(self@ =~= spec_broadcast(m0));
            lemma_wf_broadcast(m0);
        }
        Message::Broadcast(Broadcast { from: self.my_id, seq, data })
    }

    /// Process an input broadcast: its sender is alive; a duplicate of an
    /// open context is ignored; otherwise the broadcast is admitted, its
    /// context seeded with any echoes that arrived ahead of it, and an echo
    /// is requested immediately.
    pub fn handle_broadcast(&mut self, timestamp: u64, msg: Broadcast<T>)
        requires
            old(self).wf(),
        ensures
            final(self).wf(),
            final(self)@ == spec_handle_broadcast(
                old(self)@,
                timestamp,
                msg.from,
                msg.seq,
                msg.data,
            ),
    {
        let ghost m0 = self@;
        let Broadcast { from, seq, data } = msg;
        let ghost gdata = data;
        let broadcast_id = BroadcastId { broadcaster: from, seq };
        self.active_peers.insert(from);
        let ghost m1 = StateModel {
            active_peers: crate::collections::push_unique(m0.active_peers, from),
            ..m0
        };
        proof {
            assert(self@ =~= m1);
        }
        match find_key(&self.contexts, broadcast_id) {
            Some(i) => {
                proof {
                    assert(self@.contexts[i as int].0 == broadcast_id);
                    assert(has_key(m0.contexts, broadcast_id));
                    lemma_wf_handle_broadcast(m0, timestamp, from, seq, gdata);
                }
            },
            None => {
                proof {
                    assert forall|j: int| 0 <= j < m0.contexts.len() implies m0.contexts[j].0
                        != broadcast_id by {
                        assert(m0.contexts[j].0 == self.contexts@[j].0);
                    }
                    assert(!has_key(m0.contexts, broadcast_id));
                }
                let acked: PeerSet = match find_key(&self.pending_echos, broadcast_id) {
                    Some(i) => {
                        proof {
                            assert(self@.pending_echos[i as int].0 == broadcast_id);
                            lemma_key_index_unique(m1.pending_echos, broadcast_id, i as int);
                            assert(forall|j: int|
                                0 <= j < i ==> m1.pending_echos[j].0 != broadcast_id);
                            lemma_remove_key_at(m1.pending_echos, broadcast_id, i as int);
                        }
                        let pair = self.pending_echos.remove(i);
                        proof {
                            assert(self@.pending_echos =~= crate::collections::remove_key(
                                m1.pending_echos,
                                broadcast_id,
                            ));
                        }
                        pair.1
                    },
                    None => {
                        proof {
                            assert forall|j: int|
                                0 <= j < m1.pending_echos.len() implies m1.pending_echos[j].0
                                != broadcast_id by {
                                assert(m1.pending_echos[j].0 == self.pending_echos@[j].0);
                            }
                            assert(!has_key(m1.pending_echos, broadcast_id));
                            lemma_remove_key_absent(m1.pending_echos, broadcast_id);
                        }
                        PeerSet::new()
                    },
                };
                let ctx = BroadcastContext {
                    acked,
                    data: Some(data),
                    origin_timestamp: timestamp,
                    rounds: 0,
                    phase: Phase::Running,
                };
                self.contexts.push((broadcast_id, ctx));
                self.echo_requests.insert(broadcast_id);
                self.admitted = Ghost(self.admitted@.push(broadcast_id));
                proof {
                    let m2 = spec_handle_broadcast(m0, timestamp, from, seq, gdata);
                    assert(self@.contexts =~= m2.contexts);
                    assert(self@.pending_echos =~= m2.pending_echos);
                    assert(self@ =~= m2);
                    lemma_wf_handle_broadcast(m0, timestamp, from, seq, gdata);
                }
            },
        }
    }

    /// Process an input echo: its sender is alive, and for each referenced
    /// broadcast the sender is recorded in the open context if there is one,
    /// or kept among the pending echoes otherwise.
    pub fn handle_echo(&mut self, msg: Echo)
        requires
            old(self).wf(),
        ensures
            final(self).wf(),
            final(self)@ == spec_handle_echo(old(self)@, msg.from, msg.broadcast_ids@),
    {
        let ghost m0 = self@;
        let Echo { from, broadcast_ids } = msg;
        self.active_peers.insert(from);
        let ghost m1 = StateModel {
            active_peers: crate::collections::push_unique(m0.active_peers, from),
            ..m0
        };
        proof {
            assert(self@ =~= m1);
            assert(m1 == spec_handle_present(m0, from));
            lemma_wf_handle_present(m0, from);
        }
        let n = broadcast_ids.len();
        for k in 0..n
            invariant
                n == broadcast_ids@.len(),
                self@ == spec_echo_all(m1, from, broadcast_ids@.take(k as int)),
                wf(self@),
        {
            let id = broadcast_ids[k];
            let ghost mk = self@;
            match find_key(&self.contexts, id) {
                Some(i) => {
                    proof {
                        assert(self@.contexts[i as int].0 == id);
                        lemma_key_index_unique(mk.contexts, id, i as int);
                    }
                    let pair = self.contexts.remove(i);
                    let (key, mut ctx) = pair;
                    ctx.acked.insert(from);
                    let ghost ctx2 = ctx@;
                    self.contexts.insert(i, (key, ctx));
                    proof {
                        assert(self@.contexts =~= mk.contexts.update(i as int, (id, ctx2)));
                        assert(self@ =~= spec_echo_one(mk, from, id));
                    }
                },
                None => {
                    proof {
                        assert forall|j: int| 0 <= j < mk.contexts.len() implies mk.contexts[j].0
                            != id by {
                            assert(mk.contexts[j].0 == self.contexts@[j].0);
                        }
                        assert(!has_key(mk.contexts, id));
                    }
                    match find_key(&self.pending_echos, id) {
                        Some(i) => {
                            proof {
                                assert(self@.pending_echos[i as int].0 == id);
                                lemma_key_index_unique(mk.pending_echos, id, i as int);
                            }
                            let pair = self.pending_echos.remove(i);
                            let (key, mut ps) = pair;
                            ps.insert(from);
                            let ghost ps2 = ps@;
                            self.pending_echos.insert(i, (key, ps));
                            proof {
                                assert(self@.pending_echos =~= mk.pending_echos.update(
                                    i as int,
                                    (id, ps2),
                                ));
                                assert(self@ =~= spec_echo_one(mk, from, id));
                            }
                        },
                        None => {
                            proof {
                                assert forall|j: int|
                                    0 <= j < mk.pending_echos.len() implies mk.pending_echos[j].0
                                    != id by {
                                    assert(mk.pending_echos[j].0 == self.pending_echos@[j].0);
                                }
                                assert(!has_key(mk.pending_echos, id));
                            }
                            let mut ps = PeerSet::new();
                            ps.insert(from);
                            self.pending_echos.push((id, ps));
                            proof {
                                assert(Seq::<PeerId>::empty().push(from) =~= seq![from]);
                                assert(self@.pending_echos =~= mk.pending_echos.push(
                                    (id, seq![from]),
                                ));
                                assert(self@ =~= spec_echo_one(mk, from, id));
                            }
                        },
                    }
                },
            }
            proof {
                lemma_wf_echo_one(mk, from, id);
                assert(broadcast_ids@.take(k + 1) =~= broadcast_ids@.take(k as int).push(id));
                lemma_echo_all_push(m1, from, broadcast_ids@.take(k as int), id);
            }
        }
        proof {
            assert(broadcast_ids@.take(n as int) =~= broadcast_ids@);
        }
    }

    /// The receiving worker's dispatch: handle one decoded message, together
    /// with the timestamp of its envelope, by its kind.
    pub fn handle_message(&mut self, timestamp: u64, msg: Message<T>)
        requires
            old(self).wf(),
        ensures
            final(self).wf(),
            final(self)@ == crate::model::spec_handle_message(old(self)@, timestamp, msg),
    {
        match msg {
            Message::Broadcast(b) => self.handle_broadcast(timestamp, b),
            Message::Present(p) => self.handle_present(p),
            Message::Echo(e) => self.handle_echo(e),
        }
    }

    /// The receiving worker's full step for one decoded envelope: fold the
    /// envelope's timestamp into the logical clock at local time `now` and
    /// dispatch the message by kind. A timestamp that has drifted
    /// pathologically far from local time is a fatal error — it indicates
    /// catastrophic clock skew, not a transient condition — and leaves the
    /// state unchanged.
    pub fn receive_message(&mut self, timestamp: u64, now: u64, msg: Message<T>) -> (r: Result<
        (),
        Error,
    >)
        requires
            old(self).wf(),
        ensures
            crate::model::spec_receive_message(old(self)@, timestamp, now, msg) matches Ok(m2)
                ==> (r == Ok::<(), Error>(()) && final(self)@ == m2 && final(self).wf()),
            crate::model::spec_receive_message(old(self)@, timestamp, now, msg) matches Err(e)
                ==> (r == Err::<(), Error>(e) && final(self)@ == old(self)@),
    {
        let ghost m0 = self@;
        if timestamp > now && timestamp - now > crate::clock::MAX_CLOCK_DELTA_NS {
            return Err(Error::ClockDrift);
        }
        self.handle_message(timestamp, msg);
        let ghost m1 = self@;
        match self.clock.observe(timestamp, now) {
            Err(_) => {
                proof {
                    assert(false);
                }
                Err(Error::ClockDrift)
            },
            Ok(_) => {
                proof {
                    assert(self@ =~= (StateModel {
                        clock: crate::clock::spec_observe(m1.clock, timestamp, now),
                        ..m1
                    }));
                    crate::model::lemma_wf_clock_update(
                        m1,
                        crate::clock::spec_observe(m1.clock, timestamp, now),
                    );
                }
                Ok(())
            },
        }
    }

    /// One round tick for the given broadcast at local time `now` (in the
    /// clock's nanosecond scale): the per-broadcast worker's state machine
    /// advances exactly as [`crate::model::spec_step_round`] says — applying
    /// the quorum rule while running, emitting the broadcast's one event on a
    /// terminal decision or an exhausted budget, and re-requesting echoes on a
    /// retry or an extra round. Pathological clock drift is reported and
    /// leaves the state unchanged.
    pub fn step_round(&mut self, broadcast_id: BroadcastId, now: u64) -> (r: Result<(), Error>)
        requires
            old(self).wf(),
        ensures
            crate::model::spec_step_round(old(self)@, broadcast_id, now) matches Ok(m2) ==> (r
                == Ok::<(), Error>(()) && final(self)@ == m2 && final(self).wf()),
            crate::model::spec_step_round(old(self)@, broadcast_id, now) matches Err(e) ==> (r
                == Err::<(), Error>(e) && final(self)@ == old(self)@),
    {
        let ghost m0 = self@;
        let i = match find_key(&self.contexts, broadcast_id) {
            Some(i) => i,
            None => {
                proof {
                    assert forall|j: int| 0 <= j < m0.contexts.len() implies m0.contexts[j].0
                        != broadcast_id by {
                        assert(m0.contexts[j].0 == self.contexts@[j].0);
                    }
                    assert(!has_key(m0.contexts, broadcast_id));
                }
                return Ok(());
            },
        };
        proof {
            assert(self@.contexts[i as int].0 == broadcast_id);
            lemma_key_index_unique(m0.contexts, broadcast_id, i as int);
            assert(crate::model::ctx_wf(m0.max_rounds, m0.extra_rounds, m0.contexts[i as int].1));
            lemma_wf_step_round(m0, broadcast_id, now);
        }
        let pair = self.contexts.remove(i);
        let (key, mut ctx) = pair;
        let ghost c = ctx@;
        match ctx.phase {
            Phase::Finished => {
                self.contexts.insert(i, (key, ctx));
                proof {
                    assert(self@.contexts =~= m0.contexts);
                    assert(self@ =~= m0);
                }
                Ok(())
            },
            Phase::Extra { remaining } => {
                self.echo_requests.insert(broadcast_id);
                ctx.phase = if remaining <= 1 {
                    Phase::Finished
                } else {
                    Phase::Extra { remaining: remaining - 1 }
                };
                let ghost c2 = ctx@;
                self.contexts.insert(i, (key, ctx));
                proof {
                    assert(self@.contexts =~= m0.contexts.update(i as int, (broadcast_id, c2)));
                    assert(self@ =~= spec_step_round(m0, broadcast_id, now)->Ok_0);
                }
                Ok(())
            },
            Phase::Running => {
                let num_peers = self.active_peers.len();
                let num_echos = ctx.acked.len();
                match quorum_decision(num_peers, num_echos) {
                    QuorumDecision::Accept => {
                        match self.clock.observe(ctx.origin_timestamp, now) {
                            Err(e) => {
                                self.contexts.insert(i, (key, ctx));
                                proof {
                                    assert(self@.contexts =~= m0.contexts);
                                    assert(self@ =~= m0);
                                }
                                Err(e)
                            },
                            Ok(tagged) => {
                                proof {
                                    assert(tagged >= c.origin_timestamp);
                                }
                                let latency = tagged - ctx.origin_timestamp;
                                let data_val = match ctx.data.take() {
                                    Some(d) => d,
                                    None => {
                                        proof {
                                            assert(false);
                                        }
                                        vstd::pervasive::unreached()
                                    },
                                };
                                let num_rounds = ctx.rounds + 1;
                                let event = Event {
                                    result: Ok(data_val),
                                    broadcast_id,
                                    latency,
                                    num_rounds,
                                };
                                let ghost ev = event;
                                let budget = self.max_rounds - num_rounds;
                                let extra = if self.extra_rounds <= budget {
                                    self.extra_rounds
                                } else {
                                    budget
                                };
                                ctx.rounds = num_rounds;
                                ctx.phase = if extra == 0 {
                                    Phase::Finished
                                } else {
                                    Phase::Extra { remaining: extra }
                                };
                                let ghost c2 = ctx@;
                                self.contexts.insert(i, (key, ctx));
                                self.commits.push(event);
                                self.emitted = Ghost(self.emitted@.push(ev));
                                proof {
                                    assert(self@.contexts =~= m0.contexts.update(
                                        i as int,
                                        (broadcast_id, c2),
                                    ));
                                    assert(self@ =~= spec_step_round(m0, broadcast_id, now)->Ok_0);
                                }
                                Ok(())
                            },
                        }
                    },
                    QuorumDecision::Retry => {
                        let num_rounds = ctx.rounds + 1;
                        if num_rounds < self.max_rounds {
                            self.echo_requests.insert(broadcast_id);
                            ctx.rounds = num_rounds;
                            let ghost c2 = ctx@;
                            self.contexts.insert(i, (key, ctx));
                            proof {
                                assert(self@.contexts =~= m0.contexts.update(
                                    i as int,
                                    (broadcast_id, c2),
                                ));
                                assert(self@ =~= spec_step_round(m0, broadcast_id, now)->Ok_0);
                            }
                            Ok(())
                        } else {
                            match self.clock.observe(ctx.origin_timestamp, now) {
                                Err(e) => {
                                    self.contexts.insert(i, (key, ctx));
                                    proof {
                                        assert(self@.contexts =~= m0.contexts);
                                        assert(self@ =~= m0);
                                    }
                                    Err(e)
                                },
                                Ok(tagged) => {
                                    proof {
                                        assert(tagged >= c.origin_timestamp);
                                    }
                                    self.echo_requests.insert(broadcast_id);
                                    let latency = tagged - ctx.origin_timestamp;
                                    let event = Event {
                                        result: Err(crate::stream::ConsensusError::ConsensusLost),
                                        broadcast_id,
                                        latency,
                                        num_rounds: self.max_rounds,
                                    };
                                    let ghost ev = event;
                                    ctx.data = None;
                                    ctx.rounds = num_rounds;
                                    ctx.phase = Phase::Finished;
                                    let ghost c2 = ctx@;
                                    self.contexts.insert(i, (key, ctx));
                                    self.commits.push(event);
                                    self.emitted = Ghost(self.emitted@.push(ev));
                                    proof {
                                        assert(self@.contexts =~= m0.contexts.update(
                                            i as int,
                                            (broadcast_id, c2),
                                        ));
                                        assert(self@ =~= spec_step_round(
                                            m0,
                                            broadcast_id,
                                            now,
                                        )->Ok_0);
                                    }
                                    Ok(())
                                },
                            }
                        }
                    },
                    QuorumDecision::Reject(reason) => {
                        match self.clock.observe(ctx.origin_timestamp, now) {
                            Err(e) => {
                                self.contexts.insert(i, (key, ctx));
                                proof {
                                    assert(self@.contexts =~= m0.contexts);
                                    assert(self@ =~= m0);
                                }
                                Err(e)
                            },
                            Ok(tagged) => {
                                proof {
                                    assert(tagged >= c.origin_timestamp);
                                }
                                let latency = tagged - ctx.origin_timestamp;
                                let num_rounds = ctx.rounds + 1;
                                let event = Event {
                                    result: Err(reason),
                                    broadcast_id,
                                    latency,
                                    num_rounds,
                                };
                                let ghost ev = event;
                                ctx.data = None;
                                ctx.rounds = num_rounds;
                                ctx.phase = Phase::Finished;
                                let ghost c2 = ctx@;
                                self.contexts.insert(i, (key, ctx));
                                self.commits.push(event);
                                self.emitted = Ghost(self.emitted@.push(ev));
                                proof {
                                    assert(self@.contexts =~= m0.contexts.update(
                                        i as int,
                                        (broadcast_id, c2),
                                    ));
                                    assert(self@ =~= spec_step_round(m0, broadcast_id, now)->Ok_0);
                                }
                                Ok(())
                            },
                        }
                    },
                }
            },
        }
    }

    /// Consume the event stream: yield the front of the queue only once its
    /// broadcast's worker has fully finished (including any extra rounds), and
    /// remove the broadcast's context at that moment; otherwise yield nothing.
    pub fn next_event(&mut self) -> (r: Option<Event<T>>)
        requires
            old(self).wf(),
        ensures
            final(self).wf(),
            final(self)@ == crate::model::spec_next_event(old(self)@).0,
            r == crate::model::spec_next_event(old(self)@).1,
    {
        let ghost m0 = self@;
        proof {
            lemma_wf_next_event(m0);
        }
        if self.commits.is_empty() {
            return None;
        }
        let id = self.commits[0].broadcast_id;
        let i = match find_key(&self.contexts, id) {
            Some(i) => i,
            None => {
                proof {
                    assert(has_key(m0.contexts, id));
                    let w = key_index(m0.contexts, id);
                    assert(0 <= w < m0.contexts.len() && m0.contexts[w].0 == id);
                    assert(self.contexts@[w].0 == id);
                    assert(false);
                }
                0
            },
        };
        proof {
            assert(self@.contexts[i as int].0 == id);
            lemma_key_index_unique(m0.contexts, id, i as int);
        }
        let finished = matches!(self.contexts[i].1.phase, Phase::Finished);
        if finished {
            proof {
                assert forall|j: int| 0 <= j < i implies m0.contexts[j].0 != id by {
                    assert(m0.contexts[j].0 == self.contexts@[j].0);
                }
                lemma_remove_key_at(m0.contexts, id, i as int);
            }
            let removed = self.contexts.remove(i);
            let e = self.commits.remove(0);
            proof {
                assert(self@.contexts =~= crate::collections::remove_key(m0.contexts, id));
                assert(self@.commits =~= m0.commits.drop_first());
                assert(self@ =~= crate::model::spec_next_event(m0).0);
            }
            Some(e)
        } else {
            proof {
                assert(crate::collections::lookup(m0.contexts, id).phase != Phase::Finished);
            }
            None
        }
    }
}

} // verus!

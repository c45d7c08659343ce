//! The mathematical model of the engine: a pure snapshot of the shared state
//! together with one transition function per engine operation. Every
//! executable operation of [`crate::state::State`] promises in its contract
//! that it realizes exactly the corresponding transition of this model.

use vstd::prelude::*;
use crate::clock::{clock_ok, spec_observe};
use crate::collections::{
    has_key, key_index, keys_unique, lemma_key_index_unique, lemma_push_fresh, lemma_push_unique,
    lemma_remove_key_absent, lemma_remove_key_all, lemma_update_key, lookup, push_unique,
    remove_key,
};
use crate::message::{BroadcastId, Message, PeerId};
use crate::quorum::{spec_quorum_decision, QuorumDecision};
use crate::stream::Event;
use crate::Error;

verus! {

/// Where one broadcast's worker stands: still deciding, running the
/// convergence tail after acceptance, or done.
#[derive(Debug, Clone, Copy, PartialEq, Eq, Structural)]
pub enum Phase {
    /// Rounds are still being decided; no event has been emitted.
    Running,
    /// The broadcast was accepted and its event emitted; this many extra
    /// echo-request rounds remain (always at least one while in this phase).
    Extra { remaining: usize },
    /// The terminal event has been emitted and no round does anything more.
    Finished,
}

/// The snapshot of one broadcast's context: the peers that echoed it, the
/// payload (present until it is handed out in the acceptance event), the
/// origin timestamp of the broadcast envelope, the number of decision rounds
/// completed, and the phase of its worker.
#[verifier::ext_equal]
pub struct CtxModel<T> {
    pub acked: Seq<PeerId>,
    pub data: Option<T>,
    pub origin_timestamp: u64,
    pub rounds: usize,
    pub phase: Phase,
}

/// The snapshot of the whole engine state of one participant. `emitted` and
/// `admitted` are histories: every event ever produced and every broadcast
/// identifier ever admitted, in order; `commits` is the queue of produced
/// events not yet consumed, always a suffix of `emitted`.
#[verifier::ext_equal]
pub struct StateModel<T> {
    pub my_id: PeerId,
    pub seq_number: u64,
    pub active_peers: Seq<PeerId>,
    pub echo_requests: Seq<BroadcastId>,
    pub contexts: Seq<(BroadcastId, CtxModel<T>)>,
    pub pending_echos: Seq<(BroadcastId, Seq<PeerId>)>,
    pub commits: Seq<Event<T>>,
    pub emitted: Seq<Event<T>>,
    pub admitted: Seq<BroadcastId>,
    pub max_rounds: usize,
    pub extra_rounds: usize,
    pub round_timeout: u64,
    pub echo_interval: u64,
    pub clock: u64,
}

/// The smaller of two lengths.
pub open spec fn min_usize(a: usize, b: usize) -> usize {
    if a <= b {
        a
    } else {
        b
    }
}

/// How many of the events in `s` decide the broadcast `id`.
pub open spec fn count_events<T>(s: Seq<Event<T>>, id: BroadcastId) -> nat
    decreases s.len(),
{
    if s.len() == 0 {
        0
    } else {
        count_events(s.drop_last(), id) + if s.last().broadcast_id == id {
            1nat
        } else {
            0nat
        }
    }
}

/// How many of the identifiers in `s` equal `id`.
pub open spec fn count_ids(s: Seq<BroadcastId>, id: BroadcastId) -> nat
    decreases s.len(),
{
    if s.len() == 0 {
        0
    } else {
        count_ids(s.drop_last(), id) + if s.last() == id {
            1nat
        } else {
            0nat
        }
    }
}

/// The state an engine starts from.
pub open spec fn spec_init<T>(
    my_id: PeerId,
    max_rounds: usize,
    extra_rounds: usize,
    round_timeout: u64,
    echo_interval: u64,
) -> StateModel<T> {
    StateModel {
        my_id,
        seq_number: 0,
        active_peers: Seq::empty(),
        echo_requests: Seq::empty(),
        contexts: Seq::empty(),
        pending_echos: Seq::empty(),
        commits: Seq::empty(),
        emitted: Seq::empty(),
        admitted: Seq::empty(),
        max_rounds,
        extra_rounds,
        round_timeout,
        echo_interval,
        clock: 0,
    }
}

/// A present message only teaches the engine that its sender is alive.
pub open spec fn spec_handle_present<T>(m: StateModel<T>, from: PeerId) -> StateModel<T> {
    StateModel { active_peers: push_unique(m.active_peers, from), ..m }
}

/// A broadcast message: its sender becomes an active peer; a duplicate of an
/// open context changes nothing else; otherwise a context is admitted, seeded
/// with any echoes that arrived ahead of the broadcast, and an echo for it is
/// requested immediately.
pub open spec fn spec_handle_broadcast<T>(
    m: StateModel<T>,
    timestamp: u64,
    from: PeerId,
    seq: u64,
    data: T,
) -> StateModel<T> {
    let id = BroadcastId { broadcaster: from, seq };
    let m1 = StateModel { active_peers: push_unique(m.active_peers, from), ..m };
    if has_key(m.contexts, id) {
        m1
    } else {
        let seed: Seq<PeerId> = if has_key(m.pending_echos, id) {
            lookup(m.pending_echos, id)
        } else {
            Seq::empty()
        };
        let ctx = CtxModel {
            acked: seed,
            data: Some(data),
            origin_timestamp: timestamp,
            rounds: 0,
            phase: Phase::Running,
        };
        StateModel {
            contexts: m1.contexts.push((id, ctx)),
            pending_echos: remove_key(m1.pending_echos, id),
            echo_requests: push_unique(m1.echo_requests, id),
            admitted: m1.admitted.push(id),
            ..m1
        }
    }
}

/// One echoed identifier: recorded in the open context if there is one, and
/// kept among the pending echoes otherwise.
pub open spec fn spec_echo_one<T>(m: StateModel<T>, from: PeerId, id: BroadcastId) -> StateModel<
    T,
> {
    if has_key(m.contexts, id) {
        let i = key_index(m.contexts, id);
        let c = m.contexts[i].1;
        StateModel {
            contexts: m.contexts.update(i, (id, CtxModel { acked: push_unique(c.acked, from), ..c })),
            ..m
        }
    } else if has_key(m.pending_echos, id) {
        let i = key_index(m.pending_echos, id);
        let s = m.pending_echos[i].1;
        StateModel { pending_echos: m.pending_echos.update(i, (id, push_unique(s, from))), ..m }
    } else {
        StateModel { pending_echos: m.pending_echos.push((id, seq![from])), ..m }
    }
}

/// The echoed identifiers of one echo message, applied in order.
pub open spec fn spec_echo_all<T>(
    m: StateModel<T>,
    from: PeerId,
    ids: Seq<BroadcastId>,
) -> StateModel<T>
    decreases ids.len(),
{
    if ids.len() == 0 {
        m
    } else {
        spec_echo_all(spec_echo_one(m, from, ids[0]), from, ids.drop_first())
    }
}

/// An echo message: its sender becomes an active peer, then every identifier
/// it references is recorded.
pub open spec fn spec_handle_echo<T>(
    m: StateModel<T>,
    from: PeerId,
    ids: Seq<BroadcastId>,
) -> StateModel<T> {
    spec_echo_all(
        StateModel { active_peers: push_unique(m.active_peers, from), ..m },
        from,
        ids,
    )
}

/// The receiving worker's dispatch: one decoded message, handled by kind.
pub open spec fn spec_handle_message<T>(
    m: StateModel<T>,
    timestamp: u64,
    msg: Message<T>,
) -> StateModel<T> {
    match msg {
        Message::Broadcast(b) => spec_handle_broadcast(m, timestamp, b.from, b.seq, b.data),
        Message::Present(p) => spec_handle_present(m, p.from),
        Message::Echo(e) => spec_handle_echo(m, e.from, e.broadcast_ids@),
    }
}

/// The receiving worker's full step for one decoded envelope: fold the
/// envelope's timestamp into the logical clock — a timestamp that has drifted
/// pathologically far from local time is a fatal error, with the state
/// unchanged — and dispatch the message by kind.
pub open spec fn spec_receive_message<T>(
    m: StateModel<T>,
    timestamp: u64,
    now: u64,
    msg: Message<T>,
) -> Result<StateModel<T>, Error> {
    if !clock_ok(timestamp, now) {
        Err(Error::ClockDrift)
    } else {
        let m1 = spec_handle_message(m, timestamp, msg);
        Ok(StateModel { clock: spec_observe(m1.clock, timestamp, now), ..m1 })
    }
}

/// The clock is free: any clock value is consistent with the rest of a
/// well-formed state.
pub proof fn lemma_wf_clock_update<T>(m: StateModel<T>, clock: u64)
    requires
        wf(m),
    ensures
        wf(StateModel { clock, ..m }),
{
}

/// The echo worker's tick empties the request set.
pub open spec fn spec_take_echo<T>(m: StateModel<T>) -> StateModel<T> {
    StateModel { echo_requests: Seq::empty(), ..m }
}

/// Originating a broadcast only advances the local sequence counter; the
/// engine learns of its own broadcast through the normal receiving path.
pub open spec fn spec_broadcast<T>(m: StateModel<T>) -> StateModel<T> {
    StateModel { seq_number: (m.seq_number + 1) as u64, ..m }
}

/// One round tick for the broadcast `id` at local time `now`: no context or a
/// finished one changes nothing; an extra round re-requests an echo and
/// shortens the tail; a running round applies the quorum rule, and on a
/// terminal decision folds the origin timestamp into the clock (failing on
/// pathological drift, with the state unchanged) and emits the one event of
/// this broadcast.
pub open spec fn spec_step_round<T>(m: StateModel<T>, id: BroadcastId, now: u64) -> Result<
    StateModel<T>,
    Error,
> {
    if !has_key(m.contexts, id) {
        Ok(m)
    } else {
        let i = key_index(m.contexts, id);
        let c = m.contexts[i].1;
        match c.phase {
            Phase::Finished => Ok(m),
            Phase::Extra { remaining } => {
                let phase = if remaining <= 1 {
                    Phase::Finished
                } else {
                    Phase::Extra { remaining: (remaining - 1) as usize }
                };
                Ok(
                    StateModel {
                        echo_requests: push_unique(m.echo_requests, id),
                        contexts: m.contexts.update(i, (id, CtxModel { phase, ..c })),
                        ..m
                    },
                )
            },
            Phase::Running => {
                let num_peers = m.active_peers.len() as int;
                let num_echos = c.acked.len() as int;
                match spec_quorum_decision(num_peers, num_echos) {
                    QuorumDecision::Accept => {
                        if !clock_ok(c.origin_timestamp, now) {
                            Err(Error::ClockDrift)
                        } else {
                            let tagged = spec_observe(m.clock, c.origin_timestamp, now);
                            let event = Event {
                                result: Ok(c.data->0),
                                broadcast_id: id,
                                latency: (tagged - c.origin_timestamp) as u64,
                                num_rounds: (c.rounds + 1) as usize,
                            };
                            let extra = min_usize(
                                m.extra_rounds,
                                (m.max_rounds - (c.rounds + 1)) as usize,
                            );
                            let phase = if extra == 0 {
                                Phase::Finished
                            } else {
                                Phase::Extra { remaining: extra }
                            };
                            let ctx = CtxModel {
                                data: None,
                                rounds: (c.rounds + 1) as usize,
                                phase,
                                ..c
                            };
                            Ok(
                                StateModel {
                                    contexts: m.contexts.update(i, (id, ctx)),
                                    commits: m.commits.push(event),
                                    emitted: m.emitted.push(event),
                                    clock: tagged,
                                    ..m
                                },
                            )
                        }
                    },
                    QuorumDecision::Retry => {
                        let m1 = StateModel {
                            echo_requests: push_unique(m.echo_requests, id),
                            ..m
                        };
                        if c.rounds + 1 < m.max_rounds {
                            let ctx = CtxModel { rounds: (c.rounds + 1) as usize, ..c };
                            Ok(StateModel { contexts: m1.contexts.update(i, (id, ctx)), ..m1 })
                        } else {
                            if !clock_ok(c.origin_timestamp, now) {
                                Err(Error::ClockDrift)
                            } else {
                                let tagged = spec_observe(m.clock, c.origin_timestamp, now);
                                let event = Event {
                                    result: Err(crate::stream::ConsensusError::ConsensusLost),
                                    broadcast_id: id,
                                    latency: (tagged - c.origin_timestamp) as u64,
                                    num_rounds: m.max_rounds,
                                };
                                let ctx = CtxModel {
                                    data: None,
                                    rounds: (c.rounds + 1) as usize,
                                    phase: Phase::Finished,
                                    ..c
                                };
                                Ok(
                                    StateModel {
                                        contexts: m1.contexts.update(i, (id, ctx)),
                                        commits: m1.commits.push(event),
                                        emitted: m1.emitted.push(event),
                                        clock: tagged,
                                        ..m1
                                    },
                                )
                            }
                        }
                    },
                    QuorumDecision::Reject(reason) => {
                        if !clock_ok(c.origin_timestamp, now) {
                            Err(Error::ClockDrift)
                        } else {
                            let tagged = spec_observe(m.clock, c.origin_timestamp, now);
                            let event = Event {
                                result: Err(reason),
                                broadcast_id: id,
                                latency: (tagged - c.origin_timestamp) as u64,
                                num_rounds: (c.rounds + 1) as usize,
                            };
                            let ctx = CtxModel {
                                data: None,
                                rounds: (c.rounds + 1) as usize,
                                phase: Phase::Finished,
                                ..c
                            };
                            Ok(
                                StateModel {
                                    contexts: m.contexts.update(i, (id, ctx)),
                                    commits: m.commits.push(event),
                                    emitted: m.emitted.push(event),
                                    clock: tagged,
                                    ..m
                                },
                            )
                        }
                    },
                }
            },
        }
    }
}

/// What consuming the event stream does: the front of the queue is yielded
/// only once its broadcast's worker has fully finished (including any extra
/// rounds), and the context is removed at that moment; otherwise nothing
/// changes.
pub open spec fn spec_next_event<T>(m: StateModel<T>) -> (StateModel<T>, Option<Event<T>>) {
    if m.commits.len() == 0 {
        (m, None)
    } else {
        let e = m.commits[0];
        if has_key(m.contexts, e.broadcast_id) && lookup(m.contexts, e.broadcast_id).phase
            == Phase::Finished {
            (
                StateModel {
                    commits: m.commits.drop_first(),
                    contexts: remove_key(m.contexts, e.broadcast_id),
                    ..m
                },
                Some(e),
            )
        } else {
            (m, None)
        }
    }
}

/// Whether a broadcast for `id` is currently open and still deciding. Exactly
/// while this holds, the event for this admission has not been emitted.
pub open spec fn running_flag<T>(m: StateModel<T>, id: BroadcastId) -> nat {
    if has_key(m.contexts, id) && lookup(m.contexts, id).phase is Running {
        1
    } else {
        0
    }
}

/// Well-formedness of one broadcast context against the engine's round
/// budget: the echoing peers are distinct; a deciding context still has its
/// payload and rounds left in the budget; a convergence tail is nonempty and
/// within the configured extra rounds; the payload leaves with the event.
pub open spec fn ctx_wf<T>(max_rounds: usize, extra_rounds: usize, c: CtxModel<T>) -> bool {
    &&& c.acked.no_duplicates()
    &&& c.rounds <= max_rounds
    &&& (c.phase is Running ==> c.rounds < max_rounds && c.data is Some)
    &&& (c.phase matches Phase::Extra { remaining } ==> 1 <= remaining <= extra_rounds
        && c.data is None)
    &&& (c.phase is Finished ==> c.data is None)
}

/// The engine invariant. Every collection is duplicate-free and uniquely
/// keyed; echoes for an identifier live either in its open context or among
/// the pending echoes, never both; pending entries are nonempty; the
/// configuration passed its sanity check; every queued event belongs to a
/// live context that is past its decision, at most one per identifier; the
/// queue is a suffix of the emission history; and per identifier, the number
/// of events ever emitted plus the one still owed by a deciding context
/// equals the number of admissions.
pub open spec fn wf<T>(m: StateModel<T>) -> bool {
    &&& m.active_peers.no_duplicates()
    &&& m.echo_requests.no_duplicates()
    &&& keys_unique(m.contexts)
    &&& keys_unique(m.pending_echos)
    &&& (forall|id: BroadcastId|
        #[trigger] has_key(m.pending_echos, id) ==> !has_key(m.contexts, id))
    &&& (forall|i: int|
        0 <= i < m.contexts.len() ==> ctx_wf(
            m.max_rounds,
            m.extra_rounds,
            #[trigger] m.contexts[i].1,
        ))
    &&& (forall|i: int|
        0 <= i < m.pending_echos.len() ==> ((#[trigger] m.pending_echos[i].1).no_duplicates()
            && m.pending_echos[i].1.len() > 0))
    &&& m.extra_rounds < m.max_rounds
    &&& m.echo_interval < m.round_timeout
    &&& (forall|i: int|
        0 <= i < m.commits.len() ==> (has_key(m.contexts, (#[trigger] m.commits[i]).broadcast_id)
            && !(lookup(m.contexts, m.commits[i].broadcast_id).phase is Running)))
    &&& (forall|i: int, j: int|
        0 <= i < j < m.commits.len() ==> (#[trigger] m.commits[i]).broadcast_id != (
        #[trigger] m.commits[j]).broadcast_id)
    &&& m.commits.len() <= m.emitted.len()
    &&& m.commits == m.emitted.skip(m.emitted.len() - m.commits.len())
    &&& (forall|id: BroadcastId|
        #[trigger] count_events(m.emitted, id) + running_flag(m, id) == count_ids(m.admitted, id))
}

/// Appending an event adds one to the count of its own identifier.
pub proof fn lemma_count_events_push<T>(s: Seq<Event<T>>, e: Event<T>, id: BroadcastId)
    ensures
        count_events(s.push(e), id) == count_events(s, id) + if e.broadcast_id == id {
            1nat
        } else {
            0nat
        },
{
    assert(s.push(e).drop_last() =~= s);
}

/// Appending an identifier adds one to its own count.
pub proof fn lemma_count_ids_push(s: Seq<BroadcastId>, a: BroadcastId, id: BroadcastId)
    ensures
        count_ids(s.push(a), id) == count_ids(s, id) + if a == id {
            1nat
        } else {
            0nat
        },
{
    assert(s.push(a).drop_last() =~= s);
}

/// An identifier counted zero times does not occur.
pub proof fn lemma_count_ids_zero(s: Seq<BroadcastId>, id: BroadcastId)
    ensures
        count_ids(s, id) == 0 <==> !s.contains(id),
    decreases s.len(),
{
    if s.len() > 0 {
        lemma_count_ids_zero(s.drop_last(), id);
        if s.contains(id) {
            let i = choose|i: int| 0 <= i < s.len() && s[i] == id;
            if i < s.len() - 1 {
                assert(s.drop_last()[i] == id);
            }
        }
        if s.drop_last().contains(id) {
            let i = choose|i: int| 0 <= i < s.len() - 1 && s.drop_last()[i] == id;
            assert(s[i] == id);
        }
    }
}

/// The initial state is well formed whenever the configuration passed its
/// sanity check.
pub proof fn lemma_wf_init<T>(
    my_id: PeerId,
    max_rounds: usize,
    extra_rounds: usize,
    round_timeout: u64,
    echo_interval: u64,
)
    requires
        extra_rounds < max_rounds,
        echo_interval < round_timeout,
    ensures
        wf(spec_init::<T>(my_id, max_rounds, extra_rounds, round_timeout, echo_interval)),
{
    let m = spec_init::<T>(my_id, max_rounds, extra_rounds, round_timeout, echo_interval);
    assert(m.commits =~= m.emitted.skip(0));
    assert forall|id: BroadcastId|
        #[trigger] count_events(m.emitted, id) + running_flag(m, id) == count_ids(
            m.admitted,
            id,
        ) by {
        assert(!has_key(m.contexts, id));
    }
}

/// A present message preserves the invariant.
pub proof fn lemma_wf_handle_present<T>(m: StateModel<T>, from: PeerId)
    requires
        wf(m),
    ensures
        wf(spec_handle_present(m, from)),
{
    lemma_push_unique(m.active_peers, from);
}

/// The echo worker's tick preserves the invariant.
pub proof fn lemma_wf_take_echo<T>(m: StateModel<T>)
    requires
        wf(m),
    ensures
        wf(spec_take_echo(m)),
{
}

/// Originating a broadcast preserves the invariant.
pub proof fn lemma_wf_broadcast<T>(m: StateModel<T>)
    requires
        wf(m),
    ensures
        wf(spec_broadcast(m)),
{
}

/// A broadcast message preserves the invariant.
pub proof fn lemma_wf_handle_broadcast<T>(
    m: StateModel<T>,
    timestamp: u64,
    from: PeerId,
    seq: u64,
    data: T,
)
    requires
        wf(m),
    ensures
        wf(spec_handle_broadcast(m, timestamp, from, seq, data)),
{
    let id = BroadcastId { broadcaster: from, seq };
    let m2 = spec_handle_broadcast(m, timestamp, from, seq, data);
    lemma_push_unique(m.active_peers, from);
    if has_key(m.contexts, id) {
    } else {
        let seed: Seq<PeerId> = if has_key(m.pending_echos, id) {
            lookup(m.pending_echos, id)
        } else {
            Seq::empty()
        };
        let ctx = CtxModel {
            acked: seed,
            data: Some(data),
            origin_timestamp: timestamp,
            rounds: 0,
            phase: Phase::Running,
        };
        assert(seed.no_duplicates()) by {
            if has_key(m.pending_echos, id) {
                let pi = key_index(m.pending_echos, id);
                assert(0 <= pi < m.pending_echos.len() && m.pending_echos[pi].0 == id);
                assert(m.pending_echos[pi].1.no_duplicates());
            }
        }
        lemma_push_fresh(m.contexts, (id, ctx));
        lemma_push_unique(m.echo_requests, id);
        if has_key(m.pending_echos, id) {
            let pi = key_index(m.pending_echos, id);
            assert(0 <= pi < m.pending_echos.len() && m.pending_echos[pi].0 == id);
            lemma_remove_key_all(m.pending_echos, id, pi);
        } else {
            lemma_remove_key_absent(m.pending_echos, id);
            assert(m2.pending_echos == m.pending_echos);
        }
        // Every surviving pending entry is an old entry, so its value is
        // still duplicate-free and nonempty.
        assert forall|j: int|
            0 <= j < m2.pending_echos.len() implies ((#[trigger] m2.pending_echos[j].1)
            .no_duplicates() && m2.pending_echos[j].1.len() > 0) by {
            if has_key(m.pending_echos, id) {
                let j0 = choose|j0: int|
                    0 <= j0 < m.pending_echos.len() && m2.pending_echos[j] == m.pending_echos[j0];
                assert(m.pending_echos[j0].1.no_duplicates());
            } else {
                assert(m2.pending_echos[j] == m.pending_echos[j]);
                assert(m.pending_echos[j].1.no_duplicates());
            }
        }
        // The new context's entries satisfy the per-context conditions.
        assert forall|j: int| 0 <= j < m2.contexts.len() implies ctx_wf(
            m2.max_rounds,
            m2.extra_rounds,
            #[trigger] m2.contexts[j].1,
        ) by {
            if j < m.contexts.len() {
                assert(m2.contexts[j] == m.contexts[j]);
                assert(ctx_wf(m.max_rounds, m.extra_rounds, m.contexts[j].1));
            } else {
                assert(m2.contexts[j].1 == ctx);
            }
        }
        // Queued events still name live, decided contexts: the admitted
        // identifier is fresh, so no queued event names it.
        assert forall|i: int| 0 <= i < m2.commits.len() implies (has_key(
            m2.contexts,
            (#[trigger] m2.commits[i]).broadcast_id,
        ) && !(lookup(m2.contexts, m2.commits[i].broadcast_id).phase is Running)) by {
            let x = m.commits[i].broadcast_id;
            assert(has_key(m.contexts, x));
        }
        // The per-identifier counting stays balanced: the admission adds one
        // on both sides for the new identifier and nothing elsewhere.
        assert forall|x: BroadcastId|
            #[trigger] count_events(m2.emitted, x) + running_flag(m2, x) == count_ids(
                m2.admitted,
                x,
            ) by {
            lemma_count_ids_push(m.admitted, id, x);
            if x == id {
                assert(running_flag(m, x) == 0);
                assert(lookup(m2.contexts, id) == ctx);
                assert(running_flag(m2, x) == 1);
            } else {
                assert(has_key(m2.contexts, x) <==> has_key(m.contexts, x));
                if has_key(m.contexts, x) {
                    assert(lookup(m2.contexts, x) == lookup(m.contexts, x));
                }
                assert(running_flag(m2, x) == running_flag(m, x));
            }
        }
    }
}

/// Recording one echoed identifier preserves the invariant, and touches
/// nothing besides that identifier's context or pending entry.
pub proof fn lemma_wf_echo_one<T>(m: StateModel<T>, from: PeerId, id: BroadcastId)
    requires
        wf(m),
    ensures
        wf(spec_echo_one(m, from, id)),
{
    let m2 = spec_echo_one(m, from, id);
    if has_key(m.contexts, id) {
        let i = key_index(m.contexts, id);
        assert(0 <= i < m.contexts.len() && m.contexts[i].0 == id);
        let c = m.contexts[i].1;
        let c2 = CtxModel { acked: push_unique(c.acked, from), ..c };
        assert(ctx_wf(m.max_rounds, m.extra_rounds, c));
        lemma_push_unique(c.acked, from);
        lemma_update_key(m.contexts, i, (id, c2));
        assert forall|j: int| 0 <= j < m2.contexts.len() implies ctx_wf(
            m2.max_rounds,
            m2.extra_rounds,
            #[trigger] m2.contexts[j].1,
        ) by {
            if j != i {
                assert(m2.contexts[j] == m.contexts[j]);
                assert(ctx_wf(m.max_rounds, m.extra_rounds, m.contexts[j].1));
            }
        }
        assert forall|i2: int| 0 <= i2 < m2.commits.len() implies (has_key(
            m2.contexts,
            (#[trigger] m2.commits[i2]).broadcast_id,
        ) && !(lookup(m2.contexts, m2.commits[i2].broadcast_id).phase is Running)) by {
            let x = m.commits[i2].broadcast_id;
            assert(has_key(m.contexts, x));
            if x == id {
                assert(lookup(m2.contexts, id) == c2);
            } else {
                assert(lookup(m2.contexts, x) == lookup(m.contexts, x));
            }
        }
        assert forall|x: BroadcastId|
            #[trigger] count_events(m2.emitted, x) + running_flag(m2, x) == count_ids(
                m2.admitted,
                x,
            ) by {
            if x == id {
                assert(lookup(m2.contexts, id) == c2);
                assert(running_flag(m2, x) == running_flag(m, x));
            } else {
                if has_key(m.contexts, x) {
                    assert(lookup(m2.contexts, x) == lookup(m.contexts, x));
                }
                assert(running_flag(m2, x) == running_flag(m, x));
            }
        }
    } else if has_key(m.pending_echos, id) {
        let i = key_index(m.pending_echos, id);
        assert(0 <= i < m.pending_echos.len() && m.pending_echos[i].0 == id);
        let s = m.pending_echos[i].1;
        assert(s.no_duplicates() && s.len() > 0);
        lemma_push_unique(s, from);
        lemma_update_key(m.pending_echos, i, (id, push_unique(s, from)));
        assert forall|j: int|
            0 <= j < m2.pending_echos.len() implies ((#[trigger] m2.pending_echos[j].1)
            .no_duplicates() && m2.pending_echos[j].1.len() > 0) by {
            if j != i {
                assert(m2.pending_echos[j] == m.pending_echos[j]);
                assert(m.pending_echos[j].1.no_duplicates());
            }
        }
    } else {
        lemma_push_fresh(m.pending_echos, (id, seq![from]));
        assert(seq![from].len() == 1);
        assert forall|j: int|
            0 <= j < m2.pending_echos.len() implies ((#[trigger] m2.pending_echos[j].1)
            .no_duplicates() && m2.pending_echos[j].1.len() > 0) by {
            if j < m.pending_echos.len() {
                assert(m2.pending_echos[j] == m.pending_echos[j]);
                assert(m.pending_echos[j].1.no_duplicates());
            } else {
                assert(m2.pending_echos[j].1 == seq![from]);
            }
        }
    }
}

/// Recording a batch of echoed identifiers preserves the invariant.
pub proof fn lemma_wf_echo_all<T>(m: StateModel<T>, from: PeerId, ids: Seq<BroadcastId>)
    requires
        wf(m),
    ensures
        wf(spec_echo_all(m, from, ids)),
    decreases ids.len(),
{
    if ids.len() > 0 {
        lemma_wf_echo_one(m, from, ids[0]);
        lemma_wf_echo_all(spec_echo_one(m, from, ids[0]), from, ids.drop_first());
    }
}

/// Folding the identifiers from the front, one more identifier at the back
/// lands on the state already folded.
pub proof fn lemma_echo_all_push<T>(
    m: StateModel<T>,
    from: PeerId,
    ids: Seq<BroadcastId>,
    id: BroadcastId,
)
    ensures
        spec_echo_all(m, from, ids.push(id)) == spec_echo_one(spec_echo_all(m, from, ids), from, id),
    decreases ids.len(),
{
    if ids.len() == 0 {
        assert(ids.push(id)[0] == id);
        assert(ids.push(id).drop_first() =~= Seq::<BroadcastId>::empty());
        let m1 = spec_echo_one(m, from, id);
        assert(spec_echo_all(m, from, ids.push(id)) == spec_echo_all(
            m1,
            from,
            Seq::<BroadcastId>::empty(),
        ));
        assert(spec_echo_all(m1, from, Seq::<BroadcastId>::empty()) == m1);
        assert(spec_echo_all(m, from, ids) == m);
    } else {
        assert(ids.push(id)[0] == ids[0]);
        assert(ids.push(id).drop_first() =~= ids.drop_first().push(id));
        let m0 = spec_echo_one(m, from, ids[0]);
        assert(spec_echo_all(m, from, ids.push(id)) == spec_echo_all(
            m0,
            from,
            ids.drop_first().push(id),
        ));
        lemma_echo_all_push(m0, from, ids.drop_first(), id);
        assert(spec_echo_all(m, from, ids) == spec_echo_all(m0, from, ids.drop_first()));
    }
}

/// An echo message preserves the invariant.
pub proof fn lemma_wf_handle_echo<T>(m: StateModel<T>, from: PeerId, ids: Seq<BroadcastId>)
    requires
        wf(m),
    ensures
        wf(spec_handle_echo(m, from, ids)),
{
    let m1 = StateModel { active_peers: push_unique(m.active_peers, from), ..m };
    lemma_push_unique(m.active_peers, from);
    assert(wf(m1));
    lemma_wf_echo_all(m1, from, ids);
}

/// After an emitting step: the event queue stays a suffix of the history and
/// keeps at most one event per identifier, provided the stepped identifier
/// was not yet queued.
proof fn lemma_emit_queue<T>(m: StateModel<T>, m2: StateModel<T>, event: Event<T>)
    requires
        m.commits.len() <= m.emitted.len(),
        m.commits == m.emitted.skip(m.emitted.len() - m.commits.len()),
        forall|i: int, j: int|
            0 <= i < j < m.commits.len() ==> (#[trigger] m.commits[i]).broadcast_id != (
            #[trigger] m.commits[j]).broadcast_id,
        forall|i: int|
            0 <= i < m.commits.len() ==> (#[trigger] m.commits[i]).broadcast_id
                != event.broadcast_id,
        m2.commits == m.commits.push(event),
        m2.emitted == m.emitted.push(event),
    ensures
        m2.commits.len() <= m2.emitted.len(),
        m2.commits == m2.emitted.skip(m2.emitted.len() - m2.commits.len()),
        forall|i: int, j: int|
            0 <= i < j < m2.commits.len() ==> (#[trigger] m2.commits[i]).broadcast_id != (
            #[trigger] m2.commits[j]).broadcast_id,
{
    let d = m.emitted.len() - m.commits.len();
    assert(m2.commits =~= m2.emitted.skip(d)) by {
        assert forall|k: int| 0 <= k < m2.commits.len() implies m2.commits[k] == m2.emitted.skip(
            d,
        )[k] by {
            if k < m.commits.len() {
                assert(m.commits[k] == m.emitted.skip(d)[k]);
                assert(m2.emitted.skip(d)[k] == m.emitted[d + k]);
                assert(m.emitted.skip(d)[k] == m.emitted[d + k]);
            } else {
                assert(m2.emitted.skip(d)[k] == m2.emitted[d + k]);
                assert(d + k == m.emitted.len());
            }
        }
    }
}

/// One round tick preserves the invariant whenever it returns a state.
pub proof fn lemma_wf_step_round<T>(m: StateModel<T>, id: BroadcastId, now: u64)
    requires
        wf(m),
    ensures
        spec_step_round(m, id, now) matches Ok(m2) ==> wf(m2),
{
    if !has_key(m.contexts, id) {
        return ;
    }
    let i = key_index(m.contexts, id);
    assert(0 <= i < m.contexts.len() && m.contexts[i].0 == id);
    let c = m.contexts[i].1;
    assert(ctx_wf(m.max_rounds, m.extra_rounds, c));
    lemma_key_index_unique(m.contexts, id, i);
    // A queued event never names a context that is still deciding, so while
    // this context is running, its identifier is not in the queue.
    assert(c.phase is Running ==> forall|k: int|
        0 <= k < m.commits.len() ==> (#[trigger] m.commits[k]).broadcast_id != id);
    match c.phase {
        Phase::Finished => {},
        Phase::Extra { remaining } => {
            let phase = if remaining <= 1 {
                Phase::Finished
            } else {
                Phase::Extra { remaining: (remaining - 1) as usize }
            };
            let c2 = CtxModel { phase, ..c };
            let m2 = spec_step_round(m, id, now)->Ok_0;
            lemma_push_unique(m.echo_requests, id);
            lemma_update_key(m.contexts, i, (id, c2));
            lemma_step_ctx_facts(m, m2, i, id, c2);
        },
        Phase::Running => {
            let num_peers = m.active_peers.len() as int;
            let num_echos = c.acked.len() as int;
            let decision = spec_quorum_decision(num_peers, num_echos);
            match decision {
                QuorumDecision::Accept => {
                    if clock_ok(c.origin_timestamp, now) {
                        let m2 = spec_step_round(m, id, now)->Ok_0;
                        let extra = min_usize(
                            m.extra_rounds,
                            (m.max_rounds - (c.rounds + 1)) as usize,
                        );
                        let phase = if extra == 0 {
                            Phase::Finished
                        } else {
                            Phase::Extra { remaining: extra }
                        };
                        let c2 = CtxModel {
                            data: None,
                            rounds: (c.rounds + 1) as usize,
                            phase,
                            ..c
                        };
                        lemma_update_key(m.contexts, i, (id, c2));
                        lemma_step_ctx_facts(m, m2, i, id, c2);
                        lemma_step_emit_facts(m, m2, i, id, c2, m2.emitted.last());
                    }
                },
                QuorumDecision::Retry => {
                    lemma_push_unique(m.echo_requests, id);
                    if c.rounds + 1 < m.max_rounds {
                        let m2 = spec_step_round(m, id, now)->Ok_0;
                        let c2 = CtxModel { rounds: (c.rounds + 1) as usize, ..c };
                        lemma_update_key(m.contexts, i, (id, c2));
                        lemma_step_ctx_facts(m, m2, i, id, c2);
                    } else {
                        if clock_ok(c.origin_timestamp, now) {
                            let m2 = spec_step_round(m, id, now)->Ok_0;
                            let c2 = CtxModel {
                                data: None,
                                rounds: (c.rounds + 1) as usize,
                                phase: Phase::Finished,
                                ..c
                            };
                            lemma_update_key(m.contexts, i, (id, c2));
                            lemma_step_ctx_facts(m, m2, i, id, c2);
                            lemma_step_emit_facts(m, m2, i, id, c2, m2.emitted.last());
                        }
                    }
                },
                QuorumDecision::Reject(_) => {
                    if clock_ok(c.origin_timestamp, now) {
                        let m2 = spec_step_round(m, id, now)->Ok_0;
                        let c2 = CtxModel {
                            data: None,
                            rounds: (c.rounds + 1) as usize,
                            phase: Phase::Finished,
                            ..c
                        };
                        lemma_update_key(m.contexts, i, (id, c2));
                        lemma_step_ctx_facts(m, m2, i, id, c2);
                        lemma_step_emit_facts(m, m2, i, id, c2, m2.emitted.last());
                    }
                },
            }
        },
    }
}

/// The shared bookkeeping facts after one context update: per-context
/// well-formedness, the queued-event conditions, and the counting balance,
/// for a step that did not emit.
proof fn lemma_step_ctx_facts<T>(
    m: StateModel<T>,
    m2: StateModel<T>,
    i: int,
    id: BroadcastId,
    c2: CtxModel<T>,
)
    requires
        wf(m),
        0 <= i < m.contexts.len(),
        m.contexts[i].0 == id,
        m2.contexts == m.contexts.update(i, (id, c2)),
        m2.max_rounds == m.max_rounds,
        m2.extra_rounds == m.extra_rounds,
        m2.pending_echos == m.pending_echos,
        m2.admitted == m.admitted,
        ctx_wf(m.max_rounds, m.extra_rounds, c2),
        // either nothing was emitted ...
        (m2.emitted == m.emitted && m2.commits == m.commits && (c2.phase is Running
            <==> m.contexts[i].1.phase is Running))
        // ... or the one event of this context was
         || (m2.emitted == m.emitted.push(m2.emitted.last()) && m2.commits == m.commits.push(
            m2.emitted.last(),
        ) && m2.emitted.last().broadcast_id == id && m.contexts[i].1.phase is Running && !(
        c2.phase is Running)),
    ensures
        keys_unique(m2.contexts),
        keys_unique(m2.pending_echos),
        forall|x: BroadcastId| #[trigger] has_key(m2.pending_echos, x) ==> !has_key(m2.contexts, x),
        forall|j: int|
            0 <= j < m2.contexts.len() ==> ctx_wf(
                m2.max_rounds,
                m2.extra_rounds,
                #[trigger] m2.contexts[j].1,
            ),
        forall|j: int|
            0 <= j < m2.pending_echos.len() ==> ((#[trigger] m2.pending_echos[j].1).no_duplicates()
                && m2.pending_echos[j].1.len() > 0),
        forall|k: int|
            0 <= k < m2.commits.len() ==> (has_key(
                m2.contexts,
                (#[trigger] m2.commits[k]).broadcast_id,
            ) && !(lookup(m2.contexts, m2.commits[k].broadcast_id).phase is Running)),
        forall|x: BroadcastId|
            #[trigger] count_events(m2.emitted, x) + running_flag(m2, x) == count_ids(
                m2.admitted,
                x,
            ),
{
    let c = m.contexts[i].1;
    lemma_key_index_unique(m.contexts, id, i);
    lemma_update_key(m.contexts, i, (id, c2));
    let emitting = !(m2.emitted == m.emitted);
    assert(c.phase is Running ==> forall|k: int|
        0 <= k < m.commits.len() ==> (#[trigger] m.commits[k]).broadcast_id != id);
    assert forall|x: BroadcastId| #[trigger] has_key(m2.pending_echos, x) implies !has_key(
        m2.contexts,
        x,
    ) by {
        assert(has_key(m.pending_echos, x));
    }
    assert forall|j: int| 0 <= j < m2.contexts.len() implies ctx_wf(
        m2.max_rounds,
        m2.extra_rounds,
        #[trigger] m2.contexts[j].1,
    ) by {
        if j != i {
            assert(m2.contexts[j] == m.contexts[j]);
            assert(ctx_wf(m.max_rounds, m.extra_rounds, m.contexts[j].1));
        }
    }
    assert forall|k: int| 0 <= k < m2.commits.len() implies (has_key(
        m2.contexts,
        (#[trigger] m2.commits[k]).broadcast_id,
    ) && !(lookup(m2.contexts, m2.commits[k].broadcast_id).phase is Running)) by {
        if k < m.commits.len() {
            let x = m.commits[k].broadcast_id;
            assert(m2.commits[k] == m.commits[k]);
            assert(has_key(m.contexts, x));
            if x == id {
                assert(!(c.phase is Running));
                assert(lookup(m2.contexts, id) == c2);
            } else {
                assert(lookup(m2.contexts, x) == lookup(m.contexts, x));
            }
        } else {
            assert(m2.commits[k] == m2.emitted.last());
            assert(lookup(m2.contexts, id) == c2);
        }
    }
    assert forall|x: BroadcastId|
        #[trigger] count_events(m2.emitted, x) + running_flag(m2, x) == count_ids(
            m2.admitted,
            x,
        ) by {
        assert(count_events(m.emitted, x) + running_flag(m, x) == count_ids(m.admitted, x));
        if emitting {
            lemma_count_events_push(m.emitted, m2.emitted.last(), x);
        }
        if x == id {
            assert(lookup(m.contexts, id) == c);
            assert(lookup(m2.contexts, id) == c2);
        } else {
            assert(has_key(m2.contexts, x) <==> has_key(m.contexts, x));
            if has_key(m.contexts, x) {
                assert(lookup(m2.contexts, x) == lookup(m.contexts, x));
            }
            assert(running_flag(m2, x) == running_flag(m, x));
        }
    }
}

/// The queue facts after an emitting step.
proof fn lemma_step_emit_facts<T>(
    m: StateModel<T>,
    m2: StateModel<T>,
    i: int,
    id: BroadcastId,
    c2: CtxModel<T>,
    event: Event<T>,
)
    requires
        wf(m),
        0 <= i < m.contexts.len(),
        m.contexts[i].0 == id,
        m.contexts[i].1.phase is Running,
        m2.commits == m.commits.push(event),
        m2.emitted == m.emitted.push(event),
        event.broadcast_id == id,
    ensures
        m2.commits.len() <= m2.emitted.len(),
        m2.commits == m2.emitted.skip(m2.emitted.len() - m2.commits.len()),
        forall|k: int, l: int|
            0 <= k < l < m2.commits.len() ==> (#[trigger] m2.commits[k]).broadcast_id != (
            #[trigger] m2.commits[l]).broadcast_id,
{
    lemma_key_index_unique(m.contexts, id, i);
    assert forall|k: int| 0 <= k < m.commits.len() implies (#[trigger] m.commits[k]).broadcast_id
        != id by {
        let x = m.commits[k].broadcast_id;
        if x == id {
            assert(!(lookup(m.contexts, id).phase is Running));
        }
    }
    lemma_emit_queue(m, m2, event);
}

/// Consuming the event stream preserves the invariant, and yields the front
/// of the queue exactly when its broadcast's worker has finished.
pub proof fn lemma_wf_next_event<T>(m: StateModel<T>)
    requires
        wf(m),
    ensures
        wf(spec_next_event(m).0),
{
    let (m2, r) = spec_next_event(m);
    if m.commits.len() == 0 {
        return ;
    }
    let e = m.commits[0];
    let id = e.broadcast_id;
    assert(has_key(m.contexts, id) && !(lookup(m.contexts, id).phase is Running));
    if lookup(m.contexts, id).phase == Phase::Finished {
        let ci = key_index(m.contexts, id);
        assert(0 <= ci < m.contexts.len() && m.contexts[ci].0 == id);
        lemma_key_index_unique(m.contexts, id, ci);
        lemma_remove_key_all(m.contexts, id, ci);
        assert forall|j: int| 0 <= j < m2.contexts.len() implies ctx_wf(
            m2.max_rounds,
            m2.extra_rounds,
            #[trigger] m2.contexts[j].1,
        ) by {
            let j0 = choose|j0: int|
                0 <= j0 < m.contexts.len() && m2.contexts[j] == m.contexts[j0];
            assert(ctx_wf(m.max_rounds, m.extra_rounds, m.contexts[j0].1));
        }
        assert forall|x: BroadcastId| #[trigger] has_key(m2.pending_echos, x) implies !has_key(
            m2.contexts,
            x,
        ) by {
            assert(has_key(m.pending_echos, x));
            assert(!has_key(m.contexts, x));
        }
        assert forall|k: int| 0 <= k < m2.commits.len() implies (has_key(
            m2.contexts,
            (#[trigger] m2.commits[k]).broadcast_id,
        ) && !(lookup(m2.contexts, m2.commits[k].broadcast_id).phase is Running)) by {
            assert(m2.commits[k] == m.commits[k + 1]);
            let x = m.commits[k + 1].broadcast_id;
            assert(has_key(m.contexts, x));
            assert(x != id);
            assert(lookup(m2.contexts, x) == lookup(m.contexts, x));
        }
        let d = m.emitted.len() - m.commits.len();
        assert(m2.commits =~= m2.emitted.skip(d + 1)) by {
            assert forall|k: int| 0 <= k < m2.commits.len() implies m2.commits[k]
                == m2.emitted.skip(d + 1)[k] by {
                assert(m2.commits[k] == m.commits[k + 1]);
                assert(m.commits[k + 1] == m.emitted.skip(d)[k + 1]);
                assert(m.emitted.skip(d)[k + 1] == m.emitted[d + k + 1]);
                assert(m2.emitted.skip(d + 1)[k] == m.emitted[d + 1 + k]);
            }
        }
        assert forall|x: BroadcastId|
            #[trigger] count_events(m2.emitted, x) + running_flag(m2, x) == count_ids(
                m2.admitted,
                x,
            ) by {
            assert(count_events(m.emitted, x) + running_flag(m, x) == count_ids(m.admitted, x));
            if x == id {
                assert(running_flag(m, x) == 0);
                assert(running_flag(m2, x) == 0);
            } else {
                if has_key(m.contexts, x) {
                    assert(lookup(m2.contexts, x) == lookup(m.contexts, x));
                }
                assert(running_flag(m2, x) == running_flag(m, x));
            }
        }
    }
}

} // verus!

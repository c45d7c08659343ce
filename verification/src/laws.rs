//! The laws of the engine, stated and proved against the model: at most one
//! event per admitted broadcast, idempotent admission, the below-quorum
//! rejection, the exact round budget, the exact extra-round tail, and the
//! preservation of echoes that outrun their broadcast.

use vstd::prelude::*;
use crate::clock::clock_ok;
use crate::collections::{
    has_key, key_index, lemma_push_fresh, lemma_remove_key_all, lemma_update_key, lookup,
};
use crate::message::{BroadcastId, Message, PeerId};
use crate::model::{
    count_events, count_ids, spec_handle_broadcast, spec_step_round, wf, CtxModel, Phase,
    StateModel,
};
use crate::quorum::{spec_quorum_decision, QuorumDecision, MIN_PEERS};
use crate::stream::ConsensusError;
use crate::Error;

verus! {

/// Stepping the round state machine of one broadcast `n` times in a row.
pub open spec fn spec_step_rounds<T>(
    m: StateModel<T>,
    id: BroadcastId,
    now: u64,
    n: nat,
) -> Result<StateModel<T>, Error>
    decreases n,
{
    if n == 0 {
        Ok(m)
    } else {
        match spec_step_round(m, id, now) {
            Ok(m1) => spec_step_rounds(m1, id, now, (n - 1) as nat),
            Err(e) => Err(e),
        }
    }
}

/// One event per broadcast: the engine never emits more events for an
/// identifier than it admitted broadcasts under it; a broadcast that was
/// never admitted has no event; and one admitted exactly once has exactly one
/// event as soon as its worker is past its decision (or its context is
/// already consumed).
pub proof fn lemma_one_event_per_broadcast<T>(m: StateModel<T>, id: BroadcastId)
    requires
        wf(m),
    ensures
        count_events(m.emitted, id) <= count_ids(m.admitted, id),
        !m.admitted.contains(id) ==> count_events(m.emitted, id) == 0,
        count_ids(m.admitted, id) == 1 && (!has_key(m.contexts, id) || !(lookup(
            m.contexts,
            id,
        ).phase is Running)) ==> count_events(m.emitted, id) == 1,
{
    assert(count_events(m.emitted, id) + crate::model::running_flag(m, id) == count_ids(
        m.admitted,
        id,
    ));
    crate::model::lemma_count_ids_zero(m.admitted, id);
}

/// The event queue preserves production order: in every reachable state the
/// events not yet consumed are exactly the most recent suffix of the emission
/// history, so events are consumed first-in, first-out.
pub proof fn lemma_commits_follow_production_order<T>(m: StateModel<T>)
    requires
        wf(m),
    ensures
        m.commits.len() <= m.emitted.len(),
        m.commits == m.emitted.skip(m.emitted.len() - m.commits.len()),
{
}

/// Idempotent admission: re-delivering a broadcast whose context is still
/// open records its sender as an active peer and changes nothing else — no
/// second context, no second admission, no echo request, and no event, so no
/// second worker and no duplicate decision can arise.
pub proof fn lemma_duplicate_broadcast_ignored<T>(
    m: StateModel<T>,
    timestamp: u64,
    from: PeerId,
    seq: u64,
    data: T,
)
    requires
        wf(m),
        has_key(m.contexts, BroadcastId { broadcaster: from, seq }),
    ensures
        ({
            let m2 = spec_handle_broadcast(m, timestamp, from, seq, data);
            m2.contexts == m.contexts && m2.pending_echos == m.pending_echos && m2.echo_requests
                == m.echo_requests && m2.commits == m.commits && m2.emitted == m.emitted
                && m2.admitted == m.admitted && m2.active_peers == crate::collections::push_unique(
                m.active_peers,
                from,
            )
        }),
{
}

/// Echoes that outrun their broadcast are preserved: when the broadcast for
/// an identifier with pending echoes is admitted, the new context's acked set
/// is seeded with exactly the pending peer set, and the pending entry is
/// consumed.
pub proof fn lemma_pending_echos_seed_context<T>(
    m: StateModel<T>,
    timestamp: u64,
    from: PeerId,
    seq: u64,
    data: T,
)
    requires
        wf(m),
        !has_key(m.contexts, BroadcastId { broadcaster: from, seq }),
        has_key(m.pending_echos, BroadcastId { broadcaster: from, seq }),
    ensures
        ({
            let id = BroadcastId { broadcaster: from, seq };
            let m2 = spec_handle_broadcast(m, timestamp, from, seq, data);
            has_key(m2.contexts, id) && lookup(m2.contexts, id).acked == lookup(
                m.pending_echos,
                id,
            ) && lookup(m2.contexts, id).phase is Running && lookup(m2.contexts, id).rounds == 0
                && !has_key(m2.pending_echos, id)
        }),
{
    let id = BroadcastId { broadcaster: from, seq };
    let m2 = spec_handle_broadcast(m, timestamp, from, seq, data);
    let ctx = CtxModel {
        acked: lookup(m.pending_echos, id),
        data: Some(data),
        origin_timestamp: timestamp,
        rounds: 0,
        phase: Phase::Running,
    };
    lemma_push_fresh(m.contexts, (id, ctx));
    let pi = key_index(m.pending_echos, id);
    assert(0 <= pi < m.pending_echos.len() && m.pending_echos[pi].0 == id);
    lemma_remove_key_all(m.pending_echos, id, pi);
}

/// Below-quorum population: while fewer than `MIN_PEERS` peers are known, the
/// round tick of any deciding broadcast rejects it with `InsufficientPeers`,
/// whatever its echo count, and that is the one event it ever gets.
pub proof fn lemma_below_quorum_rejects<T>(m: StateModel<T>, id: BroadcastId, now: u64)
    requires
        wf(m),
        has_key(m.contexts, id),
        lookup(m.contexts, id).phase is Running,
        m.active_peers.len() < MIN_PEERS,
        clock_ok(lookup(m.contexts, id).origin_timestamp, now),
    ensures
        ({
            let c = lookup(m.contexts, id);
            match spec_step_round(m, id, now) {
                Ok(m2) => m2.emitted == m.emitted.push(m2.emitted.last())
                    && m2.emitted.last().result == Err::<T, ConsensusError>(
                    ConsensusError::InsufficientPeers,
                ) && m2.emitted.last().broadcast_id == id && m2.emitted.last().num_rounds == c.rounds
                    + 1 && has_key(m2.contexts, id) && lookup(m2.contexts, id).phase is Finished,
                Err(_) => false,
            }
        }),
{
    let i = key_index(m.contexts, id);
    assert(0 <= i < m.contexts.len() && m.contexts[i].0 == id);
    let c = m.contexts[i].1;
    crate::quorum::lemma_below_quorum_population(
        m.active_peers.len() as int,
        c.acked.len() as int,
    );
    let m2 = spec_step_round(m, id, now)->Ok_0;
    let c2 = CtxModel {
        data: None,
        rounds: (c.rounds + 1) as usize,
        phase: Phase::Finished,
        ..c
    };
    assert(c.rounds < m.max_rounds);
    lemma_update_key(m.contexts, i, (id, c2));
}

/// Round budget: a broadcast that never accumulates enough echoes — the
/// known peers and its echoes stay in the retry band — is rejected with
/// `ConsensusLost` by the tick that completes round `max_rounds`, not before
/// and not after: stepping any smaller number of rounds emits no event and
/// leaves the worker deciding, and the final tick emits the broadcast's one
/// event with `ConsensusLost` and `num_rounds` equal to `max_rounds`.
pub proof fn lemma_consensus_lost_after_round_budget<T>(
    m: StateModel<T>,
    id: BroadcastId,
    now: u64,
    n: nat,
)
    requires
        wf(m),
        has_key(m.contexts, id),
        lookup(m.contexts, id).phase is Running,
        spec_quorum_decision(
            m.active_peers.len() as int,
            lookup(m.contexts, id).acked.len() as int,
        ) == QuorumDecision::Retry,
        clock_ok(lookup(m.contexts, id).origin_timestamp, now),
        n <= m.max_rounds - lookup(m.contexts, id).rounds,
    ensures
        ({
            let c = lookup(m.contexts, id);
            match spec_step_rounds(m, id, now, n) {
                Ok(mn) => {
                    if n < m.max_rounds - c.rounds {
                        mn.emitted == m.emitted && mn.commits == m.commits && has_key(
                            mn.contexts,
                            id,
                        ) && lookup(mn.contexts, id).phase is Running && lookup(
                            mn.contexts,
                            id,
                        ).rounds == c.rounds + n && lookup(mn.contexts, id).acked == c.acked
                            && lookup(mn.contexts, id).origin_timestamp == c.origin_timestamp
                            && mn.active_peers == m.active_peers && wf(mn) && mn.max_rounds
                            == m.max_rounds
                    } else {
                        mn.emitted == m.emitted.push(mn.emitted.last()) && mn.emitted.last().result
                            == Err::<T, ConsensusError>(ConsensusError::ConsensusLost)
                            && mn.emitted.last().broadcast_id == id && mn.emitted.last().num_rounds
                            == m.max_rounds && has_key(mn.contexts, id) && lookup(
                            mn.contexts,
                            id,
                        ).phase is Finished
                    }
                },
                Err(_) => false,
            }
        }),
    decreases n,
{
    let c = lookup(m.contexts, id);
    let i = key_index(m.contexts, id);
    assert(0 <= i < m.contexts.len() && m.contexts[i].0 == id);
    if n == 0 {
    } else {
        let m1 = spec_step_round(m, id, now)->Ok_0;
        if c.rounds + 1 < m.max_rounds {
            let c2 = CtxModel { rounds: (c.rounds + 1) as usize, ..c };
            lemma_update_key(m.contexts, i, (id, c2));
            crate::model::lemma_wf_step_round(m, id, now);
            assert(lookup(m1.contexts, id) == c2);
            lemma_consensus_lost_after_round_budget(m1, id, now, (n - 1) as nat);
        } else {
            // This is the tick that completes round `max_rounds`.
            assert(n == 1);
            let c2 = CtxModel {
                data: None,
                rounds: (c.rounds + 1) as usize,
                phase: Phase::Finished,
                ..c
            };
            lemma_update_key(m.contexts, i, (id, c2));
            assert(spec_step_rounds(m1, id, now, 0) == Ok::<StateModel<T>, Error>(m1));
        }
    }
}

/// Acceptance and its convergence tail: a deciding broadcast whose echoes
/// have reached the two-thirds threshold is accepted by the next round tick;
/// its one event carries the payload and the number of rounds run, and the
/// worker goes on for exactly `min(extra_rounds, max_rounds - rounds - 1)`
/// further echo-request rounds (none if the budget is already spent).
pub proof fn lemma_accept_extra_budget<T>(m: StateModel<T>, id: BroadcastId, now: u64)
    requires
        wf(m),
        has_key(m.contexts, id),
        lookup(m.contexts, id).phase is Running,
        spec_quorum_decision(
            m.active_peers.len() as int,
            lookup(m.contexts, id).acked.len() as int,
        ) == QuorumDecision::Accept,
        clock_ok(lookup(m.contexts, id).origin_timestamp, now),
    ensures
        ({
            let c = lookup(m.contexts, id);
            let extra = crate::model::min_usize(
                m.extra_rounds,
                (m.max_rounds - (c.rounds + 1)) as usize,
            );
            match spec_step_round(m, id, now) {
                Ok(m2) => m2.emitted == m.emitted.push(m2.emitted.last())
                    && m2.emitted.last().result == Ok::<T, ConsensusError>(c.data->0)
                    && m2.emitted.last().broadcast_id == id && m2.emitted.last().num_rounds
                    == c.rounds + 1 && has_key(m2.contexts, id) && lookup(m2.contexts, id).phase
                    == (if extra == 0 {
                    Phase::Finished
                } else {
                    Phase::Extra { remaining: extra }
                }),
                Err(_) => false,
            }
        }),
{
    let i = key_index(m.contexts, id);
    assert(0 <= i < m.contexts.len() && m.contexts[i].0 == id);
    let c = m.contexts[i].1;
    assert(c.rounds < m.max_rounds);
    let extra = crate::model::min_usize(m.extra_rounds, (m.max_rounds - (c.rounds + 1)) as usize);
    let phase = if extra == 0 {
        Phase::Finished
    } else {
        Phase::Extra { remaining: extra }
    };
    let c2 = CtxModel { data: None, rounds: (c.rounds + 1) as usize, phase, ..c };
    lemma_update_key(m.contexts, i, (id, c2));
}

/// Extra rounds: a worker in its convergence tail of `k` remaining rounds
/// emits no further event; each of the `k` ticks re-requests an echo for the
/// broadcast, and the tick that exhausts the tail finishes the worker.
pub proof fn lemma_extra_rounds_emit_nothing<T>(
    m: StateModel<T>,
    id: BroadcastId,
    now: u64,
    n: nat,
)
    requires
        wf(m),
        has_key(m.contexts, id),
        lookup(m.contexts, id).phase matches Phase::Extra { remaining },
        n <= lookup(m.contexts, id).phase->Extra_remaining,
    ensures
        ({
            let k = lookup(m.contexts, id).phase->Extra_remaining;
            match spec_step_rounds(m, id, now, n) {
                Ok(mn) => mn.emitted == m.emitted && mn.commits == m.commits && has_key(
                    mn.contexts,
                    id,
                ) && (if n < k {
                    lookup(mn.contexts, id).phase == (Phase::Extra { remaining: (k - n) as usize })
                } else {
                    lookup(mn.contexts, id).phase is Finished
                }) && (n > 0 ==> mn.echo_requests.contains(id)) && wf(mn),
                Err(_) => false,
            }
        }),
    decreases n,
{
    let c = lookup(m.contexts, id);
    let k = c.phase->Extra_remaining;
    let i = key_index(m.contexts, id);
    assert(0 <= i < m.contexts.len() && m.contexts[i].0 == id);
    if n == 0 {
    } else {
        let m1 = spec_step_round(m, id, now)->Ok_0;
        let phase = if k <= 1 {
            Phase::Finished
        } else {
            Phase::Extra { remaining: (k - 1) as usize }
        };
        let c2 = CtxModel { phase, ..c };
        lemma_update_key(m.contexts, i, (id, c2));
        crate::model::lemma_wf_step_round(m, id, now);
        assert(lookup(m1.contexts, id) == c2);
        crate::collections::lemma_push_unique(m.echo_requests, id);
        if n == 1 {
        } else {
            lemma_extra_rounds_emit_nothing(m1, id, now, (n - 1) as nat);
            assert(m1.echo_requests.contains(id));
        }
    }
}

/// Folding a batch of echoed identifiers touches only the contexts' acked
/// sets and the pending echoes; everything else is left alone.
proof fn lemma_echo_all_frame<T>(m: StateModel<T>, from: PeerId, ids: Seq<BroadcastId>)
    ensures
        ({
            let m2 = crate::model::spec_echo_all(m, from, ids);
            m2.active_peers == m.active_peers && m2.emitted == m.emitted && m2.commits == m.commits
                && m2.admitted == m.admitted && m2.echo_requests == m.echo_requests && m2.seq_number
                == m.seq_number && m2.clock == m.clock
        }),
    decreases ids.len(),
{
    if ids.len() > 0 {
        lemma_echo_all_frame(
            crate::model::spec_echo_one(m, from, ids[0]),
            from,
            ids.drop_first(),
        );
    }
}

/// Deliveries decide nothing: no message handler ever emits an event or
/// consumes one — events are produced only by the round ticks of broadcast
/// workers and consumed only through the event stream — so a delivery alone
/// can neither duplicate nor drop a decision.
pub proof fn lemma_handlers_emit_nothing<T>(m: StateModel<T>, timestamp: u64, msg: Message<T>)
    ensures
        crate::model::spec_handle_message(m, timestamp, msg).emitted == m.emitted,
        crate::model::spec_handle_message(m, timestamp, msg).commits == m.commits,
        crate::model::spec_take_echo(m).emitted == m.emitted,
        crate::model::spec_take_echo(m).commits == m.commits,
        crate::model::spec_broadcast(m).emitted == m.emitted,
        crate::model::spec_broadcast(m).commits == m.commits,
        crate::model::spec_next_event(m).0.emitted == m.emitted,
{
    match msg {
        Message::Echo(e) => {
            let m1 = StateModel {
                active_peers: crate::collections::push_unique(m.active_peers, e.from),
                ..m
            };
            lemma_echo_all_frame(m1, e.from, e.broadcast_ids@);
        },
        _ => {},
    }
}

/// The active-peer approximation is monotone: it is a liveness approximation
/// populated by message sightings, and no engine operation ever removes a
/// peer from it.
pub proof fn lemma_active_peers_never_shrink<T>(
    m: StateModel<T>,
    timestamp: u64,
    now: u64,
    msg: Message<T>,
    id: BroadcastId,
    p: PeerId,
)
    ensures
        m.active_peers.contains(p) ==> crate::model::spec_handle_message(
            m,
            timestamp,
            msg,
        ).active_peers.contains(p),
        crate::model::spec_take_echo(m).active_peers == m.active_peers,
        crate::model::spec_broadcast(m).active_peers == m.active_peers,
        spec_step_round(m, id, now) matches Ok(m2) ==> m2.active_peers == m.active_peers,
        crate::model::spec_next_event(m).0.active_peers == m.active_peers,
{
    if m.active_peers.contains(p) {
        match msg {
            Message::Broadcast(b) => {
                if !m.active_peers.contains(b.from) {
                    assert(m.active_peers.push(b.from)[choose|i: int|
                        0 <= i < m.active_peers.len() && m.active_peers[i] == p] == p);
                }
            },
            Message::Present(q) => {
                if !m.active_peers.contains(q.from) {
                    assert(m.active_peers.push(q.from)[choose|i: int|
                        0 <= i < m.active_peers.len() && m.active_peers[i] == p] == p);
                }
            },
            Message::Echo(e) => {
                let m1 = StateModel {
                    active_peers: crate::collections::push_unique(m.active_peers, e.from),
                    ..m
                };
                if !m.active_peers.contains(e.from) {
                    assert(m.active_peers.push(e.from)[choose|i: int|
                        0 <= i < m.active_peers.len() && m.active_peers[i] == p] == p);
                }
                lemma_echo_all_frame(m1, e.from, e.broadcast_ids@);
            },
        }
    }
}

/// A finished worker never emits again: every further round tick leaves the
/// whole state unchanged.
pub proof fn lemma_finished_is_terminal<T>(m: StateModel<T>, id: BroadcastId, now: u64)
    requires
        wf(m),
        has_key(m.contexts, id),
        lookup(m.contexts, id).phase is Finished,
    ensures
        spec_step_round(m, id, now) == Ok::<StateModel<T>, Error>(m),
{
    let i = key_index(m.contexts, id);
    assert(0 <= i < m.contexts.len() && m.contexts[i].0 == id);
}

} // verus!
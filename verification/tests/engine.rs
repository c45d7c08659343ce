use reliable_broadcast::config::{Config, IoConfig, Reliability, SubMode, CongestionControl, ZenohConfig};
use reliable_broadcast::clock::{Clock, MAX_CLOCK_DELTA_NS};
use reliable_broadcast::message::{Broadcast, BroadcastId, Echo, Message, Present};
use reliable_broadcast::state::State;
use reliable_broadcast::stream::ConsensusError;
use reliable_broadcast::Error;

fn test_config(max_rounds: usize, extra_rounds: usize) -> Config {
    Config {
        max_rounds,
        extra_rounds,
        round_timeout: 100,
        echo_interval: 10,
        io: IoConfig::Zenoh(ZenohConfig {
            key: String::from("demo/rb"),
            sub_mode: SubMode::Push,
            reliability: Reliability::BestEffort,
            congestion_control: CongestionControl::Block,
        }),
    }
}

fn echo_for(from: u128, id: BroadcastId) -> Echo {
    Echo { from, broadcast_ids: vec![id] }
}

#[test]
fn config_validation_rejects_bad_intervals() {
    let mut config = test_config(5, 1);
    config.echo_interval = 100;
    config.round_timeout = 100;
    let r: Result<State<u64>, Error> = State::new(&config);
    assert!(matches!(r, Err(Error::EchoIntervalNotLessThanRoundTimeout)));
}

#[test]
fn config_validation_rejects_bad_rounds() {
    let config = test_config(3, 3);
    let r: Result<State<u64>, Error> = State::new(&config);
    assert!(matches!(r, Err(Error::ExtraRoundsNotLessThanMaxRounds)));
}

#[test]
fn config_build_accepts_sane_values() {
    let config = test_config(5, 1);
    let r: Result<State<u64>, Error> = config.build();
    let state = r.unwrap();
    assert_eq!(state.seq_number, 0);
    assert_eq!(state.max_rounds, 5);
    assert_eq!(state.extra_rounds, 1);
}

#[test]
fn broadcast_assigns_increasing_sequence_numbers() {
    let config = test_config(5, 1);
    let mut state: State<u64> = State::with_id(&config, 1).unwrap();
    let m0 = state.broadcast(10);
    let m1 = state.broadcast(11);
    match (m0, m1) {
        (Message::Broadcast(b0), Message::Broadcast(b1)) => {
            assert_eq!(b0.from, 1);
            assert_eq!(b0.seq, 0);
            assert_eq!(b0.data, 10);
            assert_eq!(b1.seq, 1);
            assert_eq!(b1.data, 11);
        }
        _ => panic!("broadcast must wrap the payload in a broadcast message"),
    }
    assert_eq!(state.seq_number, 2);
}

#[test]
fn end_to_end_five_peers_accepts_payload_seven() {
    // Five peers, max_rounds = 5, extra_rounds = 1; peer 2 broadcasts 7; once
    // four of the five peers have echoed, the event is Ok(7), with num_rounds
    // the round at which the two-thirds threshold was first crossed.
    let config = test_config(5, 1);
    let mut state: State<u64> = State::with_id(&config, 1).unwrap();
    let msg = Broadcast { from: 2u128, seq: 0u64, data: 7u64 };
    let id = msg.broadcast_id();
    state.handle_broadcast(1_000, msg);
    state.handle_present(Present { from: 1 });
    state.handle_present(Present { from: 3 });
    state.handle_present(Present { from: 4 });
    state.handle_present(Present { from: 5 });
    state.handle_echo(echo_for(1, id));
    state.handle_echo(echo_for(3, id));
    state.handle_echo(echo_for(4, id));
    state.handle_echo(echo_for(5, id));
    // Four of five echoed: 3 x 4 >= 2 x 5, accepted at the first round tick.
    state.step_round(id, 2_000).unwrap();
    // The worker still runs one extra round, so the event is not yielded yet.
    assert!(state.next_event().is_none());
    state.step_round(id, 2_100).unwrap();
    let event = state.next_event().expect("the decision must be yielded");
    assert_eq!(event.result, Ok(7));
    assert_eq!(event.broadcast_id, id);
    assert_eq!(event.num_rounds, 1);
    assert_eq!(event.latency, 1_000);
    // Exactly one event: nothing more is ever yielded for this broadcast.
    assert!(state.next_event().is_none());
    state.step_round(id, 2_200).unwrap();
    assert!(state.next_event().is_none());
}

#[test]
fn duplicate_broadcast_is_ignored() {
    let config = test_config(5, 1);
    let mut state: State<u64> = State::with_id(&config, 1).unwrap();
    let id = BroadcastId { broadcaster: 2, seq: 0 };
    state.handle_broadcast(1_000, Broadcast { from: 2, seq: 0, data: 7 });
    // Re-delivering the same broadcast must not spawn a second worker.
    state.handle_broadcast(1_500, Broadcast { from: 2, seq: 0, data: 99 });
    state.handle_present(Present { from: 3 });
    state.handle_present(Present { from: 4 });
    state.handle_present(Present { from: 5 });
    for p in [2u128, 3, 4, 5] {
        state.handle_echo(echo_for(p, id));
    }
    state.step_round(id, 2_000).unwrap();
    assert!(state.next_event().is_none());
    state.step_round(id, 2_100).unwrap();
    let event = state.next_event().unwrap();
    // The first admission decides; the duplicate produced no second event.
    assert_eq!(event.result, Ok(7));
    assert!(state.next_event().is_none());
}

#[test]
fn early_echoes_seed_the_context() {
    // Echoes for a broadcast that arrive before the broadcast itself must be
    // preserved and seed the acked set, so the broadcast is accepted without
    // any echo arriving after it.
    let config = test_config(5, 1);
    let mut state: State<u64> = State::with_id(&config, 1).unwrap();
    let id = BroadcastId { broadcaster: 2, seq: 0 };
    state.handle_echo(echo_for(1, id));
    state.handle_echo(echo_for(3, id));
    state.handle_echo(echo_for(4, id));
    state.handle_echo(echo_for(5, id));
    state.handle_broadcast(1_000, Broadcast { from: 2, seq: 0, data: 42 });
    // Active peers: 1, 3, 4, 5 from the echoes plus broadcaster 2.
    state.step_round(id, 1_500).unwrap();
    state.step_round(id, 1_600).unwrap();
    let event = state.next_event().unwrap();
    assert_eq!(event.result, Ok(42));
    assert_eq!(event.num_rounds, 1);
}

#[test]
fn below_quorum_population_rejects_with_insufficient_peers() {
    // With fewer than four known peers, any broadcast is rejected with
    // InsufficientPeers regardless of echo count.
    let config = test_config(5, 1);
    let mut state: State<u64> = State::with_id(&config, 1).unwrap();
    let id = BroadcastId { broadcaster: 2, seq: 0 };
    state.handle_broadcast(1_000, Broadcast { from: 2, seq: 0, data: 5 });
    state.handle_present(Present { from: 3 });
    state.handle_echo(echo_for(2, id));
    state.handle_echo(echo_for(3, id));
    state.step_round(id, 2_000).unwrap();
    let event = state.next_event().unwrap();
    assert_eq!(event.result, Err(ConsensusError::InsufficientPeers));
    assert_eq!(event.num_rounds, 1);
}

#[test]
fn too_few_echoes_reject_with_insufficient_echos() {
    let config = test_config(5, 1);
    let mut state: State<u64> = State::with_id(&config, 1).unwrap();
    let id = BroadcastId { broadcaster: 2, seq: 0 };
    state.handle_broadcast(1_000, Broadcast { from: 2, seq: 0, data: 5 });
    for p in [1u128, 3, 4, 5] {
        state.handle_present(Present { from: p });
    }
    state.handle_echo(echo_for(2, id));
    // One echo of five peers: 3 x 1 < 5, below the one-third threshold.
    state.step_round(id, 2_000).unwrap();
    let event = state.next_event().unwrap();
    assert_eq!(event.result, Err(ConsensusError::InsufficientEchos));
    assert_eq!(event.num_rounds, 1);
}

#[test]
fn round_budget_exhaustion_loses_consensus_after_exactly_max_rounds() {
    // Two echoes of five peers sit in the retry band forever, so the
    // broadcast is rejected with ConsensusLost after exactly max_rounds
    // rounds, not before and not after.
    let config = test_config(5, 1);
    let mut state: State<u64> = State::with_id(&config, 1).unwrap();
    let id = BroadcastId { broadcaster: 2, seq: 0 };
    state.handle_broadcast(1_000, Broadcast { from: 2, seq: 0, data: 5 });
    for p in [1u128, 3, 4, 5] {
        state.handle_present(Present { from: p });
    }
    state.handle_echo(echo_for(2, id));
    state.handle_echo(echo_for(3, id));
    for tick in 0..4u64 {
        state.step_round(id, 2_000 + tick).unwrap();
        assert!(state.next_event().is_none(), "no decision before the budget runs out");
    }
    state.step_round(id, 3_000).unwrap();
    let event = state.next_event().unwrap();
    assert_eq!(event.result, Err(ConsensusError::ConsensusLost));
    assert_eq!(event.num_rounds, 5);
    // And nothing further is emitted.
    state.step_round(id, 3_100).unwrap();
    assert!(state.next_event().is_none());
}

#[test]
fn acceptance_at_last_round_runs_no_extra_rounds() {
    // extra_rounds is clipped by the remaining budget: a broadcast accepted
    // at the final round runs min(extra_rounds, 0) = 0 extra rounds, so its
    // event is available immediately.
    let config = test_config(5, 2);
    let mut state: State<u64> = State::with_id(&config, 1).unwrap();
    let id = BroadcastId { broadcaster: 2, seq: 0 };
    state.handle_broadcast(1_000, Broadcast { from: 2, seq: 0, data: 5 });
    for p in [1u128, 3, 4, 5] {
        state.handle_present(Present { from: p });
    }
    state.handle_echo(echo_for(2, id));
    state.handle_echo(echo_for(3, id));
    for tick in 0..4u64 {
        state.step_round(id, 2_000 + tick).unwrap();
        assert!(state.next_event().is_none());
    }
    state.handle_echo(echo_for(4, id));
    state.handle_echo(echo_for(5, id));
    state.step_round(id, 3_000).unwrap();
    let event = state.next_event().expect("accepted at the last round: no extra rounds remain");
    assert_eq!(event.result, Ok(5));
    assert_eq!(event.num_rounds, 5);
}

#[test]
fn extra_rounds_keep_requesting_echoes() {
    // An accepted broadcast keeps requesting echoes for its extra rounds and
    // emits no second event.
    let config = test_config(5, 1);
    let mut state: State<u64> = State::with_id(&config, 1).unwrap();
    let id = BroadcastId { broadcaster: 2, seq: 0 };
    state.handle_broadcast(1_000, Broadcast { from: 2, seq: 0, data: 5 });
    for p in [1u128, 3, 4, 5] {
        state.handle_present(Present { from: p });
    }
    for p in [1u128, 2, 3, 4] {
        state.handle_echo(echo_for(p, id));
    }
    // Drain the admission-time echo request first.
    let _ = state.make_echo();
    state.step_round(id, 2_000).unwrap();
    // The acceptance itself requests no echo; the extra round does.
    state.step_round(id, 2_100).unwrap();
    match state.make_echo() {
        Message::Echo(e) => assert_eq!(e.broadcast_ids, vec![id]),
        _ => panic!("make_echo must produce an echo message"),
    }
    let event = state.next_event().unwrap();
    assert_eq!(event.result, Ok(5));
    assert!(state.next_event().is_none());
}

#[test]
fn requested_echoes_ride_the_next_batch() {
    let config = test_config(5, 1);
    let mut state: State<u64> = State::with_id(&config, 1).unwrap();
    let id = BroadcastId { broadcaster: 4, seq: 2 };
    state.request_sending_echo(id);
    state.request_sending_echo(id);
    match state.make_echo() {
        Message::Echo(e) => assert_eq!(e.broadcast_ids, vec![id]),
        _ => panic!("make_echo must produce an echo message"),
    }
}

#[test]
fn make_echo_batches_and_drains_requests() {
    let config = test_config(5, 1);
    let mut state: State<u64> = State::with_id(&config, 1).unwrap();
    let id_a = BroadcastId { broadcaster: 2, seq: 0 };
    let id_b = BroadcastId { broadcaster: 3, seq: 7 };
    state.handle_broadcast(1_000, Broadcast { from: 2, seq: 0, data: 5 });
    state.handle_broadcast(1_001, Broadcast { from: 3, seq: 7, data: 6 });
    match state.make_echo() {
        Message::Echo(e) => {
            assert_eq!(e.from, 1);
            assert_eq!(e.broadcast_ids, vec![id_a, id_b]);
        }
        _ => panic!("make_echo must produce an echo message"),
    }
    // The request set is drained: the next batch is empty.
    match state.make_echo() {
        Message::Echo(e) => assert!(e.broadcast_ids.is_empty()),
        _ => panic!("make_echo must produce an echo message"),
    }
}

#[test]
fn clock_drift_is_fatal_and_leaves_state_unchanged() {
    let config = test_config(5, 1);
    let mut state: State<u64> = State::with_id(&config, 1).unwrap();
    let id = BroadcastId { broadcaster: 2, seq: 0 };
    let now: u64 = 1_000;
    let drifted = now + MAX_CLOCK_DELTA_NS + 1;
    state.handle_broadcast(drifted, Broadcast { from: 2, seq: 0, data: 5 });
    for p in [1u128, 3, 4, 5] {
        state.handle_present(Present { from: p });
    }
    for p in [1u128, 2, 3, 4] {
        state.handle_echo(echo_for(p, id));
    }
    assert_eq!(state.step_round(id, now), Err(Error::ClockDrift));
    // The state is unchanged: stepping once local time has caught up decides.
    state.step_round(id, drifted).unwrap();
    state.step_round(id, drifted + 1).unwrap();
    let event = state.next_event().unwrap();
    assert_eq!(event.result, Ok(5));
}

#[test]
fn clock_observe_is_monotone_and_takes_the_maximum() {
    let mut clock = Clock::new();
    assert_eq!(clock.observe(500, 1_000), Ok(1_000));
    assert_eq!(clock.observe(2_000, 1_500), Ok(2_000));
    // An older message cannot move the clock backwards.
    assert_eq!(clock.observe(100, 200), Ok(2_000));
    // A timestamp too far in the future is pathological drift.
    assert_eq!(clock.observe(200 + MAX_CLOCK_DELTA_NS + 1, 200), Err(Error::ClockDrift));
    assert_eq!(clock.last, 2_000);
}

#[test]
fn receiving_dispatches_by_kind_and_rejects_drifted_envelopes() {
    let config = test_config(5, 1);
    let mut state: State<u64> = State::with_id(&config, 1).unwrap();
    let id = BroadcastId { broadcaster: 2, seq: 0 };
    let now: u64 = 5_000;
    state
        .receive_message(1_000, now, Message::Broadcast(Broadcast { from: 2, seq: 0, data: 7 }))
        .unwrap();
    for p in [1u128, 3, 4, 5] {
        state.receive_message(1_100, now, Message::Present(Present { from: p })).unwrap();
    }
    for p in [1u128, 3, 4, 5] {
        state.receive_message(1_200, now, Message::Echo(echo_for(p, id))).unwrap();
    }
    // A timestamp pathologically far beyond local time kills the receiving
    // worker and leaves the state untouched.
    let drifted = now + MAX_CLOCK_DELTA_NS + 1;
    assert_eq!(
        state.receive_message(drifted, now, Message::Present(Present { from: 9 })),
        Err(Error::ClockDrift)
    );
    state.step_round(id, 6_000).unwrap();
    state.step_round(id, 6_100).unwrap();
    let event = state.next_event().unwrap();
    assert_eq!(event.result, Ok(7));
    assert_eq!(event.latency, 5_000);
}

#[test]
fn stepping_an_unknown_broadcast_does_nothing() {
    let config = test_config(5, 1);
    let mut state: State<u64> = State::with_id(&config, 1).unwrap();
    let id = BroadcastId { broadcaster: 9, seq: 9 };
    assert_eq!(state.step_round(id, 1_000), Ok(()));
    assert!(state.next_event().is_none());
}

use rillrate::errors::RillError;
use rillrate::flow::{FlowEvent, FlowKind, FlowState, TimedEvent};
use rillrate::paths::Path;
use rillrate::protocol::{Description, Direction, ProviderToServer, ServerToProvider, WideEnvelope};
use rillrate::recorder::{Delivery, OutMsg, Recorder, Stage};
use rillrate::registry::Registry;
use rillrate::session::{ProviderSession, SessionEffect};
use rillrate::tracer::{SendOutcome, Tracer, TracerMode};

fn path_of(segs: &[&str]) -> Path {
    let segments: Vec<String> = segs.iter().map(|s| s.to_string()).collect();
    Path::from_segments(segments).expect("well-formed path")
}

fn description_of(segs: &[&str], kind: FlowKind) -> Description {
    Description {
        path: path_of(segs),
        info: String::new(),
        stream_type: kind.stream_type().to_string(),
    }
}

fn inc(ts: u64, delta: i64) -> TimedEvent<FlowEvent> {
    TimedEvent { timestamp: ts, event: FlowEvent::Inc { delta } }
}

fn counter_value(state: &FlowState) -> i64 {
    match state {
        FlowState::Counter { value } => *value,
        _ => panic!("expected a counter state"),
    }
}

#[test]
fn subscriber_stream_begins_with_snapshot() {
    let mut rec = Recorder::new(FlowKind::Counter, FlowState::Counter { value: 0 });
    rec.apply_batch(&vec![inc(1, 5)]);
    let delivery = rec.subscribe(1, 8).expect("first subscription");
    assert_eq!(delivery.direct_id, 1);
    match &delivery.msg {
        OutMsg::Begin { snapshot } => assert_eq!(counter_value(snapshot), 5),
        _ => panic!("the stream begins with the snapshot"),
    }
    assert_eq!(rec.stage(), Stage::Broadcasting);
}

#[test]
fn counter_deltas_reach_the_subscriber_in_order() {
    let mut rec = Recorder::new(FlowKind::Counter, FlowState::Counter { value: 0 });
    let delivery = rec.subscribe(7, 16).expect("subscription");
    match &delivery.msg {
        OutMsg::Begin { snapshot } => assert_eq!(counter_value(snapshot), 0),
        _ => panic!("the stream begins with the snapshot"),
    }
    let mut seen: Vec<i64> = Vec::new();
    for batch in [vec![inc(1, 1), inc(2, 1)], vec![inc(3, 1)], vec![inc(4, 10)]] {
        let effects = rec.apply_batch(&batch);
        assert_eq!(effects.len(), 1);
        match &effects[0].msg {
            OutMsg::Batch { events } => {
                for e in events {
                    match e.event {
                        FlowEvent::Inc { delta } => seen.push(delta),
                        _ => panic!("counter deltas only"),
                    }
                }
            }
            _ => panic!("a live subscriber receives batches"),
        }
        rec.subscriber_read(7);
    }
    assert_eq!(seen, vec![1, 1, 1, 10]);
    assert_eq!(counter_value(rec.current()), 13);
}

#[test]
fn late_subscriber_sees_folded_snapshot_only() {
    let mut rec = Recorder::new(FlowKind::Board, FlowState::Board { entries: Vec::new() });
    let set = |k: &str, v: &str, ts: u64| TimedEvent {
        timestamp: ts,
        event: FlowEvent::Assign { key: k.to_string(), value: v.to_string() },
    };
    let remove = |k: &str, ts: u64| TimedEvent {
        timestamp: ts,
        event: FlowEvent::Remove { key: k.to_string() },
    };
    rec.apply_batch(&vec![set("k", "v1", 1), set("k", "v2", 2), remove("k", 3)]);
    let delivery = rec.subscribe(1, 4).expect("subscription");
    match &delivery.msg {
        OutMsg::Begin { snapshot } => match snapshot {
            FlowState::Board { entries } => assert!(entries.is_empty()),
            _ => panic!("a board snapshot"),
        },
        _ => panic!("the stream begins with the snapshot"),
    }
}

#[test]
fn slow_subscriber_is_dropped_and_the_other_kept() {
    let mut rec = Recorder::new(FlowKind::Counter, FlowState::Counter { value: 0 });
    rec.subscribe(1, 2).expect("slow subscriber");
    rec.subscribe(2, 64).expect("healthy subscriber");
    let mut slow_got_end = false;
    for i in 0..4u64 {
        let effects: Vec<Delivery> = rec.apply_batch(&vec![inc(i, 1)]);
        for effect in &effects {
            if effect.direct_id == 1 {
                if matches!(effect.msg, OutMsg::End) {
                    slow_got_end = true;
                }
            } else {
                assert!(matches!(effect.msg, OutMsg::Batch { .. }));
            }
        }
        rec.subscriber_read(2);
    }
    assert!(slow_got_end, "the silent subscriber is dropped within its bound");
    assert_eq!(rec.subscriber_count(), 1);
    assert_eq!(counter_value(rec.current()), 4);
}

#[test]
fn duplicate_subscription_and_draining_are_refused() {
    let mut rec = Recorder::new(FlowKind::Counter, FlowState::Counter { value: 0 });
    rec.subscribe(1, 4).expect("first subscription");
    assert!(matches!(rec.subscribe(1, 4), Err(RillError::ProtocolViolation)));
    rec.tracers_dropped();
    assert!(matches!(rec.subscribe(2, 4), Err(RillError::TransportClosed)));
    let ends = rec.terminate();
    assert_eq!(ends.len(), 1);
    assert!(matches!(ends[0].msg, OutMsg::End));
    assert_eq!(rec.stage(), Stage::Terminated);
    assert_eq!(rec.subscriber_count(), 0);
}

#[test]
fn unsubscribing_the_last_returns_to_ready() {
    let mut rec = Recorder::new(FlowKind::Counter, FlowState::Counter { value: 0 });
    rec.subscribe(5, 4).expect("subscription");
    assert_eq!(rec.stage(), Stage::Broadcasting);
    assert!(rec.unsubscribe(5));
    assert_eq!(rec.stage(), Stage::Ready);
    assert!(!rec.unsubscribe(5));
}

#[test]
fn registry_refuses_duplicate_path_and_keeps_the_first() {
    let mut registry = Registry::new();
    let description = description_of(&["p", "d", "g", "c"], FlowKind::Counter);
    registry
        .register(description, FlowKind::Counter, FlowState::Counter { value: 0 })
        .expect("first registration");
    let idx = registry.lookup(&path_of(&["p", "d", "g", "c"])).expect("registered");
    registry.recorder_mut(idx).apply_batch(&vec![inc(1, 3)]);
    let again = description_of(&["p", "d", "g", "c"], FlowKind::Counter);
    assert!(matches!(
        registry.register(again, FlowKind::Counter, FlowState::Counter { value: 0 }),
        Err(RillError::RegistrationConflict)
    ));
    assert_eq!(registry.len(), 1);
    let idx = registry.lookup(&path_of(&["p", "d", "g", "c"])).expect("still registered");
    assert_eq!(counter_value(registry.recorder_at(idx).current()), 3);
}

#[test]
fn unregistered_path_can_be_registered_again() {
    let mut registry = Registry::new();
    let p = path_of(&["p", "d", "g", "c"]);
    registry
        .register(description_of(&["p", "d", "g", "c"], FlowKind::Counter), FlowKind::Counter, FlowState::Counter { value: 0 })
        .expect("first registration");
    let idx = registry.lookup(&p).expect("registered");
    let rec = registry.recorder_mut(idx);
    rec.tracers_dropped();
    rec.terminate();
    assert!(registry.unregister(&p));
    assert!(registry.lookup(&p).is_none());
    registry
        .register(description_of(&["p", "d", "g", "c"], FlowKind::Counter), FlowKind::Counter, FlowState::Counter { value: 0 })
        .expect("the path is free again");
    assert_eq!(registry.len(), 1);
}

#[test]
fn registry_catalog_lists_descriptions() {
    let mut registry = Registry::new();
    registry
        .register(description_of(&["a", "b"], FlowKind::Board), FlowKind::Board, FlowState::Board { entries: Vec::new() })
        .expect("registration");
    let catalog = registry.declare_paths();
    assert_eq!(catalog.len(), 1);
    assert_eq!(catalog[0].path.to_text(), "a.b");
    assert_eq!(catalog[0].stream_type, "rillrate.board.v0");
}

#[test]
fn session_declare_attaches_and_describes() {
    let mut session = ProviderSession::new();
    assert!(!session.is_registered());
    let effects = session.handle_provider_message(WideEnvelope {
        direction: Direction::Direct(0),
        data: ProviderToServer::Declare { entry_id: "demo".to_string() },
    });
    assert!(session.is_registered());
    assert_eq!(effects.len(), 2);
    match &effects[0] {
        SessionEffect::Attached { entry_id } => assert_eq!(entry_id, "demo"),
        _ => panic!("the exporter learns of the provider first"),
    }
    match &effects[1] {
        SessionEffect::ToProvider { envelope } => {
            assert_eq!(envelope.direct_id, 0);
            assert!(matches!(envelope.data, ServerToProvider::Describe { active: true }));
        }
        _ => panic!("then the provider is asked to describe itself"),
    }
    let detach = session.graceful_shutdown();
    assert_eq!(detach.len(), 1);
    assert!(matches!(detach[0], SessionEffect::Detached));
    assert!(session.graceful_shutdown().is_empty());
}

#[test]
fn session_routes_data_to_recorded_client() {
    let mut session = ProviderSession::new();
    let (id, effect) = session.subscribe_to_path(11, 42, path_of(&["a", "b"]));
    match effect {
        SessionEffect::ToProvider { envelope } => {
            assert_eq!(envelope.direct_id, id as u64);
            match envelope.data {
                ServerToProvider::ControlStream { path, active } => {
                    assert!(active);
                    assert_eq!(path.to_text(), "a.b");
                }
                _ => panic!("subscribing opens a control stream"),
            }
        }
        _ => panic!("subscribing sends a request"),
    }
    let batch = vec![inc(1, 2)];
    let effects = session.handle_provider_message(WideEnvelope {
        direction: Direction::Multicast(vec![id as u64, 999]),
        data: ProviderToServer::Data { batch },
    });
    assert_eq!(effects.len(), 1, "an unknown id is dropped silently");
    match &effects[0] {
        SessionEffect::ToClient { sender, client_req_id, .. } => {
            assert_eq!(*sender, 11);
            assert_eq!(*client_req_id, 42);
        }
        _ => panic!("data goes back to the recorded client"),
    }
}

#[test]
fn session_request_ids_count_up_and_paths_route() {
    let mut session = ProviderSession::new();
    let (first, _) = session.new_request(ServerToProvider::ControlStream {
        path: path_of(&["x", "y"]),
        active: true,
    });
    assert_eq!(first, 1);
    let (second, _) = session.new_request(ServerToProvider::Describe { active: false });
    assert_eq!(second, 2);
    let routed = session.distribute_data(&Direction::Direct(first), &inc(5, 1));
    match routed {
        Some(SessionEffect::DataReceived { path, .. }) => assert_eq!(path.to_text(), "x.y"),
        _ => panic!("a recorded stream routes its data"),
    }
    session.sub_request(first, ServerToProvider::ControlStream {
        path: path_of(&["x", "y"]),
        active: false,
    });
    assert!(session.distribute_data(&Direction::Direct(first), &inc(6, 1)).is_none());
    assert!(session.distribute_data(&Direction::Broadcast, &inc(7, 1)).is_none());
}

#[test]
fn session_forwards_catalog_increments() {
    let mut session = ProviderSession::new();
    let list = vec![description_of(&["a"], FlowKind::Counter), description_of(&["b"], FlowKind::Board)];
    let effects = session.handle_provider_message(WideEnvelope {
        direction: Direction::Broadcast,
        data: ProviderToServer::Description { list },
    });
    assert_eq!(effects.len(), 2);
    match &effects[0] {
        SessionEffect::PathDeclared { description } => assert_eq!(description.path.to_text(), "a"),
        _ => panic!("descriptions are forwarded in order"),
    }
}

#[test]
fn tracer_registers_sends_and_refuses_duplicates() {
    let mut registry = Registry::new();
    let (tracer, mode) = Tracer::new_tracer(
        &mut registry,
        FlowState::Counter { value: 0 },
        path_of(&["p", "c"]),
        FlowKind::Counter,
        None,
    )
    .expect("fresh path");
    assert_eq!(tracer.path().to_text(), "p.c");
    assert!(!tracer.is_active(), "no subscriber is attached yet");
    assert_eq!(
        tracer.send(FlowEvent::Inc { delta: 2 }, None),
        SendOutcome::Sent,
        "events flow while inactive so the recorder stays current"
    );
    let sibling = tracer.clone();
    assert_eq!(sibling.send(FlowEvent::Inc { delta: 3 }, None), SendOutcome::Sent);
    match mode {
        TracerMode::Push { receiver, .. } => {
            let mut rx = receiver.expect("the recorder side owns the queue");
            let first = rx.try_next().expect("queued").expect("present").into_inner();
            match first.event {
                FlowEvent::Inc { delta } => assert_eq!(delta, 2),
                _ => panic!("the queued event is the one sent"),
            }
            let second = rx.try_next().expect("queued").expect("present").into_inner();
            match second.event {
                FlowEvent::Inc { delta } => assert_eq!(delta, 3),
                _ => panic!("clone events share the queue in order"),
            }
        }
        _ => panic!("a tracer without an interval pushes"),
    }
    assert!(matches!(
        Tracer::new_tracer(
            &mut registry,
            FlowState::Counter { value: 0 },
            path_of(&["p", "c"]),
            FlowKind::Counter,
            None,
        ),
        Err(RillError::RegistrationConflict)
    ));
}

#[test]
fn pull_tracer_applies_under_the_lock() {
    let mut registry = Registry::new();
    let (tracer, mode) = Tracer::new_tracer(
        &mut registry,
        FlowState::Counter { value: 0 },
        path_of(&["p", "pull"]),
        FlowKind::Counter,
        Some(100),
    )
    .expect("fresh path");
    assert_eq!(tracer.send(FlowEvent::Inc { delta: 4 }, None), SendOutcome::Sent);
    assert_eq!(tracer.send(FlowEvent::Inc { delta: 5 }, None), SendOutcome::Sent);
    match mode {
        TracerMode::Pull { state, interval_ms } => {
            assert_eq!(interval_ms, 100);
            let sampled = rillrate::tracer::sample_pull_state(&state).expect("tracer alive");
            assert_eq!(counter_value(&sampled), 9);
        }
        _ => panic!("an interval means pull mode"),
    }
}

#[test]
fn action_subscription_is_push_only() {
    let mut registry = Registry::new();
    let (mut push_tracer, _mode) = Tracer::new_tracer_subscribed(
        &mut registry,
        FlowState::Switch { label: "s".to_string(), on: false },
        path_of(&["w", "s"]),
        FlowKind::Switch,
        None,
    )
    .map(|(t, watcher, m)| {
        assert!(watcher.is_some());
        (t, m)
    })
    .expect("fresh path");
    let mut watcher = push_tracer.subscribe().expect("push mode offers actions");
    assert!(push_tracer
        .publish_action(rillrate::flow::FlowAction::Turn { on: true })
        .expect("push mode publishes"));
    match watcher.try_recv() {
        Ok(rillrate::flow::FlowAction::Turn { on }) => assert!(on),
        _ => panic!("the published action reaches the watcher"),
    }
    let (mut pull_tracer, _mode) = Tracer::new_tracer(
        &mut registry,
        FlowState::Counter { value: 0 },
        path_of(&["w", "p"]),
        FlowKind::Counter,
        Some(50),
    )
    .expect("fresh path");
    assert!(matches!(pull_tracer.subscribe(), Err(RillError::Inapplicable)));
    assert!(matches!(
        pull_tracer.publish_action(rillrate::flow::FlowAction::Click),
        Err(RillError::Inapplicable)
    ));
}

#[test]
fn time_to_ts_reads_unix_micros() {
    let epoch = std::time::SystemTime::UNIX_EPOCH;
    let later = epoch + std::time::Duration::from_secs(5);
    assert_eq!(rillrate::tracer::time_to_ts(Some(later)), Ok(5_000_000));
    let now = rillrate::tracer::time_to_ts(None).expect("the clock is past the epoch");
    assert!(now > 0);
    let earlier = epoch - std::time::Duration::from_secs(1);
    assert_eq!(rillrate::tracer::time_to_ts(Some(earlier)), Err(RillError::Clock));
}

#[test]
fn activity_flag_follows_subscribers() {
    let mut registry = Registry::new();
    let (tracer, _mode) = Tracer::new_tracer(
        &mut registry,
        FlowState::Counter { value: 0 },
        path_of(&["p", "active"]),
        FlowKind::Counter,
        None,
    )
    .expect("fresh path");
    assert!(!tracer.is_active());
    let idx = registry.lookup(&path_of(&["p", "active"])).expect("registered");
    registry.recorder_mut(idx).subscribe(1, 4).expect("subscription");
    assert!(tracer.is_active(), "the recorder turned the flag on");
    assert!(tracer.clone().is_active(), "clones share the flag");
    registry.recorder_mut(idx).unsubscribe(1);
    assert!(!tracer.is_active(), "the last unsubscribe turned it off");
}

#[test]
fn session_forwards_snapshots_before_data() {
    let mut session = ProviderSession::new();
    let (id, _effect) = session.subscribe_to_path(3, 9, path_of(&["s", "flow"]));
    let begin = session.handle_provider_message(WideEnvelope {
        direction: Direction::Direct(id as u64),
        data: ProviderToServer::BeginStream { snapshot: FlowState::Counter { value: 7 } },
    });
    assert_eq!(begin.len(), 1);
    match &begin[0] {
        SessionEffect::ToClient { sender, client_req_id, response } => {
            assert_eq!(*sender, 3);
            assert_eq!(*client_req_id, 9);
            match response {
                rillrate::protocol::ClientResponse::Snapshot { snapshot } => {
                    assert_eq!(counter_value(snapshot), 7);
                }
                _ => panic!("the stream opens with its snapshot"),
            }
        }
        _ => panic!("the snapshot goes to the recorded client"),
    }
    let data = session.handle_provider_message(WideEnvelope {
        direction: Direction::Direct(id as u64),
        data: ProviderToServer::Data { batch: vec![inc(1, 2)] },
    });
    assert_eq!(data.len(), 1);
    assert!(matches!(
        &data[0],
        SessionEffect::ToClient { response: rillrate::protocol::ClientResponse::Data { .. }, .. }
    ));
    let unrouted = session.handle_provider_message(WideEnvelope {
        direction: Direction::Direct(999),
        data: ProviderToServer::BeginStream { snapshot: FlowState::Counter { value: 7 } },
    });
    assert!(unrouted.is_empty(), "a snapshot for an unknown id is dropped silently");
}

use rillrate::errors::RillError;
use rillrate::flow::{apply, FlowEvent, FlowState, TimedEvent};
use rillrate::frame::Frame;
use rillrate::gauge_flow;
use rillrate::gauge_metric::{GaugeMetric, GaugeState};
use rillrate::paths::Path;
use rillrate::style::{TextAlign, ToStyle};
use rillrate::supervisor::{
    termination_sequence, Config, Group, ProviderConfig, RillRate, StartupPlan, WaitForAddr,
};

fn path_of(segs: &[&str]) -> Path {
    let segments: Vec<String> = segs.iter().map(|s| s.to_string()).collect();
    Path::from_segments(segments).expect("well-formed path")
}

fn ev(ts: u64, event: FlowEvent) -> TimedEvent<FlowEvent> {
    TimedEvent { timestamp: ts, event }
}

#[test]
fn frame_keeps_last_depth_inserts() {
    let mut frame: Frame<u64> = Frame::new(2);
    frame.insert(1);
    frame.insert(2);
    frame.insert(3);
    assert_eq!(frame.len(), 2);
    assert_eq!(*frame.get(0), 2);
    assert_eq!(*frame.get(1), 3);
    assert_eq!(frame.depth(), 2);
}

#[test]
fn frame_shorter_than_depth_keeps_everything() {
    let mut frame: Frame<u64> = Frame::new(10);
    for x in 0..4u64 {
        frame.insert(x);
    }
    assert_eq!(frame.len(), 4);
    assert_eq!(frame.items().as_slice(), &[0, 1, 2, 3]);
}

#[test]
fn counter_folds_increments() {
    let mut state = FlowState::Counter { value: 0 };
    for delta in [1, 1, 1, 10] {
        apply(&mut state, &ev(7, FlowEvent::Inc { delta }));
    }
    match state {
        FlowState::Counter { value } => assert_eq!(value, 13),
        _ => panic!("counter stayed a counter"),
    }
}

#[test]
fn counter_saturates_at_the_top() {
    let mut state = FlowState::Counter { value: i64::MAX - 1 };
    apply(&mut state, &ev(0, FlowEvent::Inc { delta: 5 }));
    match state {
        FlowState::Counter { value } => assert_eq!(value, i64::MAX),
        _ => panic!("counter stayed a counter"),
    }
}

#[test]
fn pulse_frame_evicts_oldest() {
    let mut state = FlowState::Pulse { frame: Frame::new(3) };
    for x in 1..=5i64 {
        apply(&mut state, &ev(x as u64, FlowEvent::Add { value: x }));
    }
    match &state {
        FlowState::Pulse { frame } => {
            assert_eq!(frame.len(), 3);
            let values: Vec<i64> = frame.items().iter().map(|p| p.value).collect();
            assert_eq!(values, vec![3, 4, 5]);
        }
        _ => panic!("pulse stayed a pulse"),
    }
}

#[test]
fn board_assign_overwrite_and_remove() {
    let mut state = FlowState::Board { entries: Vec::new() };
    apply(
        &mut state,
        &ev(1, FlowEvent::Assign { key: "k".to_string(), value: "v1".to_string() }),
    );
    apply(
        &mut state,
        &ev(2, FlowEvent::Assign { key: "k".to_string(), value: "v2".to_string() }),
    );
    match &state {
        FlowState::Board { entries } => {
            assert_eq!(entries.len(), 1);
            assert_eq!(entries[0].1, "v2");
        }
        _ => panic!("board stayed a board"),
    }
    apply(&mut state, &ev(3, FlowEvent::Remove { key: "k".to_string() }));
    match &state {
        FlowState::Board { entries } => assert!(entries.is_empty()),
        _ => panic!("board stayed a board"),
    }
}

#[test]
fn apply_is_deterministic_on_equal_inputs() {
    let mut a = FlowState::Switch { label: "s".to_string(), on: false };
    let mut b = FlowState::Switch { label: "s".to_string(), on: false };
    let events = vec![
        ev(1, FlowEvent::Turn { on: true }),
        ev(2, FlowEvent::Turn { on: false }),
        ev(3, FlowEvent::Turn { on: true }),
    ];
    for e in &events {
        apply(&mut a, e);
    }
    for e in &events {
        apply(&mut b, e);
    }
    match (&a, &b) {
        (FlowState::Switch { on: oa, label: la }, FlowState::Switch { on: ob, label: lb }) => {
            assert_eq!(oa, ob);
            assert_eq!(la, lb);
        }
        _ => panic!("switches stayed switches"),
    }
}

#[test]
fn mismatched_event_leaves_state_unchanged() {
    let mut state = FlowState::Counter { value: 3 };
    apply(&mut state, &ev(1, FlowEvent::Turn { on: true }));
    match state {
        FlowState::Counter { value } => assert_eq!(value, 3),
        _ => panic!("counter stayed a counter"),
    }
}

#[test]
fn path_rejects_empty_segments() {
    assert!(matches!(
        Path::from_segments(vec![]),
        Err(RillError::ProtocolViolation)
    ));
    assert!(matches!(
        Path::from_segments(vec!["a".to_string(), String::new()]),
        Err(RillError::ProtocolViolation)
    ));
}

#[test]
fn path_text_joins_segments_with_dots() {
    let p = path_of(&["package", "dash", "group", "counter"]);
    assert_eq!(p.to_text(), "package.dash.group.counter");
    assert_eq!(p.arity(), 4);
}

#[test]
fn path_matches_by_segments() {
    let a = path_of(&["a", "b"]);
    let b = path_of(&["a", "b"]);
    let c = path_of(&["a", "c"]);
    assert!(a.matches(&b));
    assert!(!a.matches(&c));
    assert!(a.duplicate().matches(&a));
}

#[test]
fn error_messages_name_the_failure() {
    assert_eq!(
        RillError::RegistrationConflict.message(),
        "duplicate path registration"
    );
    assert_eq!(RillError::Clock.message(), "clock before epoch");
}

#[test]
fn gauge_metric_moves_and_records() {
    let mut state = GaugeState::default();
    GaugeMetric::apply(
        &mut state,
        TimedEvent { timestamp: 1, event: rillrate::gauge_metric::GaugeEvent::Increment { delta: 5 } },
    );
    GaugeMetric::apply(
        &mut state,
        TimedEvent { timestamp: 2, event: rillrate::gauge_metric::GaugeEvent::Decrement { delta: 2 } },
    );
    GaugeMetric::apply(
        &mut state,
        TimedEvent { timestamp: 3, event: rillrate::gauge_metric::GaugeEvent::SetValue { value: 7 } },
    );
    assert_eq!(state.value(), 7);
    assert_eq!(state.frame.len(), 3);
    let values: Vec<i64> = state.frame.items().iter().map(|p| p.event.value).collect();
    assert_eq!(values, vec![5, 3, 7]);
}

#[test]
fn gauge_flow_sets_and_remembers_the_instant() {
    let flow = gauge_flow::GaugeFlow { range: rillrate::flow::Range { min: 0, max: 10 } };
    let mut state = gauge_flow::GaugeState::new();
    assert!(state.last().is_none());
    flow.apply(
        &mut state,
        TimedEvent { timestamp: 100, event: gauge_flow::GaugeEvent::SetValue { value: 9 } },
    );
    let last = state.last().expect("set once");
    assert_eq!(last.timestamp, 100);
    assert_eq!(last.event, 9);
    assert_eq!(gauge_flow::GaugeFlow::stream_type(), "rillrate.gauge.v0");
}

#[test]
fn text_align_styles() {
    assert_eq!(TextAlign::Center.to_style(), "text-align: center;");
    assert_eq!(TextAlign::End.to_style(), "text-align: end;");
}

#[test]
fn supervisor_plans_embedded_node_without_config() {
    let (mut sup, name) = RillRate::new("demo-app".to_string());
    assert_eq!(name, "demo-app");
    let plan = sup.on_config_read(None);
    assert!(matches!(plan, StartupPlan::SpawnEmbeddedNode));
    let follow_up = sup.on_addr_ready();
    match follow_up {
        StartupPlan::SpawnProvider { config } => assert!(config.node.is_none()),
        _ => panic!("a provider follows the embedded node"),
    }
}

#[test]
fn supervisor_plans_provider_with_node_config() {
    let (mut sup, _name) = RillRate::new("demo-app".to_string());
    let config = Config {
        rillrate: Some(ProviderConfig { node: Some("127.0.0.1:1636".to_string()) }),
    };
    let plan = sup.on_config_read(Some(config));
    match plan {
        StartupPlan::SpawnProvider { config } => {
            assert_eq!(config.node.as_deref(), Some("127.0.0.1:1636"));
        }
        _ => panic!("a configured node spawns the provider at once"),
    }
    let _wait = WaitForAddr::new();
}

#[test]
fn termination_order_is_fixed() {
    assert_eq!(
        termination_sequence(),
        vec![Group::Tuning, Group::Provider, Group::EmbeddedNode]
    );
}

use std::io::Write;

use rillrate::assets::{
    choose_assets_source, classify_asset_path, on_fetch_result, Assets, AssetsMode, AssetsPlan,
    ReadAssetsPlan, ASSET_RETRY_SECS,
};
use rillrate::errors::RillError;
use rillrate::flow::FlowAction;
use rillrate::link::{Activity, Link};
use rillrate::paths::Path;
use rillrate::registry::Registry;
use rillrate::tracer::{SendOutcome, TracerMode};
use rillrate::widgets::{Board, Counter, CounterProvider, Pulse, Switch};

fn path_of(segs: &[&str]) -> Path {
    let segments: Vec<String> = segs.iter().map(|s| s.to_string()).collect();
    Path::from_segments(segments).expect("well-formed path")
}

fn tar_gz(entries: &[(&str, &[u8])]) -> Vec<u8> {
    let mut builder = tar::Builder::new(Vec::new());
    for (name, data) in entries {
        let mut header = tar::Header::new_gnu();
        header.set_size(data.len() as u64);
        header.set_mode(0o644);
        header.set_cksum();
        builder.append_data(&mut header, name, *data).expect("tar entry");
    }
    let tar_bytes = builder.into_inner().expect("tar stream");
    let mut encoder =
        flate2::write::GzEncoder::new(Vec::new(), flate2::Compression::default());
    encoder.write_all(&tar_bytes).expect("gzip");
    encoder.finish().expect("gzip stream")
}

#[test]
fn assets_parse_and_lookup() {
    let bundle = tar_gz(&[
        ("index.html", b"<html>"),
        ("empty.txt", b""),
        ("app.js", b"let x;"),
        ("index.html", b"<html>2"),
    ]);
    let assets = Assets::parse(&bundle).expect("a well-formed bundle");
    assert_eq!(assets.len(), 3, "the empty entry is skipped");
    assert_eq!(assets.get("app.js").map(|v| v.as_slice()), Some(&b"let x;"[..]));
    assert_eq!(
        assets.get("index.html").map(|v| v.as_slice()),
        Some(&b"<html>2"[..]),
        "the later entry under a name wins"
    );
    assert!(assets.get("missing.css").is_none());
}

#[test]
fn assets_reject_garbage() {
    let garbage: Vec<u8> = vec![1, 2, 3, 4, 5];
    assert!(matches!(Assets::parse(&garbage), Err(RillError::AssetFetch)));
}

#[test]
fn asset_source_choice() {
    assert!(matches!(
        choose_assets_source(Some("http://ui.pack".to_string()), true, None),
        AssetsPlan::FetchUrl { url } if url == "http://ui.pack"
    ));
    assert!(matches!(
        choose_assets_source(Some("/var/ui".to_string()), false, None),
        AssetsPlan::ReadPath { path } if path == "/var/ui"
    ));
    assert!(matches!(
        choose_assets_source(None, true, Some("http://x".to_string())),
        AssetsPlan::ParseEmbedded
    ));
    assert!(matches!(
        choose_assets_source(None, false, Some("http://x".to_string())),
        AssetsPlan::FetchUrl { url } if url == "http://x"
    ));
    assert!(matches!(choose_assets_source(None, false, None), AssetsPlan::Idle));
    assert!(matches!(
        choose_assets_source(Some("htt".to_string()), false, None),
        AssetsPlan::ReadPath { path } if path == "htt"
    ));
}

#[test]
fn asset_path_classification() {
    assert!(matches!(classify_asset_path(false, false), ReadAssetsPlan::Missing));
    assert!(matches!(classify_asset_path(true, true), ReadAssetsPlan::UseLocalDir));
    assert!(matches!(classify_asset_path(true, false), ReadAssetsPlan::ParsePacked));
}

#[test]
fn failed_fetch_schedules_a_retry() {
    let bundle = tar_gz(&[("a", b"1")]);
    let assets = Assets::parse(&bundle).expect("bundle");
    let (mode, retry) = on_fetch_result(Ok(assets));
    assert!(matches!(mode, AssetsMode::Packed { .. }));
    assert!(retry.is_none());
    let (mode, retry) = on_fetch_result(Err("no route".to_string()));
    match mode {
        AssetsMode::Failed { reason } => assert_eq!(reason, "no route"),
        _ => panic!("a failed fetch records its reason"),
    }
    assert_eq!(retry, Some(ASSET_RETRY_SECS));
    assert_eq!(ASSET_RETRY_SECS, 5);
}

#[test]
fn link_carries_actions_to_the_host() {
    let mut link = Link::new();
    let sender = link.sender();
    let mut rx = link.receiver().expect("taken once");
    assert!(link.receiver().is_none());
    assert!(sender.send(Activity::Connected));
    assert!(sender.clone().send(Activity::Action { action: FlowAction::Turn { on: true } }));
    let first = rx.try_recv().expect("queued");
    assert!(!first.activity.is_action());
    assert!(first.activity.to_action().is_none());
    let second = rx.try_recv().expect("queued");
    assert!(second.activity.is_action());
    match second.activity.to_action() {
        Some(FlowAction::Turn { on }) => assert!(on),
        _ => panic!("the action carries its payload"),
    }
}

#[test]
fn widgets_register_and_send() {
    let mut registry = Registry::new();
    let (counter, _mode) =
        Counter::new(&mut registry, path_of(&["w", "counter"])).expect("fresh path");
    assert_eq!(counter.inc(1, None), SendOutcome::Sent);
    let (pulse, _mode) =
        Pulse::new(&mut registry, path_of(&["w", "pulse"]), 3).expect("fresh path");
    assert_eq!(pulse.add(7, None), SendOutcome::Sent);
    let (board, _mode) = Board::new(&mut registry, path_of(&["w", "board"])).expect("fresh path");
    assert_eq!(board.set("k".to_string(), "v".to_string()), SendOutcome::Sent);
    assert_eq!(board.remove("k".to_string()), SendOutcome::Sent);
    assert!(Board::new(&mut registry, path_of(&["w", "board"])).is_err());
    assert_eq!(registry.len(), 3);
}

#[test]
fn switch_round_trip_through_recorder_and_link() {
    let mut registry = Registry::new();
    let mut link = Link::new();
    let (switch, _mode) = Switch::new(
        &mut registry,
        path_of(&["w", "switch"]),
        "Switch Me!".to_string(),
        link.sender(),
    )
    .expect("fresh path");
    // A client action arrives: the recorder forwards it onto the tracer's
    // broadcast, the host hears it on the link and flips the switch.
    let mut actions = switch.tracer().clone();
    let mut watcher = actions.subscribe().expect("push mode");
    assert!(switch
        .tracer()
        .publish_action(FlowAction::Turn { on: true })
        .expect("push mode"));
    let action = watcher.try_recv().expect("forwarded");
    let sender = link.sender();
    assert!(sender.send(Activity::Action { action }));
    let mut rx = link.receiver().expect("host side");
    let envelope = rx.try_recv().expect("delivered");
    match envelope.activity.to_action() {
        Some(FlowAction::Turn { on }) => {
            assert_eq!(switch.turn(on), SendOutcome::Sent);
        }
        _ => panic!("the round trip carries the action"),
    }
}

#[test]
fn clock_failures_drop_the_event() {
    let mut registry = Registry::new();
    let (counter, _mode) =
        Counter::new(&mut registry, path_of(&["w", "clock"])).expect("fresh path");
    let epoch = std::time::SystemTime::UNIX_EPOCH;
    let before_epoch = epoch - std::time::Duration::from_secs(1);
    assert_eq!(counter.inc(1, Some(before_epoch)), SendOutcome::ClockFailed);
    let after_epoch = epoch + std::time::Duration::from_secs(5);
    assert_eq!(counter.inc(1, Some(after_epoch)), SendOutcome::Sent);
}

#[test]
fn counter_provider_counts_under_the_lock() {
    let mut registry = Registry::new();
    let (provider, mode) =
        CounterProvider::new(&mut registry, path_of(&["rill", "counter"]), 40)
            .expect("fresh path");
    assert_eq!(provider.inc(2, None), SendOutcome::Sent);
    assert_eq!(provider.inc(3, None), SendOutcome::Sent);
    match mode {
        TracerMode::Pull { state, interval_ms } => {
            assert_eq!(interval_ms, 40);
            let sampled = rillrate::tracer::sample_pull_state(&state).expect("alive");
            match sampled {
                rillrate::flow::FlowState::Counter { value } => assert_eq!(value, 5),
                _ => panic!("a counter state"),
            }
        }
        _ => panic!("the provider counter is sampled"),
    }
}

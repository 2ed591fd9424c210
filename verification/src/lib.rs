//! An embedded telemetry and live-dashboard bus.
//!
//! A host process exposes named *flows* (counters, gauges, pulses, boards and
//! interactive widgets); tracers write timed events into per-flow recorders,
//! which keep the authoritative state and fan deltas out to subscribers.
//! A registry maps each path to its recorder, and provider sessions bridge
//! recorders to dashboard clients over a message transport.

pub mod errors;
pub mod paths;
pub mod frame;
pub mod flow;
pub mod recorder;
pub mod protocol;
pub mod registry;
pub mod session;
pub mod assets;
pub mod tracer;
pub mod gauge_metric;
pub mod gauge_flow;
pub mod style;
pub mod supervisor;
pub mod link;
pub mod widgets;

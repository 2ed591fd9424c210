//! The flow-style gauge: a level with the instant it was last set, and a
//! declared display range.

use vstd::prelude::*;
use crate::flow::{Range, TimedEvent};

verus! {

/// The flow-style gauge: the declared display range travels with it.
#[derive(Clone, Copy, Debug, PartialEq, Eq, Structural)]
pub struct GaugeFlow {
    pub range: Range,
}

/// The level last set, and when.
#[derive(Clone, Copy, Debug, PartialEq, Eq, Structural)]
pub struct GaugeState {
    pub timestamp: Option<u64>,
    pub value: i64,
}

/// A level change: the gauge is always set outright.
#[derive(Clone, Copy, Debug, PartialEq, Eq, Structural)]
pub enum GaugeEvent {
    SetValue { value: i64 },
}

impl GaugeFlow {
    /// The wire tag that names this flow's schema and version.
    pub fn stream_type() -> (r: &'static str)
        ensures
            r@ == "rillrate.gauge.v0"@,
    {
        "rillrate.gauge.v0"
    }

    /// Sets the level and remembers the event's instant.
    pub fn apply(&self, state: &mut GaugeState, event: TimedEvent<GaugeEvent>)
        ensures
            *final(state) == (match event.event {
                GaugeEvent::SetValue { value } => GaugeState {
                    timestamp: Some(event.timestamp),
                    value,
                },
            }),
    {
        match event.event {
            GaugeEvent::SetValue { value } => {
                state.timestamp = Some(event.timestamp);
                state.value = value;
            },
        }
    }
}

impl GaugeState {
    /// A gauge that was never set.
    pub fn new() -> (r: GaugeState)
        ensures
            r == (GaugeState { timestamp: None, value: 0 }),
    {
        GaugeState { timestamp: None, value: 0 }
    }

    /// The last reading, if the gauge was ever set.
    pub fn last(&self) -> (r: Option<TimedEvent<i64>>)
        ensures
            match self.timestamp {
                Some(ts) => r == Some(TimedEvent { timestamp: ts, event: self.value }),
                None => r is None,
            },
    {
        match self.timestamp {
            Some(ts) => Some(TimedEvent { timestamp: ts, event: self.value }),
            None => None,
        }
    }
}

} // verus!

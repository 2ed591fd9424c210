//! The metric-style gauge: a level that moves by increments, decrements
//! and sets, keeping a bounded frame of its recent readings.

use vstd::prelude::*;
use crate::frame::{frame_push, Frame};
use crate::flow::{sat_add, sat_add_v, TimedEvent};

verus! {

/// The default depth of a gauge's history frame.
pub const GAUGE_FRAME_DEPTH: usize = 100;

/// The metric-style gauge reducer.
#[derive(Debug)]
pub struct GaugeMetric;

/// One recorded reading of the gauge.
#[derive(Clone, Copy, Debug, PartialEq, Eq, Structural)]
pub struct GaugePoint {
    pub value: i64,
}

/// What a gauge event does to the level, clipping at the numeric bounds.
pub open spec fn gauge_step(value: int, event: GaugeEvent) -> i64 {
    match event {
        GaugeEvent::Increment { delta } => sat_add_v(value, delta as int),
        GaugeEvent::Decrement { delta } => sat_add_v(value, -(delta as int)),
        GaugeEvent::SetValue { value: v } => v,
    }
}

/// The gauge's level and its bounded history of readings.
#[derive(Debug)]
pub struct GaugeState {
    pub frame: Frame<TimedEvent<GaugePoint>>,
    value: i64,
}

impl GaugeState {
    /// The current level.
    pub closed spec fn value_v(&self) -> i64 {
        self.value
    }

    /// The recorded readings, oldest first.
    pub closed spec fn frame_v(&self) -> Seq<TimedEvent<GaugePoint>> {
        self.frame@
    }

    /// The frame's declared capacity.
    pub closed spec fn depth_v(&self) -> nat {
        self.frame.spec_depth()
    }

    /// The frame stays bounded.
    pub closed spec fn wf(&self) -> bool {
        self.frame.wf()
    }

    /// The current level.
    pub fn value(&self) -> (r: i64)
        ensures
            r == self.value_v(),
    {
        self.value
    }
}

impl Default for GaugeState {
    /// A gauge at zero with an empty frame of the default depth.
    fn default() -> (r: GaugeState)
        ensures
            r.wf(),
            r.value_v() == 0,
            r.frame_v() == Seq::<TimedEvent<GaugePoint>>::empty(),
            r.depth_v() == GAUGE_FRAME_DEPTH,
    {
        GaugeState { frame: Frame::new(GAUGE_FRAME_DEPTH), value: 0 }
    }
}

/// A level change of the gauge.
#[derive(Clone, Copy, Debug)]
pub enum GaugeEvent {
    Increment { delta: i64 },
    Decrement { delta: i64 },
    SetValue { value: i64 },
}

impl GaugeMetric {
    /// Moves the level as the event says, then records the new level in
    /// the frame under the event's timestamp, evicting the oldest reading
    /// when the frame is full.
    pub fn apply(state: &mut GaugeState, event: TimedEvent<GaugeEvent>)
        requires
            old(state).wf(),
        ensures
            final(state).wf(),
            final(state).value_v() == gauge_step(old(state).value_v() as int, event.event),
            final(state).frame_v() == frame_push(
                old(state).depth_v(),
                old(state).frame_v(),
                TimedEvent {
                    timestamp: event.timestamp,
                    event: GaugePoint {
                        value: gauge_step(old(state).value_v() as int, event.event),
                    },
                },
            ),
            final(state).depth_v() == old(state).depth_v(),
    {
        match event.event {
            GaugeEvent::Increment { delta } => {
                state.value = sat_add(state.value, delta);
            },
            GaugeEvent::Decrement { delta } => {
                state.value = sat_sub_one(state.value, delta);
            },
            GaugeEvent::SetValue { value } => {
                state.value = value;
            },
        }
        let point = GaugePoint { value: state.value };
        let timed_event = TimedEvent { timestamp: event.timestamp, event: point };
        state.frame.insert(timed_event);
    }
}

/// Clipping subtraction, expressed through clipping addition of the
/// negated delta.
fn sat_sub_one(a: i64, b: i64) -> (r: i64)
    ensures
        r == sat_add_v(a as int, -(b as int)),
{
    if b >= 0 {
        if a < i64::MIN + b {
            i64::MIN
        } else {
            a - b
        }
    } else {
        if a > i64::MAX + b {
            i64::MAX
        } else {
            a - b
        }
    }
}

} // verus!

//! The flow handles a host embeds: plain telemetry flows and the
//! interactive widgets, each a thin face over a tracer.

use vstd::prelude::*;
use std::time::SystemTime;
use crate::errors::RillError;
use crate::flow::{FlowEvent, FlowKind, FlowState, Range, StateV};
use crate::link::ActivitySender;
use crate::paths::Path;
use crate::registry::{find_path, Registry};
use crate::tracer::{micros_since_epoch, SendOutcome, Tracer, TracerMode};

verus! {

/// What every flow constructor promises: on success the path was free and
/// is now registered.
pub open spec fn flow_created(reg_before: &Registry, reg_after: &Registry, path: &Path) -> bool {
    &&& find_path(reg_before.paths_v(), path.segs()) == -1
    &&& reg_after.paths_v() == reg_before.paths_v().push(path.segs())
}

/// What every flow constructor promises on refusal: the path was taken
/// and nothing changed.
pub open spec fn flow_refused(reg_before: &Registry, reg_after: &Registry, path: &Path) -> bool {
    &&& find_path(reg_before.paths_v(), path.segs()) >= 0
    &&& reg_after.entries_v() == reg_before.entries_v()
}

/// A counter that only moves by increments.
pub struct Counter {
    tracer: Tracer,
}

impl Counter {
    /// The path this handle writes to.
    pub closed spec fn path_v(&self) -> Seq<Seq<char>> {
        self.tracer.path_v()
    }

    /// Whether events push straight to the recorder.
    pub closed spec fn push_v(&self) -> bool {
        self.tracer.is_push()
    }

    /// Every handle of this kind pushes: its constructor builds the
    /// tracer without a sampling interval.
    #[verifier::type_invariant]
    closed spec fn mode_inv(&self) -> bool {
        self.tracer.is_push()
    }

    /// Registers a counter flow at zero.
    pub fn new(registry: &mut Registry, path: Path) -> (r: Result<(Counter, TracerMode), RillError>)
        requires
            old(registry).wf(),
        ensures
            final(registry).wf(),
            match r {
                Ok(c) => flow_created(old(registry), final(registry), &path) && c.0.path_v()
                    == path.segs() && c.0.push_v() && final(registry).entries_v().last().recorder.initial_v() == (StateV::Counter { value: 0 }),
                Err(e) => e == RillError::RegistrationConflict && flow_refused(
                    old(registry),
                    final(registry),
                    &path,
                ),
            },
    {
        match Tracer::new_tracer(registry, FlowState::Counter { value: 0 }, path, FlowKind::Counter, None) {
            Ok((tracer, mode)) => Ok((Counter { tracer }, mode)),
            Err(e) => Err(e),
        }
    }

    /// Counts up by the given amount: the increment event, stamped and
    /// queued to the recorder.
    pub fn inc(&self, delta: i64, timestamp: Option<SystemTime>) -> (r: SendOutcome)
        ensures
            r != SendOutcome::LockFailed,
            timestamp matches Some(t) && micros_since_epoch(t) is Some ==> r
                != SendOutcome::ClockFailed,
            r == SendOutcome::ClockFailed ==> (timestamp matches Some(t) ==> micros_since_epoch(t)
                is None),
    {
        proof {
            use_type_invariant(&*self);
        }
        self.tracer.send(FlowEvent::Inc { delta }, timestamp)
    }
}

/// The level gauge of the unified flow set.
pub struct Gauge {
    tracer: Tracer,
}

impl Gauge {
    /// The path this handle writes to.
    pub closed spec fn path_v(&self) -> Seq<Seq<char>> {
        self.tracer.path_v()
    }

    /// Whether events push straight to the recorder.
    pub closed spec fn push_v(&self) -> bool {
        self.tracer.is_push()
    }

    /// Registers a gauge flow with its declared range, at zero and never
    /// yet set.
    pub fn new(registry: &mut Registry, path: Path, range: Range, pull_ms: Option<u64>) -> (r:
        Result<(Gauge, TracerMode), RillError>)
        requires
            old(registry).wf(),
        ensures
            final(registry).wf(),
            match r {
                Ok(g) => flow_created(old(registry), final(registry), &path) && g.0.path_v()
                    == path.segs() && (g.0.push_v() <==> pull_ms is None) && final(registry).entries_v().last().recorder.initial_v() == (StateV::Gauge {
                    at: None,
                    value: 0,
                }),
                Err(e) => e == RillError::RegistrationConflict && flow_refused(
                    old(registry),
                    final(registry),
                    &path,
                ),
            },
    {
        let state = FlowState::Gauge { at: None, value: 0 };
        match Tracer::new_tracer(registry, state, path, FlowKind::Gauge { range }, pull_ms) {
            Ok((tracer, mode)) => Ok((Gauge { tracer }, mode)),
            Err(e) => Err(e),
        }
    }

    /// Sets the level: the set event, stamped and delivered in the
    /// gauge's mode.
    pub fn set(&self, value: i64, timestamp: Option<SystemTime>) -> (r: SendOutcome)
        ensures
            timestamp matches Some(t) && micros_since_epoch(t) is Some ==> r
                != SendOutcome::ClockFailed,
            r == SendOutcome::ClockFailed ==> (timestamp matches Some(t) ==> micros_since_epoch(t)
                is None),
    {
        self.tracer.send(FlowEvent::SetValue { value }, timestamp)
    }
}

/// A pulse: a bounded trail of recent samples.
pub struct Pulse {
    tracer: Tracer,
}

impl Pulse {
    /// The path this handle writes to.
    pub closed spec fn path_v(&self) -> Seq<Seq<char>> {
        self.tracer.path_v()
    }

    /// Whether events push straight to the recorder.
    pub closed spec fn push_v(&self) -> bool {
        self.tracer.is_push()
    }

    /// Every handle of this kind pushes: its constructor builds the
    /// tracer without a sampling interval.
    #[verifier::type_invariant]
    closed spec fn mode_inv(&self) -> bool {
        self.tracer.is_push()
    }

    /// Registers a pulse flow with an empty frame of the given depth.
    pub fn new(registry: &mut Registry, path: Path, depth: usize) -> (r: Result<
        (Pulse, TracerMode),
        RillError,
    >)
        requires
            old(registry).wf(),
            depth >= 1,
        ensures
            final(registry).wf(),
            match r {
                Ok(p) => flow_created(old(registry), final(registry), &path) && p.0.path_v()
                    == path.segs() && p.0.push_v() && final(registry).entries_v().last().recorder.initial_v() == (StateV::Pulse {
                    depth: depth as nat,
                    points: Seq::empty(),
                }),
                Err(e) => e == RillError::RegistrationConflict && flow_refused(
                    old(registry),
                    final(registry),
                    &path,
                ),
            },
    {
        let state = FlowState::Pulse { frame: crate::frame::Frame::new(depth) };
        match Tracer::new_tracer(registry, state, path, FlowKind::Pulse, None) {
            Ok((tracer, mode)) => Ok((Pulse { tracer }, mode)),
            Err(e) => Err(e),
        }
    }

    /// Appends a sample: the add event, stamped and queued to the
    /// recorder.
    pub fn add(&self, value: i64, timestamp: Option<SystemTime>) -> (r: SendOutcome)
        ensures
            r != SendOutcome::LockFailed,
            timestamp matches Some(t) && micros_since_epoch(t) is Some ==> r
                != SendOutcome::ClockFailed,
            r == SendOutcome::ClockFailed ==> (timestamp matches Some(t) ==> micros_since_epoch(t)
                is None),
    {
        proof {
            use_type_invariant(&*self);
        }
        self.tracer.send(FlowEvent::Add { value }, timestamp)
    }
}

/// A board of keyed text values.
pub struct Board {
    tracer: Tracer,
}

impl Board {
    /// The path this handle writes to.
    pub closed spec fn path_v(&self) -> Seq<Seq<char>> {
        self.tracer.path_v()
    }

    /// Whether events push straight to the recorder.
    pub closed spec fn push_v(&self) -> bool {
        self.tracer.is_push()
    }

    /// Every handle of this kind pushes: its constructor builds the
    /// tracer without a sampling interval.
    #[verifier::type_invariant]
    closed spec fn mode_inv(&self) -> bool {
        self.tracer.is_push()
    }

    /// Registers a board flow with no entries.
    pub fn new(registry: &mut Registry, path: Path) -> (r: Result<(Board, TracerMode), RillError>)
        requires
            old(registry).wf(),
        ensures
            final(registry).wf(),
            match r {
                Ok(b) => flow_created(old(registry), final(registry), &path) && b.0.path_v()
                    == path.segs() && b.0.push_v() && final(registry).entries_v().last().recorder.initial_v() == (StateV::Board {
                    entries: Map::empty(),
                }),
                Err(e) => e == RillError::RegistrationConflict && flow_refused(
                    old(registry),
                    final(registry),
                    &path,
                ),
            },
    {
        let entries: Vec<(String, String)> = Vec::new();
        proof {
            assert(entries.deep_view() =~= Seq::<(Seq<char>, Seq<char>)>::empty());
            assert(crate::flow::entries_map(entries.deep_view()) =~= Map::<
                Seq<char>,
                Seq<char>,
            >::empty());
        }
        let state = FlowState::Board { entries };
        match Tracer::new_tracer(registry, state, path, FlowKind::Board, None) {
            Ok((tracer, mode)) => Ok((Board { tracer }, mode)),
            Err(e) => Err(e),
        }
    }

    /// Assigns a value to a key: the assign event, stamped by the wall
    /// clock and queued to the recorder.
    pub fn set(&self, key: String, value: String) -> (r: SendOutcome)
        ensures
            r != SendOutcome::LockFailed,
    {
        proof {
            use_type_invariant(&*self);
        }
        self.tracer.send(FlowEvent::Assign { key, value }, None)
    }

    /// Removes a key: the remove event, stamped by the wall clock and
    /// queued to the recorder.
    pub fn remove(&self, key: String) -> (r: SendOutcome)
        ensures
            r != SendOutcome::LockFailed,
    {
        proof {
            use_type_invariant(&*self);
        }
        self.tracer.send(FlowEvent::Remove { key }, None)
    }
}

/// A click button; its only traffic is actions back from clients.
pub struct Click {
    tracer: Tracer,
    link: ActivitySender,
}

impl Click {
    /// The path this handle writes to.
    pub closed spec fn path_v(&self) -> Seq<Seq<char>> {
        self.tracer.path_v()
    }

    /// Whether events push straight to the recorder.
    pub closed spec fn push_v(&self) -> bool {
        self.tracer.is_push()
    }

    /// Every handle of this kind pushes: its constructor builds the
    /// tracer without a sampling interval.
    #[verifier::type_invariant]
    closed spec fn mode_inv(&self) -> bool {
        self.tracer.is_push()
    }

    /// Registers a click widget under its label.
    pub fn new(registry: &mut Registry, path: Path, label: String, link: ActivitySender) -> (r:
        Result<(Click, TracerMode), RillError>)
        requires
            old(registry).wf(),
        ensures
            final(registry).wf(),
            match r {
                Ok(c) => flow_created(old(registry), final(registry), &path) && c.0.path_v()
                    == path.segs() && c.0.push_v() && final(registry).entries_v().last().recorder.initial_v() == (StateV::Click { label: label@ }),
                Err(e) => e == RillError::RegistrationConflict && flow_refused(
                    old(registry),
                    final(registry),
                    &path,
                ),
            },
    {
        let state = FlowState::Click { label };
        match Tracer::new_tracer(registry, state, path, FlowKind::Click, None) {
            Ok((tracer, mode)) => Ok((Click { tracer, link }, mode)),
            Err(e) => Err(e),
        }
    }

    /// The tracer behind the widget, for wiring its action stream.
    pub fn tracer(&self) -> &Tracer {
        &self.tracer
    }

    /// The link the host task listens on.
    pub fn link(&self) -> &ActivitySender {
        &self.link
    }
}

/// An on/off switch.
pub struct Switch {
    tracer: Tracer,
    link: ActivitySender,
}

impl Switch {
    /// The path this handle writes to.
    pub closed spec fn path_v(&self) -> Seq<Seq<char>> {
        self.tracer.path_v()
    }

    /// Whether events push straight to the recorder.
    pub closed spec fn push_v(&self) -> bool {
        self.tracer.is_push()
    }

    /// Every handle of this kind pushes: its constructor builds the
    /// tracer without a sampling interval.
    #[verifier::type_invariant]
    closed spec fn mode_inv(&self) -> bool {
        self.tracer.is_push()
    }

    /// Registers a switch widget, initially off.
    pub fn new(registry: &mut Registry, path: Path, label: String, link: ActivitySender) -> (r:
        Result<(Switch, TracerMode), RillError>)
        requires
            old(registry).wf(),
        ensures
            final(registry).wf(),
            match r {
                Ok(s) => flow_created(old(registry), final(registry), &path) && s.0.path_v()
                    == path.segs() && s.0.push_v() && final(registry).entries_v().last().recorder.initial_v() == (StateV::Switch {
                    label: label@,
                    on: false,
                }),
                Err(e) => e == RillError::RegistrationConflict && flow_refused(
                    old(registry),
                    final(registry),
                    &path,
                ),
            },
    {
        let state = FlowState::Switch { label, on: false };
        match Tracer::new_tracer(registry, state, path, FlowKind::Switch, None) {
            Ok((tracer, mode)) => Ok((Switch { tracer, link }, mode)),
            Err(e) => Err(e),
        }
    }

    /// Turns the switch: the turn event, stamped by the wall clock and
    /// queued to the recorder.
    pub fn turn(&self, on: bool) -> (r: SendOutcome)
        ensures
            r != SendOutcome::LockFailed,
    {
        proof {
            use_type_invariant(&*self);
        }
        self.tracer.send(FlowEvent::Turn { on }, None)
    }

    /// The tracer behind the widget, for wiring its action stream.
    pub fn tracer(&self) -> &Tracer {
        &self.tracer
    }
}

/// A slider over a declared range and step.
pub struct Slider {
    tracer: Tracer,
    link: ActivitySender,
}

impl Slider {
    /// The path this handle writes to.
    pub closed spec fn path_v(&self) -> Seq<Seq<char>> {
        self.tracer.path_v()
    }

    /// Whether events push straight to the recorder.
    pub closed spec fn push_v(&self) -> bool {
        self.tracer.is_push()
    }

    /// Every handle of this kind pushes: its constructor builds the
    /// tracer without a sampling interval.
    #[verifier::type_invariant]
    closed spec fn mode_inv(&self) -> bool {
        self.tracer.is_push()
    }

    /// Registers a slider widget at its minimum.
    pub fn new(
        registry: &mut Registry,
        path: Path,
        label: String,
        min: i64,
        max: i64,
        step: i64,
        link: ActivitySender,
    ) -> (r: Result<(Slider, TracerMode), RillError>)
        requires
            old(registry).wf(),
        ensures
            final(registry).wf(),
            match r {
                Ok(s) => flow_created(old(registry), final(registry), &path) && s.0.path_v()
                    == path.segs() && s.0.push_v() && final(registry).entries_v().last().recorder.initial_v() == (StateV::Slider {
                    label: label@,
                    min,
                    max,
                    step,
                    value: min,
                }),
                Err(e) => e == RillError::RegistrationConflict && flow_refused(
                    old(registry),
                    final(registry),
                    &path,
                ),
            },
    {
        let state = FlowState::Slider { label, min, max, step, value: min };
        match Tracer::new_tracer(registry, state, path, FlowKind::Slider, None) {
            Ok((tracer, mode)) => Ok((Slider { tracer, link }, mode)),
            Err(e) => Err(e),
        }
    }

    /// Moves the slider: the set event, stamped by the wall clock and
    /// queued to the recorder.
    pub fn set(&self, value: i64) -> (r: SendOutcome)
        ensures
            r != SendOutcome::LockFailed,
    {
        proof {
            use_type_invariant(&*self);
        }
        self.tracer.send(FlowEvent::SetValue { value }, None)
    }

    /// The tracer behind the widget, for wiring its action stream.
    pub fn tracer(&self) -> &Tracer {
        &self.tracer
    }
}

/// A selector over fixed options.
pub struct Selector {
    tracer: Tracer,
    link: ActivitySender,
}

impl Selector {
    /// The path this handle writes to.
    pub closed spec fn path_v(&self) -> Seq<Seq<char>> {
        self.tracer.path_v()
    }

    /// Whether events push straight to the recorder.
    pub closed spec fn push_v(&self) -> bool {
        self.tracer.is_push()
    }

    /// Every handle of this kind pushes: its constructor builds the
    /// tracer without a sampling interval.
    #[verifier::type_invariant]
    closed spec fn mode_inv(&self) -> bool {
        self.tracer.is_push()
    }

    /// Registers a selector widget with nothing selected.
    pub fn new(
        registry: &mut Registry,
        path: Path,
        label: String,
        options: Vec<String>,
        link: ActivitySender,
    ) -> (r: Result<(Selector, TracerMode), RillError>)
        requires
            old(registry).wf(),
        ensures
            final(registry).wf(),
            match r {
                Ok(s) => flow_created(old(registry), final(registry), &path) && s.0.path_v()
                    == path.segs() && s.0.push_v() && final(registry).entries_v().last().recorder.initial_v() == (StateV::Selector {
                    label: label@,
                    options: options.deep_view(),
                    selected: None,
                }),
                Err(e) => e == RillError::RegistrationConflict && flow_refused(
                    old(registry),
                    final(registry),
                    &path,
                ),
            },
    {
        let state = FlowState::Selector { label, options, selected: None };
        match Tracer::new_tracer(registry, state, path, FlowKind::Selector, None) {
            Ok((tracer, mode)) => Ok((Selector { tracer, link }, mode)),
            Err(e) => Err(e),
        }
    }

    /// Selects an option, or clears the selection: the select event,
    /// stamped by the wall clock and queued to the recorder.
    pub fn select(&self, option: Option<String>) -> (r: SendOutcome)
        ensures
            r != SendOutcome::LockFailed,
    {
        proof {
            use_type_invariant(&*self);
        }
        self.tracer.send(FlowEvent::Select { option }, None)
    }

    /// The tracer behind the widget, for wiring its action stream.
    pub fn tracer(&self) -> &Tracer {
        &self.tracer
    }
}

/// The counter metric of the provider set: its level lives under the
/// shared lock and is sampled by the recorder.
pub struct CounterProvider {
    provider: Tracer,
}

impl CounterProvider {
    /// The path this handle writes to.
    pub closed spec fn path_v(&self) -> Seq<Seq<char>> {
        self.provider.path_v()
    }

    /// Whether events push straight to the recorder.
    pub closed spec fn push_v(&self) -> bool {
        self.provider.is_push()
    }

    /// Every sampled counter pulls: its constructor builds the tracer
    /// with a sampling interval.
    #[verifier::type_invariant]
    closed spec fn mode_inv(&self) -> bool {
        !self.provider.is_push()
    }

    /// Registers a sampled counter at zero, read at the given interval.
    pub fn new(registry: &mut Registry, path: Path, interval_ms: u64) -> (r: Result<
        (CounterProvider, TracerMode),
        RillError,
    >)
        requires
            old(registry).wf(),
        ensures
            final(registry).wf(),
            match r {
                Ok(c) => flow_created(old(registry), final(registry), &path) && c.0.path_v()
                    == path.segs() && !c.0.push_v() && final(registry).entries_v().last().recorder.initial_v() == (StateV::Counter { value: 0 }),
                Err(e) => e == RillError::RegistrationConflict && flow_refused(
                    old(registry),
                    final(registry),
                    &path,
                ),
            },
    {
        let state = FlowState::Counter { value: 0 };
        match Tracer::new_tracer(registry, state, path, FlowKind::Counter, Some(interval_ms)) {
            Ok((tracer, mode)) => Ok((CounterProvider { provider: tracer }, mode)),
            Err(e) => Err(e),
        }
    }

    /// Counts up by the given amount, under the shared lock.
    pub fn inc(&self, delta: i64, timestamp: Option<SystemTime>) -> (r: SendOutcome)
        ensures
            r != SendOutcome::RecorderGone,
            timestamp matches Some(t) && micros_since_epoch(t) is Some ==> r
                != SendOutcome::ClockFailed,
            r == SendOutcome::ClockFailed ==> (timestamp matches Some(t) ==> micros_since_epoch(t)
                is None),
    {
        proof {
            use_type_invariant(&*self);
        }
        self.provider.send(FlowEvent::Inc { delta }, timestamp)
    }
}

} // verus!

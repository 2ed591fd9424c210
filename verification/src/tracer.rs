//! The tracer: the producer-side handle of a flow. It owns the path, a
//! mode — push events through a queue into the recorder, or apply them
//! under a shared lock that the recorder samples — and a broadcast channel
//! for the actions routed back from dashboard clients.

use vstd::prelude::*;
use vstd::string::StringExecFns;
use std::sync::{Arc, Mutex, Weak};
use std::time::SystemTime;
use futures::channel::mpsc::{UnboundedReceiver, UnboundedSender};
use tokio::sync::{broadcast, watch};
use crate::errors::RillError;
use crate::flow::{stream_type_of, FlowAction, FlowEvent, FlowKind, FlowState, TimedEvent};
use crate::paths::{joined_segments, Path};
use crate::protocol::Description;
use crate::recorder::{activity_clone, activity_get, Stage};
use crate::registry::{find_path, Registry};

verus! {

#[verifier::external_type_specification]
#[verifier::external_body]
#[verifier::reject_recursive_types(T)]
pub struct ExUnboundedSender<T>(UnboundedSender<T>);

#[verifier::external_type_specification]
#[verifier::external_body]
#[verifier::reject_recursive_types(T)]
pub struct ExUnboundedReceiver<T>(UnboundedReceiver<T>);

#[verifier::external_type_specification]
#[verifier::external_body]
#[verifier::reject_recursive_types(T)]
pub struct ExBroadcastSender<T>(broadcast::Sender<T>);

#[verifier::external_type_specification]
#[verifier::external_body]
#[verifier::reject_recursive_types(T)]
pub struct ExBroadcastReceiver<T>(broadcast::Receiver<T>);

#[verifier::external_type_specification]
#[verifier::external_body]
#[verifier::reject_recursive_types(T)]
pub struct ExMutex<T: ?Sized>(Mutex<T>);

#[verifier::external_type_specification]
#[verifier::external_body]
#[verifier::reject_recursive_types(T)]
pub struct ExMutexGuard<'a, T: ?Sized + 'a>(std::sync::MutexGuard<'a, T>);

/// A handle to the pull-mode shared state that does not keep it alive;
/// its one field is a weak reference, which Verus cannot take as it is.
#[verifier::external_body]
pub struct SharedStateHandle {
    inner: Weak<Mutex<FlowState>>,
}

#[verifier::external_type_specification]
#[verifier::external_body]
pub struct ExSystemTime(SystemTime);

/// What an instant reads as microseconds since the unix epoch: a function
/// of the instant alone, absent for instants before the epoch.
pub uninterp spec fn micros_since_epoch(t: SystemTime) -> Option<u64>;

/// Relies on SystemTime::now and SystemTime::duration_since: the caller's
/// instant, or the wall clock, as unix microseconds; an instant before
/// the epoch is a clock failure.
#[verifier::external_body]
pub fn time_to_ts(opt_system_time: Option<SystemTime>) -> (r: Result<u64, RillError>)
    ensures
        opt_system_time matches Some(t) ==> (match r {
            Ok(ts) => micros_since_epoch(t) == Some(ts),
            Err(e) => e == RillError::Clock && micros_since_epoch(t) is None,
        }),
        opt_system_time is None ==> (r matches Err(e) ==> e == RillError::Clock),
{
    let t = opt_system_time.unwrap_or_else(SystemTime::now);
    match t.duration_since(std::time::UNIX_EPOCH) {
        Ok(d) => Ok(d.as_micros() as u64),
        Err(_) => Err(RillError::Clock),
    }
}

/// Relies on futures' mpsc::unbounded: a connected producer queue pair.
#[verifier::external_body]
fn data_channel() -> (UnboundedSender<DataEnvelope>, UnboundedReceiver<DataEnvelope>) {
    futures::channel::mpsc::unbounded()
}

/// Relies on UnboundedSender::unbounded_send: queues the envelope, failing
/// only when the receiving recorder is gone.
#[verifier::external_body]
fn data_send(sender: &UnboundedSender<DataEnvelope>, envelope: DataEnvelope) -> bool {
    sender.unbounded_send(envelope).is_ok()
}

/// Relies on UnboundedSender::clone: another handle to the same queue.
#[verifier::external_body]
fn data_sender_clone(sender: &UnboundedSender<DataEnvelope>) -> UnboundedSender<DataEnvelope> {
    sender.clone()
}

/// Relies on tokio's broadcast::channel: a connected action channel pair
/// with a fixed capacity.
#[verifier::external_body]
fn action_channel() -> (broadcast::Sender<FlowAction>, broadcast::Receiver<FlowAction>) {
    broadcast::channel(16)
}

/// Relies on broadcast::Sender::send: hands the action to every current
/// subscriber, failing when none is listening.
#[verifier::external_body]
fn action_send(sender: &broadcast::Sender<FlowAction>, action: FlowAction) -> bool {
    sender.send(action).is_ok()
}

/// Relies on broadcast::Sender::subscribe: a fresh receiver of the
/// actions sent from now on.
#[verifier::external_body]
fn action_subscribe(sender: &broadcast::Sender<FlowAction>) -> broadcast::Receiver<FlowAction> {
    sender.subscribe()
}

/// Relies on broadcast::Sender::clone: another handle to the same channel.
#[verifier::external_body]
fn action_sender_clone(sender: &broadcast::Sender<FlowAction>) -> broadcast::Sender<FlowAction> {
    sender.clone()
}

/// Relies on std's Mutex::new: a lock around the shared pull-mode state.
/// Only well-formed states enter the lock, and the reducer preserves
/// well-formedness, so sampling hands back well-formed states.
#[verifier::external_body]
fn shared_state_new(state: FlowState) -> Arc<Mutex<FlowState>>
    requires
        state.wf(),
{
    Arc::new(Mutex::new(state))
}

/// Relies on Arc::clone: another owner of the same lock.
#[verifier::external_body]
fn shared_state_clone(state: &Arc<Mutex<FlowState>>) -> Arc<Mutex<FlowState>> {
    Arc::clone(state)
}

/// Relies on Arc::downgrade: a handle that does not keep the state alive.
#[verifier::external_body]
fn shared_state_downgrade(state: &Arc<Mutex<FlowState>>) -> SharedStateHandle {
    SharedStateHandle { inner: Arc::downgrade(state) }
}

/// Relies on Mutex::lock: takes the lock, handing back its guard, or
/// nothing when the lock is poisoned.
#[verifier::external_body]
fn lock_shared<'a>(state: &'a Arc<Mutex<FlowState>>) -> Option<
    std::sync::MutexGuard<'a, FlowState>,
> {
    state.lock().ok()
}

/// Relies on MutexGuard's exclusive access: the locked state, to change in
/// place. Only well-formed states enter the lock (`shared_state_new`
/// requires one) and the verified reducer is the only writer, so the
/// referent is well-formed.
#[verifier::external_body]
fn guard_state_mut<'a, 'b>(guard: &'b mut std::sync::MutexGuard<'a, FlowState>) -> (r: &'b mut
    FlowState)
    ensures
        (*r).wf(),
{
    &mut **guard
}

/// Relies on MutexGuard's access: the locked state, read-only. Well-formed
/// for the same reason as the mutable view.
#[verifier::external_body]
fn guard_state<'a, 'b>(guard: &'b std::sync::MutexGuard<'a, FlowState>) -> (r: &'b FlowState)
    ensures
        r.wf(),
{
    &**guard
}

/// Relies on Weak::upgrade: the shared state's owner, if any tracer clone
/// still keeps it alive.
#[verifier::external_body]
fn handle_upgrade(handle: &SharedStateHandle) -> Option<Arc<Mutex<FlowState>>> {
    handle.inner.upgrade()
}

/// Applies one event to the shared pull-mode state under its lock; a
/// poisoned lock is reported as failure.
fn locked_apply(state: &Arc<Mutex<FlowState>>, ev: &TimedEvent<FlowEvent>) -> bool {
    match lock_shared(state) {
        Some(mut guard) => {
            let shared = guard_state_mut(&mut guard);
            crate::flow::apply(shared, ev);
            true
        },
        None => false,
    }
}

/// One event on its way from a tracer into its recorder.
#[derive(Debug)]
pub enum DataEnvelope {
    Event(TimedEvent<FlowEvent>),
}

impl DataEnvelope {
    /// The timed event the envelope carries.
    pub fn into_inner(self) -> (r: TimedEvent<FlowEvent>)
        ensures
            self == DataEnvelope::Event(r),
    {
        match self {
            DataEnvelope::Event(event) => event,
        }
    }
}

/// The producer side of a tracer's mode.
pub enum InnerMode {
    /// Events queue into the recorder, which owns the state.
    Push {
        sender: UnboundedSender<DataEnvelope>,
        control_sender: broadcast::Sender<FlowAction>,
    },
    /// Events apply synchronously to state shared under a lock, which the
    /// recorder samples at its interval.
    Pull { state: Arc<Mutex<FlowState>> },
}

/// What the recorder's task receives at registration.
pub enum TracerMode {
    /// Real-time mode: the recorder owns the state and drains the queue.
    Push {
        receiver: Option<UnboundedReceiver<DataEnvelope>>,
        control_sender: broadcast::Sender<FlowAction>,
    },
    /// Sampling mode: the recorder re-reads the shared state at the
    /// declared interval, in milliseconds.
    Pull { state: SharedStateHandle, interval_ms: u64 },
}

/// The outcome of one non-blocking send.
#[derive(Clone, Copy, Debug, PartialEq, Eq, Structural)]
pub enum SendOutcome {
    /// The event reached the queue or the shared state.
    Sent,
    /// The clock read an instant before the epoch; the event was dropped.
    ClockFailed,
    /// The recorder is gone; the event was dropped.
    RecorderGone,
    /// The shared lock is poisoned; the event was dropped.
    LockFailed,
}

/// The producer-side handle of one flow.
pub struct Tracer {
    active: watch::Receiver<bool>,
    description: Description,
    mode: InnerMode,
}

impl Tracer {
    /// The path this tracer writes to.
    pub closed spec fn path_v(&self) -> Seq<Seq<char>> {
        self.description.path.segs()
    }

    /// The stream-type tag recorded for the flow.
    pub closed spec fn stream_type_v(&self) -> Seq<char> {
        self.description.stream_type@
    }

    /// Whether this tracer pushes events to its recorder (rather than
    /// applying them under the shared lock).
    pub closed spec fn is_push(&self) -> bool {
        self.mode is Push
    }

    /// Creates a tracer: registers the path and spawns its recorder, and
    /// hands back what the recorder's task needs. A path that is already
    /// registered is refused, and the registry is left untouched.
    pub fn new_tracer(
        registry: &mut Registry,
        state: FlowState,
        path: Path,
        kind: FlowKind,
        pull_ms: Option<u64>,
    ) -> (r: Result<(Tracer, TracerMode), RillError>)
        requires
            old(registry).wf(),
            state.wf(),
        ensures
            final(registry).wf(),
            match r {
                Ok(p) => {
                    &&& find_path(old(registry).paths_v(), path.segs()) == -1
                    &&& final(registry).paths_v() == old(registry).paths_v().push(path.segs())
                    &&& final(registry).entries_v().last().recorder.stage_v() == Stage::Ready
                    &&& final(registry).entries_v().last().recorder.kind_v() == kind
                    &&& final(registry).entries_v().last().recorder.initial_v() == state.sview()
                    &&& p.0.path_v() == path.segs()
                    &&& p.0.stream_type_v() == stream_type_of(kind)
                    &&& (p.0.is_push() <==> pull_ms is None)
                    &&& final(registry).entries_v().last().description.path.segs() == path.segs()
                    &&& final(registry).entries_v().last().description.stream_type@
                        == stream_type_of(kind)
                    &&& final(registry).entries_v().last().description.info@ == joined_segments(
                        path.segs(),
                    ) + " - "@ + stream_type_of(kind)
                    &&& (pull_ms is None ==> (p.1 matches TracerMode::Push { receiver, .. }
                        && receiver is Some))
                    &&& (pull_ms matches Some(ms) ==> (p.1 matches TracerMode::Pull {
                        interval_ms,
                        ..
                    } && interval_ms == ms))
                },
                Err(e) => {
                    &&& e == RillError::RegistrationConflict
                    &&& find_path(old(registry).paths_v(), path.segs()) >= 0
                    &&& final(registry).entries_v() == old(registry).entries_v()
                },
            },
    {
        match Tracer::new_tracer_subscribed(registry, state, path, kind, pull_ms) {
            Ok((tracer, _watcher, mode)) => Ok((tracer, mode)),
            Err(e) => Err(e),
        }
    }

    /// As `new_tracer`, and also subscribed: in push mode the caller gets
    /// a receiver of the actions routed back from clients.
    pub fn new_tracer_subscribed(
        registry: &mut Registry,
        state: FlowState,
        path: Path,
        kind: FlowKind,
        pull_ms: Option<u64>,
    ) -> (r: Result<(Tracer, Option<broadcast::Receiver<FlowAction>>, TracerMode), RillError>)
        requires
            old(registry).wf(),
            state.wf(),
        ensures
            final(registry).wf(),
            match r {
                Ok(p) => {
                    &&& find_path(old(registry).paths_v(), path.segs()) == -1
                    &&& final(registry).paths_v() == old(registry).paths_v().push(path.segs())
                    &&& final(registry).entries_v().last().recorder.stage_v() == Stage::Ready
                    &&& final(registry).entries_v().last().recorder.kind_v() == kind
                    &&& final(registry).entries_v().last().recorder.initial_v() == state.sview()
                    &&& p.0.path_v() == path.segs()
                    &&& p.0.stream_type_v() == stream_type_of(kind)
                    &&& (p.0.is_push() <==> pull_ms is None)
                    &&& (p.1 is Some <==> pull_ms is None)
                    &&& final(registry).entries_v().last().description.path.segs() == path.segs()
                    &&& final(registry).entries_v().last().description.stream_type@
                        == stream_type_of(kind)
                    &&& final(registry).entries_v().last().description.info@ == joined_segments(
                        path.segs(),
                    ) + " - "@ + stream_type_of(kind)
                    &&& (pull_ms is None ==> (p.2 matches TracerMode::Push { receiver, .. }
                        && receiver is Some))
                    &&& (pull_ms matches Some(ms) ==> (p.2 matches TracerMode::Pull {
                        interval_ms,
                        ..
                    } && interval_ms == ms))
                },
                Err(e) => {
                    &&& e == RillError::RegistrationConflict
                    &&& find_path(old(registry).paths_v(), path.segs()) >= 0
                    &&& final(registry).entries_v() == old(registry).entries_v()
                },
            },
    {
        let snapshot = state.snapshot();
        let inner_mode: InnerMode;
        let tracer_mode: TracerMode;
        let subscriber: Option<broadcast::Receiver<FlowAction>>;
        match pull_ms {
            Some(interval_ms) => {
                let shared = shared_state_new(state);
                tracer_mode = TracerMode::Pull {
                    state: shared_state_downgrade(&shared),
                    interval_ms,
                };
                inner_mode = InnerMode::Pull { state: shared };
                subscriber = None;
            },
            None => {
                let (tx, rx) = data_channel();
                let (control_tx, control_rx) = action_channel();
                tracer_mode = TracerMode::Push {
                    receiver: Some(rx),
                    control_sender: action_sender_clone(&control_tx),
                };
                inner_mode = InnerMode::Push { sender: tx, control_sender: control_tx };
                subscriber = Some(control_rx);
            },
        }
        match Tracer::attach(registry, snapshot, path, kind, inner_mode) {
            Ok(tracer) => Ok((tracer, subscriber, tracer_mode)),
            Err(e) => Err(e),
        }
    }

    /// Builds the description, registers it, and assembles the handle.
    fn attach(
        registry: &mut Registry,
        state: FlowState,
        path: Path,
        kind: FlowKind,
        inner_mode: InnerMode,
    ) -> (r: Result<Tracer, RillError>)
        requires
            old(registry).wf(),
            state.wf(),
        ensures
            final(registry).wf(),
            match r {
                Ok(t) => {
                    &&& find_path(old(registry).paths_v(), path.segs()) == -1
                    &&& final(registry).paths_v() == old(registry).paths_v().push(path.segs())
                    &&& final(registry).entries_v().last().recorder.stage_v() == Stage::Ready
                    &&& final(registry).entries_v().last().recorder.kind_v() == kind
                    &&& final(registry).entries_v().last().recorder.initial_v() == state.sview()
                    &&& t.path_v() == path.segs()
                    &&& t.stream_type_v() == stream_type_of(kind)
                    &&& (t.is_push() <==> inner_mode is Push)
                    &&& final(registry).entries_v().last().description.path.segs() == path.segs()
                    &&& final(registry).entries_v().last().description.stream_type@
                        == stream_type_of(kind)
                    &&& final(registry).entries_v().last().description.info@ == joined_segments(
                        path.segs(),
                    ) + " - "@ + stream_type_of(kind)
                },
                Err(e) => {
                    &&& e == RillError::RegistrationConflict
                    &&& find_path(old(registry).paths_v(), path.segs()) >= 0
                    &&& final(registry).entries_v() == old(registry).entries_v()
                },
            },
    {
        let stream_type = kind.stream_type();
        let mut info = path.to_text();
        proof {
            reveal_strlit(" - ");
        }
        info.append(" - ");
        info.append(stream_type);
        let description = Description {
            path: path.duplicate(),
            info,
            stream_type: String::from_str(stream_type),
        };
        let reg_description = description.duplicate();
        match registry.register(reg_description, kind, state) {
            Ok(()) => {
                let idx = registry.len() - 1;
                let active_rx = registry.recorder_at(idx).watch_activity();
                Ok(Tracer { active: active_rx, description, mode: inner_mode })
            },
            Err(_) => Err(RillError::RegistrationConflict),
        }
    }

    /// The path of the flow.
    pub fn path(&self) -> (r: &Path)
        ensures
            r.segs() == self.path_v(),
    {
        &self.description.path
    }

    /// Whether any subscriber is attached, as the recorder last published
    /// it on the watch channel. Producers may skip building expensive
    /// events while inactive; events sent regardless still reach the
    /// recorder, which stays current even without subscribers.
    pub fn is_active(&self) -> bool {
        activity_get(&self.active)
    }

    /// Sends one event without blocking: stamped by the caller's instant
    /// or the wall clock, then queued to the recorder (push) or applied
    /// under the shared lock (pull), whether or not anyone subscribed, so
    /// the recorder stays current. An instant before the epoch drops the
    /// event, and never for an instant whose clock reading exists. Every
    /// failure is reported, never raised.
    pub fn send(&self, data: FlowEvent, opt_system_time: Option<SystemTime>) -> (r: SendOutcome)
        ensures
            self.is_push() ==> r != SendOutcome::LockFailed,
            !self.is_push() ==> r != SendOutcome::RecorderGone,
            opt_system_time matches Some(t) && micros_since_epoch(t) is Some ==> r
                != SendOutcome::ClockFailed,
            r == SendOutcome::ClockFailed ==> (opt_system_time matches Some(t)
                ==> micros_since_epoch(t) is None),
    {
        let timestamp = match time_to_ts(opt_system_time) {
            Ok(ts) => ts,
            Err(_) => {
                return SendOutcome::ClockFailed;
            },
        };
        let timed_event = TimedEvent { timestamp, event: data };
        match &self.mode {
            InnerMode::Push { sender, .. } => {
                if data_send(sender, DataEnvelope::Event(timed_event)) {
                    SendOutcome::Sent
                } else {
                    SendOutcome::RecorderGone
                }
            },
            InnerMode::Pull { state } => {
                if locked_apply(state, &timed_event) {
                    SendOutcome::Sent
                } else {
                    SendOutcome::LockFailed
                }
            },
        }
    }

    /// A receiver of the actions clients route back to this flow; actions
    /// are push-only, so a pull-mode tracer has none to offer.
    pub fn subscribe(&mut self) -> (r: Result<broadcast::Receiver<FlowAction>, RillError>)
        ensures
            r is Ok <==> old(self).is_push(),
            *final(self) == *old(self),
            r matches Err(e) ==> e == RillError::Inapplicable,
    {
        match &self.mode {
            InnerMode::Push { control_sender, .. } => Ok(action_subscribe(control_sender)),
            InnerMode::Pull { .. } => Err(RillError::Inapplicable),
        }
    }

    /// Publishes one routed action to every subscribed handler; reports
    /// whether anyone was listening, or that a pull-mode flow has no
    /// action channel.
    pub fn publish_action(&self, action: FlowAction) -> (r: Result<bool, RillError>)
        ensures
            r is Ok <==> self.is_push(),
            r matches Err(e) ==> e == RillError::Inapplicable,
    {
        match &self.mode {
            InnerMode::Push { control_sender, .. } => Ok(action_send(control_sender, action)),
            InnerMode::Pull { .. } => Err(RillError::Inapplicable),
        }
    }
}

impl Clone for InnerMode {
    /// Another handle to the same channels or the same shared state.
    fn clone(&self) -> (r: Self)
        ensures
            r is Push <==> self is Push,
    {
        match self {
            InnerMode::Push { sender, control_sender } => InnerMode::Push {
                sender: data_sender_clone(sender),
                control_sender: action_sender_clone(control_sender),
            },
            InnerMode::Pull { state } => InnerMode::Pull { state: shared_state_clone(state) },
        }
    }
}

impl Clone for Tracer {
    /// A sibling handle: same path, same description, same channels, same
    /// active flag.
    fn clone(&self) -> (r: Self)
        ensures
            r.path_v() == self.path_v(),
            r.stream_type_v() == self.stream_type_v(),
            r.is_push() == self.is_push(),
    {
        Tracer {
            active: activity_clone(&self.active),
            description: self.description.duplicate(),
            mode: self.mode.clone(),
        }
    }
}

/// Reads the pull-mode shared state once, as the recorder's sampling tick
/// does; nothing is left to sample once every tracer clone is gone.
pub fn sample_pull_state(state: &SharedStateHandle) -> (r: Option<FlowState>)
    ensures
        r matches Some(s) ==> s.wf(),
{
    match handle_upgrade(state) {
        Some(arc) => {
            match lock_shared(&arc) {
                Some(guard) => {
                    let shared = guard_state(&guard);
                    Some(shared.snapshot())
                },
                None => None,
            }
        },
        None => None,
    }
}

} // verus!

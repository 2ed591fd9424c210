//! The interactive widget link: a duplex channel between a widget tracer
//! and the host task that reacts to user actions.

use vstd::prelude::*;
use tokio::sync::mpsc::{UnboundedReceiver, UnboundedSender};
use crate::flow::{clone_action, FlowAction};

verus! {

/// What travels to the host task on the link.
#[derive(Debug)]
pub enum Activity {
    /// The widget exists but no client is attached yet.
    Awake,
    /// A client attached.
    Connected,
    /// Every client detached.
    Suspended,
    /// A user acted on the widget.
    Action { action: FlowAction },
}

impl Activity {
    /// Whether this is a user action.
    pub fn is_action(&self) -> (r: bool)
        ensures
            r <==> self is Action,
    {
        match self {
            Activity::Action { .. } => true,
            _ => false,
        }
    }

    /// The user action carried, if this is one.
    pub fn to_action(&self) -> (r: Option<FlowAction>)
        ensures
            r is Some <==> self is Action,
            self matches Activity::Action { action } ==> (r matches Some(a) && a.aview()
                == action.aview()),
    {
        match self {
            Activity::Action { action } => Some(clone_action(action)),
            _ => None,
        }
    }
}

/// One message on the link.
#[derive(Debug)]
pub struct ActivityEnvelope {
    pub activity: Activity,
}

#[verifier::external_type_specification]
#[verifier::external_body]
#[verifier::reject_recursive_types(T)]
pub struct ExTokioUnboundedSender<T>(UnboundedSender<T>);

#[verifier::external_type_specification]
#[verifier::external_body]
#[verifier::reject_recursive_types(T)]
pub struct ExTokioUnboundedReceiver<T>(UnboundedReceiver<T>);

/// Relies on tokio's mpsc::unbounded_channel: a connected link pair.
#[verifier::external_body]
fn link_channel() -> (UnboundedSender<ActivityEnvelope>, UnboundedReceiver<ActivityEnvelope>) {
    tokio::sync::mpsc::unbounded_channel()
}

/// Relies on UnboundedSender::send: queues the envelope, failing only
/// when the receiving host task is gone.
#[verifier::external_body]
fn link_send(sender: &UnboundedSender<ActivityEnvelope>, envelope: ActivityEnvelope) -> bool {
    sender.send(envelope).is_ok()
}

/// Relies on UnboundedSender::clone: another handle to the same link.
#[verifier::external_body]
fn link_sender_clone(
    sender: &UnboundedSender<ActivityEnvelope>,
) -> UnboundedSender<ActivityEnvelope> {
    sender.clone()
}

/// The sending half handed to widget tracers.
pub struct ActivitySender {
    tx: UnboundedSender<ActivityEnvelope>,
}

impl ActivitySender {
    /// Queues one activity for the host task; reports whether the host is
    /// still listening.
    pub fn send(&self, activity: Activity) -> bool {
        link_send(&self.tx, ActivityEnvelope { activity })
    }
}

impl Clone for ActivitySender {
    /// Another handle to the same link.
    fn clone(&self) -> Self {
        ActivitySender { tx: link_sender_clone(&self.tx) }
    }
}

/// The duplex link a widget and its host task share.
pub struct Link {
    tx: UnboundedSender<ActivityEnvelope>,
    rx: Option<UnboundedReceiver<ActivityEnvelope>>,
}

impl Link {
    /// Whether the receiving half is still here to be taken.
    pub closed spec fn has_receiver(&self) -> bool {
        self.rx is Some
    }

    /// A fresh link, its receiving half not yet taken.
    pub fn new() -> (r: Link)
        ensures
            r.has_receiver(),
    {
        let (tx, rx) = link_channel();
        Link { tx, rx: Some(rx) }
    }

    /// A sending handle for a widget tracer; any number may be taken.
    pub fn sender(&self) -> ActivitySender {
        ActivitySender { tx: link_sender_clone(&self.tx) }
    }

    /// The receiving half, for the one host task that drains it; taken at
    /// most once.
    pub fn receiver(&mut self) -> (r: Option<UnboundedReceiver<ActivityEnvelope>>)
        ensures
            r is Some <==> old(self).has_receiver(),
            !final(self).has_receiver(),
    {
        self.rx.take()
    }
}

} // verus!

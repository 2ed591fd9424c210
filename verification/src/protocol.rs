//! The provider wire protocol: envelopes, directions and the messages
//! exchanged between the server and a provider session.

use vstd::prelude::*;
use crate::flow::{FlowEvent, FlowState, TimedEvent};
use crate::paths::Path;

verus! {

/// A message addressed to one subscription on the wire.
pub struct Envelope<T> {
    pub direct_id: u64,
    pub data: T,
}

/// Where a wide envelope is bound: one subscription, several, or all.
pub enum Direction {
    Direct(u64),
    Multicast(Vec<u64>),
    Broadcast,
}

impl Direction {
    /// The subscription ids named by this direction; a broadcast names
    /// none explicitly.
    pub open spec fn ids(&self) -> Seq<u64> {
        match self {
            Direction::Direct(id) => seq![*id],
            Direction::Multicast(ids) => ids@,
            Direction::Broadcast => Seq::empty(),
        }
    }

    /// The ids of this direction as a list.
    pub fn into_vec(self) -> (r: Vec<u64>)
        ensures
            r@ == self.ids(),
    {
        match self {
            Direction::Direct(id) => {
                let mut v: Vec<u64> = Vec::new();
                v.push(id);
                proof {
                    assert(v@ =~= seq![id]);
                }
                v
            },
            Direction::Multicast(ids) => ids,
            Direction::Broadcast => Vec::new(),
        }
    }
}

/// A message with a delivery direction, for multicast fan-out.
pub struct WideEnvelope<T> {
    pub direction: Direction,
    pub data: T,
}

/// What a description says of a flow: its identity, a human line, and the
/// versioned stream-type tag that names its schema.
pub struct Description {
    pub path: Path,
    pub info: String,
    pub stream_type: String,
}

impl Description {
    /// An exact copy of the description.
    pub fn duplicate(&self) -> (r: Description)
        ensures
            r.path.segs() == self.path.segs(),
            r.info@ == self.info@,
            r.stream_type@ == self.stream_type@,
    {
        Description {
            path: self.path.duplicate(),
            info: self.info.clone(),
            stream_type: self.stream_type.clone(),
        }
    }
}

/// What the server asks of a provider.
pub enum ServerToProvider {
    /// Start or stop announcing the catalog of declared paths.
    Describe { active: bool },
    /// Start or stop the stream for one path.
    ControlStream { path: Path, active: bool },
}

/// What a provider sends to the server.
pub enum ProviderToServer {
    /// The provider announces itself under an entry name.
    Declare { entry_id: String },
    /// An increment of the catalog of declared flows.
    Description { list: Vec<Description> },
    /// The snapshot that begins a subscription's stream.
    BeginStream { snapshot: FlowState },
    /// One ordered batch of deltas.
    Data { batch: Vec<TimedEvent<FlowEvent>> },
    /// The subscription's stream is over.
    EndStream,
}

/// What the server forwards to a dashboard client.
pub enum ClientResponse {
    /// One ordered batch of deltas for a subscription.
    Data { batch: Vec<TimedEvent<FlowEvent>> },
    /// The snapshot that begins a subscription's stream.
    Snapshot { snapshot: FlowState },
}

} // verus!

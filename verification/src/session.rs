//! The provider session: the wire-level endpoint that speaks the provider
//! protocol. It maps per-subscription direct ids to paths, routes data
//! batches back to the client senders recorded for them, and announces the
//! provider to the exporter.
//!
//! What the session decides is computed here and returned as effects; the
//! transport that performs them stays outside the library.

use vstd::prelude::*;
use typed_slab::TypedSlab;
use crate::flow::{batch_view, clone_batch, FlowEvent, StateV, TimedEvent, TimedEventV};
use crate::paths::Path;
use crate::protocol::{
    ClientResponse, Description, Direction, Envelope, ProviderToServer, ServerToProvider,
    WideEnvelope,
};

verus! {

#[verifier::external_type_specification]
#[verifier::external_body]
#[verifier::reject_recursive_types(K)]
#[verifier::reject_recursive_types(V)]
pub struct ExTypedSlab<K, V>(TypedSlab<K, V>);

/// A client route: the client sender's id and its request id.
pub type ClientRoute = (u64, u64);

/// What a direction slab holds: client routes, keyed by slab index.
pub uninterp spec fn slab_entries(s: TypedSlab<usize, ClientRoute>) -> Map<nat, ClientRoute>;

/// The empty route table.
pub open spec fn no_routes() -> Map<nat, ClientRoute> {
    Map::empty()
}

/// Relies on TypedSlab::new: a new slab holds nothing.
#[verifier::external_body]
fn slab_new() -> (slab: TypedSlab<usize, ClientRoute>)
    ensures
        slab_entries(slab) == no_routes(),
{
    TypedSlab::new()
}

/// Relies on TypedSlab::insert: the value is stored under a key that was
/// vacant, and that key is returned.
#[verifier::external_body]
fn slab_insert(s: &mut TypedSlab<usize, ClientRoute>, v: ClientRoute) -> (k: usize)
    ensures
        !slab_entries(*old(s)).contains_key(k as nat),
        slab_entries(*final(s)) == slab_entries(*old(s)).insert(k as nat, v),
{
    s.insert(v)
}

/// Relies on TypedSlab::get: returns what is stored under the key, if
/// anything is.
#[verifier::external_body]
fn slab_get(s: &TypedSlab<usize, ClientRoute>, k: usize) -> (r: Option<ClientRoute>)
    ensures
        match r {
            Some(v) => slab_entries(*s).contains_key(k as nat) && slab_entries(*s)[k as nat] == v,
            None => !slab_entries(*s).contains_key(k as nat),
        },
{
    s.get(k).copied()
}

/// Relies on TypedSlab::remove: takes out what is stored under the key;
/// an absent key changes nothing.
#[verifier::external_body]
fn slab_remove(s: &mut TypedSlab<usize, ClientRoute>, k: usize) -> (r: Option<ClientRoute>)
    ensures
        match r {
            Some(v) => slab_entries(*old(s)).contains_key(k as nat) && slab_entries(*old(s))[
                k as nat
            ] == v && slab_entries(*final(s)) == slab_entries(*old(s)).remove(k as nat),
            None => !slab_entries(*old(s)).contains_key(k as nat) && slab_entries(*final(s))
                == slab_entries(*old(s)),
        },
{
    s.remove(k)
}

/// What the session asks its surroundings to do.
pub enum SessionEffect {
    /// Send a request to the provider over the session transport.
    ToProvider { envelope: Envelope<ServerToProvider> },
    /// Forward a response to the client sender recorded for a subscription.
    ToClient { sender: u64, client_req_id: u64, response: ClientResponse },
    /// Tell the exporter that a provider attached under an entry name.
    Attached { entry_id: String },
    /// Tell the exporter that the provider detached.
    Detached,
    /// Hand a newly declared description to the exporter.
    PathDeclared { description: Description },
    /// Hand one routed event to the exporter.
    DataReceived { path: Path, event: TimedEvent<FlowEvent> },
}

/// The mathematical value of a request to the provider.
pub enum RequestV {
    Describe { active: bool },
    ControlStream { path: Seq<Seq<char>>, active: bool },
}

impl ServerToProvider {
    /// The mathematical value of this request.
    pub open spec fn rview(&self) -> RequestV {
        match self {
            ServerToProvider::Describe { active } => RequestV::Describe { active: *active },
            ServerToProvider::ControlStream { path, active } => RequestV::ControlStream {
                path: path.segs(),
                active: *active,
            },
        }
    }
}

/// The mathematical value of a response to a client.
pub enum ResponseV {
    Data { batch: Seq<TimedEventV> },
    Snapshot { state: StateV },
}

/// The mathematical value of a session effect.
pub enum EffectV {
    ToProvider { direct_id: u64, request: RequestV },
    ToClient { sender: u64, client_req_id: u64, response: ResponseV },
    Attached { entry_id: Seq<char> },
    Detached,
    PathDeclared { path: Seq<Seq<char>>, info: Seq<char>, stream_type: Seq<char> },
    DataReceived { path: Seq<Seq<char>>, event: TimedEventV },
}

impl SessionEffect {
    /// The mathematical value of this effect.
    pub open spec fn eview(&self) -> EffectV {
        match self {
            SessionEffect::ToProvider { envelope } => EffectV::ToProvider {
                direct_id: envelope.direct_id,
                request: envelope.data.rview(),
            },
            SessionEffect::ToClient { sender, client_req_id, response } => EffectV::ToClient {
                sender: *sender,
                client_req_id: *client_req_id,
                response: match response {
                    ClientResponse::Data { batch } => ResponseV::Data { batch: batch_view(batch@) },
                    ClientResponse::Snapshot { snapshot } => ResponseV::Snapshot {
                        state: snapshot.sview(),
                    },
                },
            },
            SessionEffect::Attached { entry_id } => EffectV::Attached { entry_id: entry_id@ },
            SessionEffect::Detached => EffectV::Detached,
            SessionEffect::PathDeclared { description } => EffectV::PathDeclared {
                path: description.path.segs(),
                info: description.info@,
                stream_type: description.stream_type@,
            },
            SessionEffect::DataReceived { path, event } => EffectV::DataReceived {
                path: path.segs(),
                event: event.tview(),
            },
        }
    }
}

/// The mathematical value of a list of effects.
pub open spec fn session_effects_view(s: Seq<SessionEffect>) -> Seq<EffectV> {
    Seq::new(s.len(), |i: int| s[i].eview())
}

/// The responses a data batch produces: for each addressed id with a
/// recorded route, in order, the batch forwarded to that route; ids with
/// no route are dropped silently.
pub open spec fn data_fanout(
    dirs: Map<nat, ClientRoute>,
    ids: Seq<u64>,
    batch: Seq<TimedEventV>,
) -> Seq<EffectV>
    decreases ids.len(),
{
    if ids.len() == 0 {
        Seq::empty()
    } else {
        data_fanout(dirs, ids.drop_last(), batch) + (if dirs.contains_key(ids.last() as nat) {
            seq![
                EffectV::ToClient {
                    sender: dirs[ids.last() as nat].0,
                    client_req_id: dirs[ids.last() as nat].1,
                    response: ResponseV::Data { batch },
                },
            ]
        } else {
            Seq::empty()
        })
    }
}

/// The snapshots a stream opening produces: for each addressed id with a
/// recorded route, in order, the snapshot forwarded to that route; ids
/// with no route are dropped silently.
pub open spec fn snapshot_fanout(
    dirs: Map<nat, ClientRoute>,
    ids: Seq<u64>,
    state: StateV,
) -> Seq<EffectV>
    decreases ids.len(),
{
    if ids.len() == 0 {
        Seq::empty()
    } else {
        snapshot_fanout(dirs, ids.drop_last(), state) + (if dirs.contains_key(
            ids.last() as nat,
        ) {
            seq![
                EffectV::ToClient {
                    sender: dirs[ids.last() as nat].0,
                    client_req_id: dirs[ids.last() as nat].1,
                    response: ResponseV::Snapshot { state },
                },
            ]
        } else {
            Seq::empty()
        })
    }
}

/// The declarations a catalog increment produces, one per description, in
/// order.
pub open spec fn declare_fanout(list: Seq<Description>) -> Seq<EffectV> {
    Seq::new(
        list.len(),
        |i: int| EffectV::PathDeclared {
            path: list[i].path.segs(),
            info: list[i].info@,
            stream_type: list[i].stream_type@,
        },
    )
}

/// One wire-level provider session.
pub struct ProviderSession {
    registered: Option<String>,
    counter: u64,
    paths: Vec<(u64, Path)>,
    directions: TypedSlab<usize, ClientRoute>,
}

impl ProviderSession {
    /// The entry name the provider declared, if it has.
    pub closed spec fn registered_v(&self) -> Option<Seq<char>> {
        match self.registered {
            Some(ref s) => Some(s@),
            None => None,
        }
    }

    /// The last request id handed out.
    pub closed spec fn counter_v(&self) -> u64 {
        self.counter
    }

    /// The control-stream paths by request id, in request order.
    pub closed spec fn paths_v(&self) -> Seq<(u64, Seq<Seq<char>>)> {
        Seq::new(self.paths@.len(), |i: int| (self.paths@[i].0, self.paths@[i].1.segs()))
    }

    /// The client routes by slab key.
    pub closed spec fn directions_v(&self) -> Map<nat, ClientRoute> {
        slab_entries(self.directions)
    }

    /// Request ids are unique and below the counter, and every route key
    /// fits a slab index.
    pub open spec fn wf(&self) -> bool {
        &&& forall|i: int| 0 <= i < self.paths_v().len() ==> (#[trigger] self.paths_v()[i]).0
            <= self.counter_v()
        &&& forall|i: int, j: int| 0 <= i < j < self.paths_v().len() ==> (
        #[trigger] self.paths_v()[i]).0 != (#[trigger] self.paths_v()[j]).0
        &&& forall|k: nat| #[trigger] self.directions_v().contains_key(k) ==> k <= usize::MAX
    }

    /// A fresh session: nothing declared, no routes, no streams.
    pub fn new() -> (r: ProviderSession)
        ensures
            r.wf(),
            r.registered_v() == Option::<Seq<char>>::None,
            r.counter_v() == 0,
            r.paths_v() == Seq::<(u64, Seq<Seq<char>>)>::empty(),
            r.directions_v() == Map::<nat, ClientRoute>::empty(),
    {
        let r = ProviderSession {
            registered: None,
            counter: 0,
            paths: Vec::new(),
            directions: slab_new(),
        };
        proof {
            assert(r.paths_v() =~= Seq::<(u64, Seq<Seq<char>>)>::empty());
        }
        r
    }

    /// Whether the provider has declared itself.
    pub fn is_registered(&self) -> (r: bool)
        ensures
            r <==> self.registered_v() is Some,
    {
        self.registered.is_some()
    }

    /// Handles one incoming message from the provider. Data batches and
    /// stream-opening snapshots are routed to the client senders recorded
    /// for the addressed ids, ids with no route dropped silently — so each
    /// routed client sees its one snapshot before any deltas for the same
    /// id; a declaration attaches the session to the exporter and asks the
    /// provider to describe its catalog; a catalog increment is forwarded
    /// description by description; a stream end needs nothing here.
    pub fn handle_provider_message(&mut self, msg: WideEnvelope<ProviderToServer>) -> (effects:
        Vec<SessionEffect>)
        requires
            old(self).wf(),
        ensures
            final(self).wf(),
            final(self).counter_v() == old(self).counter_v(),
            final(self).paths_v() == old(self).paths_v(),
            final(self).directions_v() == old(self).directions_v(),
            match msg.data {
                ProviderToServer::Data { batch } => {
                    &&& session_effects_view(effects@) == data_fanout(
                        old(self).directions_v(),
                        msg.direction.ids(),
                        batch_view(batch@),
                    )
                    &&& final(self).registered_v() == old(self).registered_v()
                },
                ProviderToServer::Declare { entry_id } => {
                    &&& final(self).registered_v() == Some(entry_id@)
                    &&& session_effects_view(effects@) == seq![
                        EffectV::Attached { entry_id: entry_id@ },
                        EffectV::ToProvider {
                            direct_id: 0,
                            request: RequestV::Describe { active: true },
                        },
                    ]
                },
                ProviderToServer::Description { list } => {
                    &&& session_effects_view(effects@) == declare_fanout(list@)
                    &&& final(self).registered_v() == old(self).registered_v()
                },
                ProviderToServer::BeginStream { snapshot } => {
                    &&& session_effects_view(effects@) == snapshot_fanout(
                        old(self).directions_v(),
                        msg.direction.ids(),
                        snapshot.sview(),
                    )
                    &&& final(self).registered_v() == old(self).registered_v()
                },
                _ => effects@.len() == 0 && final(self).registered_v() == old(self).registered_v(),
            },
    {
        match msg.data {
            ProviderToServer::Data { batch } => {
                let ids = msg.direction.into_vec();
                let ghost dirs = self.directions_v();
                let ghost bview = batch_view(batch@);
                let mut effects: Vec<SessionEffect> = Vec::new();
                let n: usize = ids.len();
                let mut i: usize = 0;
                while i < n
                    invariant
                        0 <= i <= n,
                        n == ids@.len(),
                        *self == *old(self),
                        old(self).wf(),
                        dirs == self.directions_v(),
                        bview == batch_view(batch@),
                        session_effects_view(effects@) =~= data_fanout(
                            dirs,
                            ids@.take(i as int),
                            bview,
                        ),
                    decreases n - i,
                {
                    let id = ids[i];
                    let ghost eff_prev = effects@;
                    proof {
                        assert(ids@.take(i as int + 1).drop_last() =~= ids@.take(i as int));
                        assert(ids@.take(i as int + 1).last() == ids@[i as int]);
                    }
                    if id <= (usize::MAX as u64) {
                        match slab_get(&self.directions, id as usize) {
                            Some(route) => {
                                effects.push(
                                    SessionEffect::ToClient {
                                        sender: route.0,
                                        client_req_id: route.1,
                                        response: ClientResponse::Data {
                                            batch: clone_batch(&batch),
                                        },
                                    },
                                );
                                proof {
                                    assert(session_effects_view(effects@)
                                        =~= session_effects_view(eff_prev).push(
                                        EffectV::ToClient {
                                            sender: route.0,
                                            client_req_id: route.1,
                                            response: ResponseV::Data { batch: bview },
                                        },
                                    ));
                                }
                            },
                            None => {},
                        }
                    } else {
                        proof {
                            assert(!dirs.contains_key(id as nat));
                        }
                    }
                    i += 1;
                }
                proof {
                    assert(ids@.take(n as int) =~= ids@);
                }
                effects
            },
            ProviderToServer::Declare { entry_id } => {
                let ghost eid = entry_id@;
                self.registered = Some(entry_id.clone());
                let mut effects: Vec<SessionEffect> = Vec::new();
                effects.push(SessionEffect::Attached { entry_id });
                effects.push(
                    SessionEffect::ToProvider {
                        envelope: Envelope {
                            direct_id: 0,
                            data: ServerToProvider::Describe { active: true },
                        },
                    },
                );
                proof {
                    assert(session_effects_view(effects@) =~= seq![
                        EffectV::Attached { entry_id: eid },
                        EffectV::ToProvider {
                            direct_id: 0,
                            request: RequestV::Describe { active: true },
                        },
                    ]);
                    assert(self.paths_v() =~= old(self).paths_v());
                    assert(self.directions_v() == old(self).directions_v());
                    lemma_session_wf(*old(self), *self);
                }
                effects
            },
            ProviderToServer::Description { list } => {
                let mut effects: Vec<SessionEffect> = Vec::new();
                let n: usize = list.len();
                let mut i: usize = 0;
                while i < n
                    invariant
                        0 <= i <= n,
                        n == list@.len(),
                        *self == *old(self),
                        old(self).wf(),
                        session_effects_view(effects@) =~= declare_fanout(list@).take(i as int),
                    decreases n - i,
                {
                    let ghost eff_prev = effects@;
                    effects.push(SessionEffect::PathDeclared { description: list[i].duplicate() });
                    proof {
                        assert(session_effects_view(effects@) =~= session_effects_view(
                            eff_prev,
                        ).push(declare_fanout(list@)[i as int]));
                        assert(session_effects_view(effects@) =~= declare_fanout(list@).take(
                            i as int + 1,
                        ));
                    }
                    i += 1;
                }
                proof {
                    assert(declare_fanout(list@).take(n as int) =~= declare_fanout(list@));
                }
                effects
            },
            ProviderToServer::BeginStream { snapshot } => {
                let ids = msg.direction.into_vec();
                let ghost dirs = self.directions_v();
                let ghost sview = snapshot.sview();
                let mut effects: Vec<SessionEffect> = Vec::new();
                let n: usize = ids.len();
                let mut i: usize = 0;
                while i < n
                    invariant
                        0 <= i <= n,
                        n == ids@.len(),
                        *self == *old(self),
                        old(self).wf(),
                        dirs == self.directions_v(),
                        sview == snapshot.sview(),
                        session_effects_view(effects@) =~= snapshot_fanout(
                            dirs,
                            ids@.take(i as int),
                            sview,
                        ),
                    decreases n - i,
                {
                    let id = ids[i];
                    let ghost eff_prev = effects@;
                    proof {
                        assert(ids@.take(i as int + 1).drop_last() =~= ids@.take(i as int));
                        assert(ids@.take(i as int + 1).last() == ids@[i as int]);
                    }
                    if id <= (usize::MAX as u64) {
                        match slab_get(&self.directions, id as usize) {
                            Some(route) => {
                                effects.push(
                                    SessionEffect::ToClient {
                                        sender: route.0,
                                        client_req_id: route.1,
                                        response: ClientResponse::Snapshot {
                                            snapshot: snapshot.snapshot(),
                                        },
                                    },
                                );
                                proof {
                                    assert(session_effects_view(effects@)
                                        =~= session_effects_view(eff_prev).push(
                                        EffectV::ToClient {
                                            sender: route.0,
                                            client_req_id: route.1,
                                            response: ResponseV::Snapshot { state: sview },
                                        },
                                    ));
                                }
                            },
                            None => {},
                        }
                    } else {
                        proof {
                            assert(!dirs.contains_key(id as nat));
                        }
                    }
                    i += 1;
                }
                proof {
                    assert(ids@.take(n as int) =~= ids@);
                }
                effects
            },
            ProviderToServer::EndStream => Vec::new(),
        }
    }

    /// Records a client's route for a path and asks the provider to start
    /// the stream, under a freshly assigned subscription id.
    pub fn subscribe_to_path(&mut self, sender: u64, client_req_id: u64, path: Path) -> (r: (
        usize,
        SessionEffect,
    ))
        requires
            old(self).wf(),
        ensures
            final(self).wf(),
            !old(self).directions_v().contains_key(r.0 as nat),
            final(self).directions_v() == old(self).directions_v().insert(
                r.0 as nat,
                (sender, client_req_id),
            ),
            r.1.eview() == (EffectV::ToProvider {
                direct_id: r.0 as u64,
                request: RequestV::ControlStream { path: path.segs(), active: true },
            }),
            final(self).paths_v() == old(self).paths_v(),
            final(self).counter_v() == old(self).counter_v(),
            final(self).registered_v() == old(self).registered_v(),
    {
        let k = slab_insert(&mut self.directions, (sender, client_req_id));
        let effect = SessionEffect::ToProvider {
            envelope: Envelope {
                direct_id: k as u64,
                data: ServerToProvider::ControlStream { path, active: true },
            },
        };
        proof {
            assert(self.paths_v() =~= old(self).paths_v());
            lemma_session_wf(*old(self), *self);
        }
        (k, effect)
    }

    /// Assigns the next request id to an outbound request, recording the
    /// path of a stream being opened so that routed data can find it.
    pub fn new_request(&mut self, request: ServerToProvider) -> (r: (u64, SessionEffect))
        requires
            old(self).wf(),
            old(self).counter_v() < u64::MAX,
        ensures
            final(self).wf(),
            r.0 == old(self).counter_v() + 1,
            final(self).counter_v() == old(self).counter_v() + 1,
            r.1.eview() == (EffectV::ToProvider { direct_id: r.0, request: request.rview() }),
            final(self).directions_v() == old(self).directions_v(),
            final(self).registered_v() == old(self).registered_v(),
            final(self).paths_v() == (match request.rview() {
                RequestV::ControlStream { path, active } => if active {
                    old(self).paths_v().push((r.0, path))
                } else {
                    old(self).paths_v()
                },
                _ => old(self).paths_v(),
            }),
    {
        self.counter = self.counter + 1;
        let id = self.counter;
        let ghost prev_paths = self.paths_v();
        match &request {
            ServerToProvider::ControlStream { path, active: true } => {
                self.paths.push((id, path.duplicate()));
                proof {
                    assert(prev_paths =~= old(self).paths_v());
                    assert(self.paths_v() =~= old(self).paths_v().push((id, path.segs())));
                    assert forall|i: int, j: int| 0 <= i < j < self.paths_v().len() implies (
                    #[trigger] self.paths_v()[i]).0 != (#[trigger] self.paths_v()[j]).0 by {
                        if j < self.paths_v().len() - 1 {
                            assert(self.paths_v()[i] == old(self).paths_v()[i]);
                            assert(self.paths_v()[j] == old(self).paths_v()[j]);
                        } else {
                            assert(self.paths_v()[i] == old(self).paths_v()[i]);
                            assert(old(self).paths_v()[i].0 <= old(self).counter_v());
                        }
                    }
                    assert forall|i: int| 0 <= i < self.paths_v().len() implies (
                    #[trigger] self.paths_v()[i]).0 <= self.counter_v() by {
                        if i < self.paths_v().len() - 1 {
                            assert(self.paths_v()[i] == old(self).paths_v()[i]);
                            assert(old(self).paths_v()[i].0 <= old(self).counter_v());
                        }
                    }
                }
            },
            _ => {
                proof {
                    assert(self.paths_v() =~= old(self).paths_v());
                    assert forall|i: int| 0 <= i < self.paths_v().len() implies (
                    #[trigger] self.paths_v()[i]).0 <= self.counter_v() by {
                        assert(old(self).paths_v()[i].0 <= old(self).counter_v());
                    }
                    assert forall|i: int, j: int| 0 <= i < j < self.paths_v().len() implies (
                    #[trigger] self.paths_v()[i]).0 != (#[trigger] self.paths_v()[j]).0 by {
                        assert(old(self).paths_v()[i].0 != old(self).paths_v()[j].0);
                    }
                }
            },
        }
        let effect = SessionEffect::ToProvider {
            envelope: Envelope { direct_id: id, data: request },
        };
        proof {
            assert forall|key: nat| #[trigger] self.directions_v().contains_key(key) implies key
                <= usize::MAX by {
                assert(old(self).directions_v().contains_key(key));
            }
        }
        (id, effect)
    }

    /// Forwards an unsubscribe-style request under an existing id and
    /// forgets the path recorded for it; late data for the id is then
    /// dropped silently.
    pub fn sub_request(&mut self, direct_id: u64, request: ServerToProvider) -> (r: SessionEffect)
        requires
            old(self).wf(),
        ensures
            final(self).wf(),
            r.eview() == (EffectV::ToProvider { direct_id, request: request.rview() }),
            final(self).directions_v() == old(self).directions_v(),
            final(self).registered_v() == old(self).registered_v(),
            final(self).counter_v() == old(self).counter_v(),
            find_key(old(self).paths_v(), direct_id) >= 0 ==> final(self).paths_v() == old(
                self,
            ).paths_v().remove(find_key(old(self).paths_v(), direct_id)),
            find_key(old(self).paths_v(), direct_id) == -1 ==> final(self).paths_v() == old(
                self,
            ).paths_v(),
    {
        let n: usize = self.paths.len();
        let mut i: usize = 0;
        while i < n
            invariant
                0 <= i <= n,
                n == self.paths@.len(),
                *self == *old(self),
                old(self).wf(),
                forall|j: int| 0 <= j < i ==> (#[trigger] self.paths_v()[j]).0 != direct_id,
            decreases n - i,
        {
            if self.paths[i].0 == direct_id {
                proof {
                    assert(self.paths_v()[i as int].0 == direct_id);
                    lemma_find_key_at(self.paths_v(), direct_id, i as int);
                }
                let ghost prev_paths = self.paths_v();
                self.paths.remove(i);
                proof {
                    prev_paths.remove_ensures(i as int);
                    assert(self.paths_v() =~= prev_paths.remove(i as int));
                    assert forall|a: int, b: int| 0 <= a < b < self.paths_v().len() implies (
                    #[trigger] self.paths_v()[a]).0 != (#[trigger] self.paths_v()[b]).0 by {
                        let a0 = if a < i as int { a } else { a + 1 };
                        let b0 = if b < i as int { b } else { b + 1 };
                        assert(self.paths_v()[a] == old(self).paths_v()[a0]);
                        assert(self.paths_v()[b] == old(self).paths_v()[b0]);
                    }
                    assert forall|a: int| 0 <= a < self.paths_v().len() implies (
                    #[trigger] self.paths_v()[a]).0 <= self.counter_v() by {
                        let a0 = if a < i as int { a } else { a + 1 };
                        assert(self.paths_v()[a] == old(self).paths_v()[a0]);
                        assert(old(self).paths_v()[a0].0 <= old(self).counter_v());
                    }
                }
                proof {
                    assert forall|key: nat| #[trigger] self.directions_v().contains_key(key)
                        implies key <= usize::MAX by {
                        assert(old(self).directions_v().contains_key(key));
                    }
                }
                return SessionEffect::ToProvider {
                    envelope: Envelope { direct_id, data: request },
                };
            }
            proof {
                assert(self.paths_v()[i as int].0 != direct_id);
            }
            i += 1;
        }
        proof {
            lemma_find_key_exists(self.paths_v(), direct_id);
            lemma_session_wf(*old(self), *self);
        }
        SessionEffect::ToProvider { envelope: Envelope { direct_id, data: request } }
    }

    /// Routes one event arriving for a direct subscription to the path
    /// recorded for it; anything else cannot be attributed and is dropped.
    pub fn distribute_data(&self, direction: &Direction, event: &TimedEvent<FlowEvent>) -> (r:
        Option<SessionEffect>)
        ensures
            r is Some <==> (direct_id_of(*direction) matches Some(id) && find_key(
                self.paths_v(),
                id,
            ) >= 0),
            r matches Some(e) ==> (direct_id_of(*direction) matches Some(id) && e.eview()
                == (EffectV::DataReceived {
                path: self.paths_v()[find_key(self.paths_v(), id)].1,
                event: event.tview(),
            })),
    {
        match direction {
            Direction::Direct(id) => {
                let n: usize = self.paths.len();
                let mut i: usize = 0;
                while i < n
                    invariant
                        0 <= i <= n,
                        n == self.paths@.len(),
                        direct_id_of(*direction) == Some(*id),
                        forall|j: int| 0 <= j < i ==> (#[trigger] self.paths_v()[j]).0 != *id,
                    decreases n - i,
                {
                    if self.paths[i].0 == *id {
                        proof {
                            assert(self.paths_v()[i as int].0 == *id);
                            lemma_find_key_at(self.paths_v(), *id, i as int);
                        }
                        let eff = SessionEffect::DataReceived {
                            path: self.paths[i].1.duplicate(),
                            event: TimedEvent {
                                timestamp: event.timestamp,
                                event: crate::flow::clone_event(&event.event),
                            },
                        };
                        proof {
                            assert(direct_id_of(*direction) == Some(*id));
                            assert(find_key(self.paths_v(), *id) == i as int);
                        }
                        return Some(eff);
                    }
                    proof {
                        assert(self.paths_v()[i as int].0 != *id);
                    }
                    i += 1;
                }
                proof {
                    lemma_find_key_exists(self.paths_v(), *id);
                }
                None
            },
            _ => None,
        }
    }

    /// Detaches the session from the exporter on shutdown or on transport
    /// loss; detaching twice tells the exporter nothing twice.
    pub fn graceful_shutdown(&mut self) -> (effects: Vec<SessionEffect>)
        requires
            old(self).wf(),
        ensures
            final(self).wf(),
            final(self).registered_v() is None,
            final(self).counter_v() == old(self).counter_v(),
            final(self).paths_v() == old(self).paths_v(),
            final(self).directions_v() == old(self).directions_v(),
            old(self).registered_v() is Some ==> session_effects_view(effects@) == seq![
                EffectV::Detached,
            ],
            old(self).registered_v() is None ==> effects@.len() == 0,
    {
        let mut effects: Vec<SessionEffect> = Vec::new();
        if self.registered.is_some() {
            self.registered = None;
            effects.push(SessionEffect::Detached);
            proof {
                assert(session_effects_view(effects@) =~= seq![EffectV::Detached]);
            }
        }
        proof {
            assert(self.paths_v() =~= old(self).paths_v());
            lemma_session_wf(*old(self), *self);
        }
        effects
    }
}

/// A session keeps its shape when the counter and the recorded paths are
/// unchanged and every new route key fits a slab index.
pub proof fn lemma_session_wf(a: ProviderSession, b: ProviderSession)
    requires
        a.wf(),
        b.counter_v() == a.counter_v(),
        b.paths_v() == a.paths_v(),
        forall|k: nat| #[trigger] b.directions_v().contains_key(k)
            ==> a.directions_v().contains_key(k) || k <= usize::MAX,
    ensures
        b.wf(),
{
    assert forall|i: int| 0 <= i < b.paths_v().len() implies (#[trigger] b.paths_v()[i]).0
        <= b.counter_v() by {
        assert(b.paths_v()[i] == a.paths_v()[i]);
        assert(a.paths_v()[i].0 <= a.counter_v());
    }
    assert forall|i: int, j: int| 0 <= i < j < b.paths_v().len() implies (
    #[trigger] b.paths_v()[i]).0 != (#[trigger] b.paths_v()[j]).0 by {
        assert(b.paths_v()[i] == a.paths_v()[i]);
        assert(b.paths_v()[j] == a.paths_v()[j]);
        assert(a.paths_v()[i].0 != a.paths_v()[j].0);
    }
    assert forall|k: nat| #[trigger] b.directions_v().contains_key(k) implies k <= usize::MAX by {
        if a.directions_v().contains_key(k) {
        }
    }
}

/// The id a direct direction addresses, if it is direct.
pub open spec fn direct_id_of(d: Direction) -> Option<u64> {
    match d {
        Direction::Direct(id) => Some(id),
        _ => None,
    }
}

/// The first recorded path entry under an id, or -1.
pub open spec fn find_key(s: Seq<(u64, Seq<Seq<char>>)>, id: u64) -> int
    decreases s.len(),
{
    if s.len() == 0 {
        -1
    } else if s[0].0 == id {
        0
    } else {
        let r = find_key(s.skip(1), id);
        if r == -1 {
            -1
        } else {
            r + 1
        }
    }
}

/// An id occurs among the recorded paths exactly when `find_key` finds it.
pub proof fn lemma_find_key_exists(s: Seq<(u64, Seq<Seq<char>>)>, id: u64)
    ensures
        (find_key(s, id) >= 0 <==> exists|i: int|
            0 <= i < s.len() && (#[trigger] s[i]).0 == id),
        find_key(s, id) >= 0 ==> find_key(s, id) < s.len() && s[find_key(s, id)].0 == id,
        find_key(s, id) >= 0 || find_key(s, id) == -1,
    decreases s.len(),
{
    if s.len() == 0 {
    } else if s[0].0 == id {
    } else {
        lemma_find_key_exists(s.skip(1), id);
        assert(forall|i: int| 0 <= i < s.skip(1).len() ==> #[trigger] s.skip(1)[i] == s[i + 1]);
        if exists|i: int| 0 <= i < s.len() && (#[trigger] s[i]).0 == id {
            let i = choose|i: int| 0 <= i < s.len() && (#[trigger] s[i]).0 == id;
            assert(i >= 1);
            assert(s.skip(1)[i - 1].0 == id);
        }
    }
}

/// The first match of a scan from the front is what `find_key` names.
pub proof fn lemma_find_key_at(s: Seq<(u64, Seq<Seq<char>>)>, id: u64, i: int)
    requires
        0 <= i < s.len(),
        s[i].0 == id,
        forall|j: int| 0 <= j < i ==> (#[trigger] s[j]).0 != id,
    ensures
        find_key(s, id) == i,
    decreases s.len(),
{
    if i == 0 {
    } else {
        assert(s[0].0 != id);
        assert(forall|j: int| 0 <= j < s.skip(1).len() ==> #[trigger] s.skip(1)[j] == s[j + 1]);
        lemma_find_key_at(s.skip(1), id, i - 1);
    }
}

} // verus!

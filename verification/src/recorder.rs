//! The recorder: the single authoritative owner of a flow's state. It
//! applies producer events, serves one snapshot to each new subscriber,
//! fans deltas out in order, and drops subscribers that fall too far
//! behind instead of blocking the others.

use vstd::prelude::*;
use vstd::pervasive::VecAdditionalExecFns;
use tokio::sync::watch;
use crate::errors::RillError;
use crate::flow::{
    apply, batch_view, fold_v, lemma_fold_append, lemma_fold_step, FlowKind, FlowState, FlowEvent,
    StateV, TimedEvent, TimedEventV,
};

verus! {

#[verifier::external_type_specification]
#[verifier::external_body]
#[verifier::reject_recursive_types(T)]
pub struct ExWatchSender<T>(watch::Sender<T>);

#[verifier::external_type_specification]
#[verifier::external_body]
#[verifier::reject_recursive_types(T)]
pub struct ExWatchReceiver<T>(watch::Receiver<T>);

/// Relies on tokio's watch::channel: a fresh activity flag, owned by the
/// recorder that will keep it current.
#[verifier::external_body]
fn activity_flag(initial: bool) -> watch::Sender<bool> {
    let (tx, _rx) = watch::channel(initial);
    tx
}

/// Relies on watch::Sender::send_replace: publishes the flag's new value
/// to every attached receiver.
#[verifier::external_body]
fn activity_set(tx: &watch::Sender<bool>, value: bool) {
    let _ = tx.send_replace(value);
}

/// Relies on watch::Sender::subscribe: a receiver of the flag as the
/// recorder keeps it.
#[verifier::external_body]
fn activity_subscribe(tx: &watch::Sender<bool>) -> watch::Receiver<bool> {
    tx.subscribe()
}

/// Relies on watch::Receiver::borrow: the value most recently published.
#[verifier::external_body]
pub(crate) fn activity_get(rx: &watch::Receiver<bool>) -> bool {
    *rx.borrow()
}

/// Relies on watch::Receiver::clone: another view of the same flag.
#[verifier::external_body]
pub(crate) fn activity_clone(rx: &watch::Receiver<bool>) -> watch::Receiver<bool> {
    rx.clone()
}

/// The lifecycle of a recorder.
#[derive(Clone, Copy, Debug, PartialEq, Eq, Structural)]
pub enum Stage {
    /// No subscriber; events still drain into the state.
    Ready,
    /// At least one subscriber; every applied batch is fanned out.
    Broadcasting,
    /// All tracer clones are gone; queued events are flushed.
    Draining,
    /// The registry slot is released.
    Terminated,
}

/// A message addressed to one subscriber.
#[derive(Debug)]
pub enum OutMsg {
    /// The consistent snapshot that begins every stream.
    Begin { snapshot: FlowState },
    /// One ordered batch of deltas.
    Batch { events: Vec<TimedEvent<FlowEvent>> },
    /// The stream is over; the client must resubscribe.
    End,
}

/// The mathematical value of a subscriber message.
pub enum OutMsgV {
    Begin { snapshot: StateV },
    Batch { events: Seq<TimedEventV> },
    End,
}

impl OutMsg {
    /// The mathematical value of this message.
    pub open spec fn mview(&self) -> OutMsgV {
        match self {
            OutMsg::Begin { snapshot } => OutMsgV::Begin { snapshot: snapshot.sview() },
            OutMsg::Batch { events } => OutMsgV::Batch { events: batch_view(events@) },
            OutMsg::End => OutMsgV::End,
        }
    }
}

/// A message paired with the subscription it is addressed to.
#[derive(Debug)]
pub struct Delivery {
    pub direct_id: u64,
    pub msg: OutMsg,
}

/// The mathematical value of a delivery.
pub struct DeliveryV {
    pub direct_id: u64,
    pub msg: OutMsgV,
}

impl Delivery {
    /// The mathematical value of this delivery.
    pub open spec fn dview(&self) -> DeliveryV {
        DeliveryV { direct_id: self.direct_id, msg: self.msg.mview() }
    }
}

/// The mathematical value of a list of deliveries.
pub open spec fn effects_view(s: Seq<Delivery>) -> Seq<DeliveryV> {
    Seq::new(s.len(), |i: int| s[i].dview())
}

/// One attached subscriber, with its backlog bound and its ghost record of
/// everything that was ever addressed to it.
#[derive(Clone, Copy)]
pub struct Subscriber {
    pub direct_id: u64,
    pub buffered: usize,
    pub limit: usize,
    pub log: Ghost<Seq<OutMsgV>>,
    pub joined_at: Ghost<nat>,
}

/// The mathematical value of a subscriber.
pub struct SubV {
    pub direct_id: u64,
    pub buffered: nat,
    pub limit: nat,
    pub log: Seq<OutMsgV>,
    pub joined_at: nat,
}

impl Subscriber {
    /// The mathematical value of this subscriber.
    pub open spec fn svw(&self) -> SubV {
        SubV {
            direct_id: self.direct_id,
            buffered: self.buffered as nat,
            limit: self.limit as nat,
            log: self.log@,
            joined_at: self.joined_at@,
        }
    }
}

/// The mathematical value of a list of subscribers.
pub open spec fn subs_seq_view(s: Seq<Subscriber>) -> Seq<SubV> {
    Seq::new(s.len(), |i: int| s[i].svw())
}

/// The events delivered through a subscriber's log, in order.
pub open spec fn delivered(log: Seq<OutMsgV>) -> Seq<TimedEventV>
    decreases log.len(),
{
    if log.len() == 0 {
        Seq::empty()
    } else {
        delivered(log.drop_last()) + (match log.last() {
            OutMsgV::Batch { events } => events,
            _ => Seq::empty(),
        })
    }
}

/// What holds of every attached subscriber: its stream starts with the one
/// snapshot taken at subscribe time, nothing later is a snapshot, and the
/// deltas delivered so far are exactly the history since it joined.
pub open spec fn sub_wf(sub: SubV, initial: StateV, history: Seq<TimedEventV>) -> bool {
    &&& sub.joined_at <= history.len()
    &&& sub.buffered <= sub.limit
    &&& sub.log.len() >= 1
    &&& sub.log[0] == (OutMsgV::Begin {
        snapshot: fold_v(initial, history.take(sub.joined_at as int)),
    })
    &&& forall|i: int| 1 <= i < sub.log.len() ==> !((#[trigger] sub.log[i]) is Begin)
    &&& delivered(sub.log) == history.skip(sub.joined_at as int)
}

/// A subscriber survives a nonempty batch only while its backlog is below
/// its bound.
pub open spec fn sub_keeps(s: SubV) -> bool {
    s.buffered < s.limit
}

/// A surviving subscriber after one nonempty batch: backlog one deeper,
/// the batch appended to its stream.
pub open spec fn advance_sub(s: SubV, batch: Seq<TimedEventV>) -> SubV {
    SubV {
        direct_id: s.direct_id,
        buffered: s.buffered + 1,
        limit: s.limit,
        log: s.log.push(OutMsgV::Batch { events: batch }),
        joined_at: s.joined_at,
    }
}

/// The subscribers left after one nonempty batch, in order.
pub open spec fn fanout(subs: Seq<SubV>, batch: Seq<TimedEventV>) -> Seq<SubV>
    decreases subs.len(),
{
    if subs.len() == 0 {
        Seq::empty()
    } else {
        let rest = fanout(subs.drop_last(), batch);
        if sub_keeps(subs.last()) {
            rest.push(advance_sub(subs.last(), batch))
        } else {
            rest
        }
    }
}

/// The messages a nonempty batch sends: the batch to every survivor, an
/// end-of-stream to every dropped subscriber, one message per subscriber,
/// in order.
pub open spec fn fanout_effects(subs: Seq<SubV>, batch: Seq<TimedEventV>) -> Seq<DeliveryV>
    decreases subs.len(),
{
    if subs.len() == 0 {
        Seq::empty()
    } else {
        fanout_effects(subs.drop_last(), batch).push(
            if sub_keeps(subs.last()) {
                DeliveryV {
                    direct_id: subs.last().direct_id,
                    msg: OutMsgV::Batch { events: batch },
                }
            } else {
                DeliveryV { direct_id: subs.last().direct_id, msg: OutMsgV::End }
            },
        )
    }
}

/// The first subscriber with the given id, or -1.
pub open spec fn find_sub(subs: Seq<SubV>, id: u64) -> int
    decreases subs.len(),
{
    if subs.len() == 0 {
        -1
    } else if subs[0].direct_id == id {
        0
    } else {
        let r = find_sub(subs.skip(1), id);
        if r == -1 {
            -1
        } else {
            r + 1
        }
    }
}

/// A subscriber exists under an id exactly when `find_sub` finds one.
pub proof fn lemma_find_sub_exists(subs: Seq<SubV>, id: u64)
    ensures
        (find_sub(subs, id) >= 0 <==> exists|i: int|
            0 <= i < subs.len() && (#[trigger] subs[i]).direct_id == id),
        find_sub(subs, id) >= 0 ==> find_sub(subs, id) < subs.len() && subs[find_sub(
            subs,
            id,
        )].direct_id == id,
        find_sub(subs, id) >= 0 || find_sub(subs, id) == -1,
    decreases subs.len(),
{
    if subs.len() == 0 {
    } else if subs[0].direct_id == id {
    } else {
        lemma_find_sub_exists(subs.skip(1), id);
        assert(forall|i: int| 0 <= i < subs.skip(1).len() ==> #[trigger] subs.skip(1)[i] == subs[
            i + 1
        ]);
        if exists|i: int| 0 <= i < subs.len() && (#[trigger] subs[i]).direct_id == id {
            let i = choose|i: int| 0 <= i < subs.len() && (#[trigger] subs[i]).direct_id == id;
            assert(i >= 1);
            assert(subs.skip(1)[i - 1].direct_id == id);
        }
    }
}

/// The first match of a scan from the front is what `find_sub` names.
pub proof fn lemma_find_sub_at(subs: Seq<SubV>, id: u64, i: int)
    requires
        0 <= i < subs.len(),
        subs[i].direct_id == id,
        forall|j: int| 0 <= j < i ==> (#[trigger] subs[j]).direct_id != id,
    ensures
        find_sub(subs, id) == i,
    decreases subs.len(),
{
    if i == 0 {
    } else {
        assert(subs[0].direct_id != id);
        assert(forall|j: int| 0 <= j < subs.skip(1).len() ==> #[trigger] subs.skip(1)[j] == subs[
            j + 1
        ]);
        lemma_find_sub_at(subs.skip(1), id, i - 1);
    }
}

/// Advancing a well-formed surviving subscriber by a batch keeps it
/// well-formed against the extended history.
pub proof fn lemma_advance_sub_wf(
    s: SubV,
    initial: StateV,
    h: Seq<TimedEventV>,
    b: Seq<TimedEventV>,
)
    requires
        sub_wf(s, initial, h),
        sub_keeps(s),
    ensures
        sub_wf(advance_sub(s, b), initial, h + b),
{
    let s2 = advance_sub(s, b);
    assert(s2.log.drop_last() =~= s.log);
    assert(s2.log.last() == (OutMsgV::Batch { events: b }));
    assert(delivered(s2.log) == delivered(s.log) + b);
    assert((h + b).take(s.joined_at as int) =~= h.take(s.joined_at as int));
    assert((h + b).skip(s.joined_at as int) =~= h.skip(s.joined_at as int) + b);
    assert(s2.log[0] == s.log[0]);
    assert forall|i: int| 1 <= i < s2.log.len() implies !((#[trigger] s2.log[i]) is Begin) by {
        if i < s2.log.len() - 1 {
            assert(s2.log[i] == s.log[i]);
        }
    }
}

/// A subscriber untouched by new history (no deltas for it yet to see)
/// stays well-formed when nothing is appended.
pub proof fn lemma_sub_wf_same_history(s: SubV, initial: StateV, h: Seq<TimedEventV>)
    requires
        sub_wf(s, initial, h),
    ensures
        sub_wf(SubV { buffered: 0, ..s }, initial, h),
{
}

/// One recorder per registered path: the owner of the flow state and the
/// fan-out point to its subscribers.
pub struct Recorder {
    kind: FlowKind,
    stage: Stage,
    state: FlowState,
    subs: Vec<Subscriber>,
    activity: watch::Sender<bool>,
    history: Ghost<Seq<TimedEventV>>,
    initial: Ghost<StateV>,
}

impl Recorder {
    /// The lifecycle stage.
    pub closed spec fn stage_v(&self) -> Stage {
        self.stage
    }

    /// The flow variant this recorder serves.
    pub closed spec fn kind_v(&self) -> FlowKind {
        self.kind
    }

    /// Every event ever applied, in arrival order.
    pub closed spec fn history_v(&self) -> Seq<TimedEventV> {
        self.history@
    }

    /// The state the recorder started from.
    pub closed spec fn initial_v(&self) -> StateV {
        self.initial@
    }

    /// The current authoritative state.
    pub closed spec fn state_v(&self) -> StateV {
        self.state.sview()
    }

    /// The attached subscribers, in attachment order.
    pub closed spec fn subs_v(&self) -> Seq<SubV> {
        subs_seq_view(self.subs@)
    }

    /// The recorder still accepts events.
    pub open spec fn live(&self) -> bool {
        self.stage_v() == Stage::Ready || self.stage_v() == Stage::Broadcasting
            || self.stage_v() == Stage::Draining
    }

    /// The recorder's invariant: the state is the fold of the history over
    /// the initial state, and every subscriber's stream is one snapshot
    /// followed by exactly the deltas since it joined.
    pub closed spec fn wf(&self) -> bool {
        &&& self.state.wf()
        &&& self.state.sview() == fold_v(self.initial@, self.history@)
        &&& forall|i: int| 0 <= i < self.subs_v().len() ==> sub_wf(
            #[trigger] self.subs_v()[i],
            self.initial@,
            self.history@,
        )
        &&& (self.stage == Stage::Ready ==> self.subs@.len() == 0)
        &&& (self.stage == Stage::Broadcasting ==> self.subs@.len() > 0)
        &&& (self.stage == Stage::Terminated ==> self.subs@.len() == 0)
    }

    /// A new recorder in the `Ready` stage, owning the given initial state.
    pub fn new(kind: FlowKind, state: FlowState) -> (r: Recorder)
        requires
            state.wf(),
        ensures
            r.wf(),
            r.stage_v() == Stage::Ready,
            r.kind_v() == kind,
            r.history_v() == Seq::<TimedEventV>::empty(),
            r.initial_v() == state.sview(),
            r.state_v() == state.sview(),
            r.subs_v() == Seq::<SubV>::empty(),
    {
        let ghost initial = state.sview();
        let r = Recorder {
            kind,
            stage: Stage::Ready,
            state,
            subs: Vec::new(),
            activity: activity_flag(false),
            history: Ghost(Seq::empty()),
            initial: Ghost(initial),
        };
        proof {
            assert(r.subs_v() =~= Seq::<SubV>::empty());
        }
        r
    }

    /// How many subscribers are attached.
    pub fn subscriber_count(&self) -> (r: usize)
        ensures
            r == self.subs_v().len(),
    {
        self.subs.len()
    }

    /// The lifecycle stage.
    pub fn stage(&self) -> (r: Stage)
        ensures
            r == self.stage_v(),
    {
        self.stage
    }

    /// A receiver of the activity flag this recorder keeps: true exactly
    /// while a subscriber is attached. Tracers read it through
    /// `is_active`.
    pub fn watch_activity(&self) -> watch::Receiver<bool> {
        activity_subscribe(&self.activity)
    }

    /// A read-only view of the authoritative state.
    pub fn current(&self) -> (r: &FlowState)
        ensures
            r.sview() == self.state_v(),
    {
        &self.state
    }

    /// Applies one ordered batch of producer events: folds them into the
    /// state, appends them to the history, and fans the batch out to every
    /// subscriber whose backlog is still below its bound; a subscriber at
    /// its bound is dropped and sent an end-of-stream instead, and the
    /// others are served exactly as if it had never been attached.
    pub fn apply_batch(&mut self, events: &Vec<TimedEvent<FlowEvent>>) -> (effects: Vec<Delivery>)
        requires
            old(self).wf(),
            old(self).live(),
        ensures
            final(self).wf(),
            final(self).live(),
            final(self).kind_v() == old(self).kind_v(),
            final(self).initial_v() == old(self).initial_v(),
            final(self).history_v() == old(self).history_v() + batch_view(events@),
            final(self).state_v() == fold_v(old(self).state_v(), batch_view(events@)),
            events@.len() == 0 ==> final(self).subs_v() == old(self).subs_v() && effects@.len()
                == 0 && final(self).stage_v() == old(self).stage_v(),
            events@.len() > 0 ==> {
                &&& final(self).subs_v() == fanout(old(self).subs_v(), batch_view(events@))
                &&& effects_view(effects@) == fanout_effects(
                    old(self).subs_v(),
                    batch_view(events@),
                )
                &&& final(self).stage_v() == (if old(self).stage_v() == Stage::Broadcasting
                    && fanout(old(self).subs_v(), batch_view(events@)).len() == 0 {
                    Stage::Ready
                } else {
                    old(self).stage_v()
                })
            },
    {
        let ghost old_state_v = self.state.sview();
        let ghost bv = batch_view(events@);
        let ghost old_hist = self.history@;
        let n: usize = events.len();
        let mut k: usize = 0;
        while k < n
            invariant
                0 <= k <= n,
                n == events@.len(),
                bv == batch_view(events@),
                self.state.wf(),
                self.state.sview() == fold_v(old_state_v, bv.take(k as int)),
                self.kind == old(self).kind,
                self.stage == old(self).stage,
                self.subs == old(self).subs,
                self.history == old(self).history,
                self.initial == old(self).initial,
            decreases n - k,
        {
            proof {
                lemma_fold_step(old_state_v, bv, k as int);
                assert(bv[k as int] == events@[k as int].tview());
            }
            apply(&mut self.state, &events[k]);
            k += 1;
        }
        proof {
            assert(bv.take(n as int) =~= bv);
        }
        self.history = Ghost(old_hist + bv);
        proof {
            lemma_fold_append(self.initial@, old_hist, bv);
        }
        if n == 0 {
            let effects: Vec<Delivery> = Vec::new();
            proof {
                assert(bv =~= Seq::<TimedEventV>::empty());
                assert(old_hist + bv =~= old_hist);
                assert(effects_view(effects@) =~= Seq::<DeliveryV>::empty());
                assert forall|i: int| 0 <= i < self.subs_v().len() implies sub_wf(
                    #[trigger] self.subs_v()[i],
                    self.initial@,
                    self.history@,
                ) by {
                    assert(sub_wf(old(self).subs_v()[i], self.initial@, old_hist));
                }
            }
            return effects;
        }
        let ghost old_subs_v = subs_seq_view(self.subs@);
        proof {
            assert forall|j: int| 0 <= j < old_subs_v.len() implies sub_wf(
                #[trigger] old_subs_v[j],
                self.initial@,
                old_hist,
            ) by {
                assert(old(self).subs_v()[j] == old_subs_v[j]);
                assert(sub_wf(old(self).subs_v()[j], old(self).initial@, old(self).history@));
            }
        }
        let mut kept: Vec<Subscriber> = Vec::new();
        let mut effects: Vec<Delivery> = Vec::new();
        let m: usize = self.subs.len();
        let mut i: usize = 0;
        while i < m
            invariant
                0 <= i <= m,
                m == self.subs@.len(),
                bv == batch_view(events@),
                bv.len() > 0,
                old_subs_v == subs_seq_view(self.subs@),
                self.history@ == old_hist + bv,
                self.initial == old(self).initial,
                subs_seq_view(kept@) =~= fanout(old_subs_v.take(i as int), bv),
                effects_view(effects@) =~= fanout_effects(old_subs_v.take(i as int), bv),
                forall|j: int| 0 <= j < old_subs_v.len() ==> sub_wf(
                    #[trigger] old_subs_v[j],
                    self.initial@,
                    old_hist,
                ),
                forall|j: int| 0 <= j < subs_seq_view(kept@).len() ==> sub_wf(
                    #[trigger] subs_seq_view(kept@)[j],
                    self.initial@,
                    self.history@,
                ),
            decreases m - i,
        {
            let sub = self.subs[i];
            proof {
                assert(old_subs_v[i as int] == sub.svw());
                assert(old_subs_v.take(i as int + 1).drop_last() =~= old_subs_v.take(i as int));
                assert(old_subs_v.take(i as int + 1).last() == old_subs_v[i as int]);
            }
            let ghost kept_prev = kept@;
            let ghost eff_prev = effects@;
            if sub.buffered < sub.limit {
                let batch_copy = crate::flow::clone_batch(events);
                effects.push(
                    Delivery { direct_id: sub.direct_id, msg: OutMsg::Batch { events: batch_copy } },
                );
                let advanced = Subscriber {
                    direct_id: sub.direct_id,
                    buffered: sub.buffered + 1,
                    limit: sub.limit,
                    log: Ghost(sub.log@.push(OutMsgV::Batch { events: bv })),
                    joined_at: sub.joined_at,
                };
                kept.push(advanced);
                proof {
                    assert(advanced.svw() == advance_sub(sub.svw(), bv));
                    lemma_advance_sub_wf(sub.svw(), self.initial@, old_hist, bv);
                    assert(subs_seq_view(kept@) =~= subs_seq_view(kept_prev).push(
                        advanced.svw(),
                    ));
                    assert(effects_view(effects@) =~= effects_view(eff_prev).push(
                        DeliveryV { direct_id: sub.direct_id, msg: OutMsgV::Batch { events: bv } },
                    ));
                    assert(subs_seq_view(kept@) =~= fanout(old_subs_v.take(i as int + 1), bv));
                    assert(effects_view(effects@) =~= fanout_effects(
                        old_subs_v.take(i as int + 1),
                        bv,
                    ));
                    assert forall|j: int| 0 <= j < subs_seq_view(kept@).len() implies sub_wf(
                        #[trigger] subs_seq_view(kept@)[j],
                        self.initial@,
                        self.history@,
                    ) by {
                        if j < subs_seq_view(kept@).len() - 1 {
                            assert(subs_seq_view(kept@)[j] == subs_seq_view(kept_prev)[j]);
                        }
                    }
                }
            } else {
                effects.push(Delivery { direct_id: sub.direct_id, msg: OutMsg::End });
                proof {
                    assert(!sub_keeps(sub.svw()));
                    assert(effects_view(effects@) =~= effects_view(eff_prev).push(
                        DeliveryV { direct_id: sub.direct_id, msg: OutMsgV::End },
                    ));
                    assert(subs_seq_view(kept@) =~= fanout(old_subs_v.take(i as int + 1), bv));
                    assert(effects_view(effects@) =~= fanout_effects(
                        old_subs_v.take(i as int + 1),
                        bv,
                    ));
                }
            }
            i += 1;
        }
        proof {
            assert(old_subs_v.take(m as int) =~= old_subs_v);
        }
        self.subs = kept;
        if self.subs.len() == 0 && self.stage == Stage::Broadcasting {
            self.stage = Stage::Ready;
            activity_set(&self.activity, false);
        }
        effects
    }

    /// Attaches a subscriber: captures a consistent snapshot of the current
    /// state, addresses it to the new subscriber as the first message of
    /// its stream, and enrolls it in the fan-out before returning. Refused
    /// while draining or terminated, and for an id already attached.
    pub fn subscribe(&mut self, direct_id: u64, limit: usize) -> (r: Result<Delivery, RillError>)
        requires
            old(self).wf(),
        ensures
            final(self).wf(),
            final(self).kind_v() == old(self).kind_v(),
            final(self).initial_v() == old(self).initial_v(),
            final(self).history_v() == old(self).history_v(),
            final(self).state_v() == old(self).state_v(),
            match r {
                Ok(d) => {
                    &&& (old(self).stage_v() == Stage::Ready || old(self).stage_v()
                        == Stage::Broadcasting)
                    &&& find_sub(old(self).subs_v(), direct_id) == -1
                    &&& d.direct_id == direct_id
                    &&& d.msg.mview() == (OutMsgV::Begin {
                        snapshot: fold_v(old(self).initial_v(), old(self).history_v()),
                    })
                    &&& final(self).subs_v() == old(self).subs_v().push(
                        SubV {
                            direct_id,
                            buffered: 0,
                            limit: limit as nat,
                            log: seq![d.msg.mview()],
                            joined_at: old(self).history_v().len(),
                        },
                    )
                    &&& final(self).stage_v() == Stage::Broadcasting
                },
                Err(e) => {
                    &&& final(self).subs_v() == old(self).subs_v()
                    &&& final(self).stage_v() == old(self).stage_v()
                    &&& (e == RillError::TransportClosed || e == RillError::ProtocolViolation)
                    &&& (e == RillError::TransportClosed <==> !(old(self).stage_v() == Stage::Ready
                        || old(self).stage_v() == Stage::Broadcasting))
                    &&& (e == RillError::ProtocolViolation ==> find_sub(
                        old(self).subs_v(),
                        direct_id,
                    ) >= 0)
                },
            },
    {
        if !(self.stage == Stage::Ready || self.stage == Stage::Broadcasting) {
            return Err(RillError::TransportClosed);
        }
        let m: usize = self.subs.len();
        let mut i: usize = 0;
        while i < m
            invariant
                0 <= i <= m,
                m == self.subs@.len(),
                *self == *old(self),
                old(self).wf(),
                old(self).stage_v() == Stage::Ready || old(self).stage_v() == Stage::Broadcasting,
                forall|j: int| 0 <= j < i ==> (#[trigger] subs_seq_view(self.subs@)[j]).direct_id
                    != direct_id,
            decreases m - i,
        {
            if self.subs[i].direct_id == direct_id {
                proof {
                    assert(subs_seq_view(self.subs@)[i as int].direct_id == direct_id);
                    lemma_find_sub_exists(self.subs_v(), direct_id);
                }
                return Err(RillError::ProtocolViolation);
            }
            proof {
                assert(subs_seq_view(self.subs@)[i as int].direct_id != direct_id);
            }
            i += 1;
        }
        proof {
            lemma_find_sub_exists(self.subs_v(), direct_id);
        }
        let snap = self.state.snapshot();
        let msg = OutMsg::Begin { snapshot: snap };
        let ghost joined = self.history@.len();
        let ghost first_log: Seq<OutMsgV> = seq![msg.mview()];
        let sub = Subscriber {
            direct_id,
            buffered: 0,
            limit,
            log: Ghost(first_log),
            joined_at: Ghost(joined),
        };
        let ghost prev_subs = self.subs@;
        self.subs.push(sub);
        self.stage = Stage::Broadcasting;
        activity_set(&self.activity, true);
        proof {
            assert(self.history@.take(joined as int) =~= self.history@);
            assert(first_log.len() == 1);
            assert(first_log.drop_last().len() == 0);
            assert(delivered(first_log.drop_last()) == Seq::<TimedEventV>::empty());
            assert(first_log.last() == msg.mview());
            assert(delivered(first_log) =~= Seq::<TimedEventV>::empty());
            assert(self.history@.skip(joined as int).len() == 0);
            assert(delivered(first_log) =~= self.history@.skip(joined as int));
            assert(sub.svw() == SubV {
                direct_id,
                buffered: 0,
                limit: limit as nat,
                log: seq![msg.mview()],
                joined_at: joined,
            });
            assert(sub_wf(sub.svw(), self.initial@, self.history@));
            assert(subs_seq_view(self.subs@) =~= subs_seq_view(prev_subs).push(sub.svw()));
            assert forall|j: int| 0 <= j < subs_seq_view(self.subs@).len() implies sub_wf(
                #[trigger] subs_seq_view(self.subs@)[j],
                self.initial@,
                self.history@,
            ) by {
                if j < subs_seq_view(self.subs@).len() - 1 {
                    assert(subs_seq_view(self.subs@)[j] == subs_seq_view(prev_subs)[j]);
                    assert(sub_wf(old(self).subs_v()[j], self.initial@, self.history@));
                }
            }
        }
        Ok(Delivery { direct_id, msg })
    }

    /// Notes that a subscriber has drained its outbound buffer, clearing
    /// its backlog. Reports whether the id was attached.
    pub fn subscriber_read(&mut self, direct_id: u64) -> (r: bool)
        requires
            old(self).wf(),
        ensures
            final(self).wf(),
            final(self).kind_v() == old(self).kind_v(),
            final(self).initial_v() == old(self).initial_v(),
            final(self).history_v() == old(self).history_v(),
            final(self).state_v() == old(self).state_v(),
            final(self).stage_v() == old(self).stage_v(),
            r <==> find_sub(old(self).subs_v(), direct_id) >= 0,
            r ==> final(self).subs_v() == old(self).subs_v().update(
                find_sub(old(self).subs_v(), direct_id),
                SubV { buffered: 0, ..old(self).subs_v()[find_sub(old(self).subs_v(), direct_id)] },
            ),
            !r ==> final(self).subs_v() == old(self).subs_v(),
    {
        let m: usize = self.subs.len();
        let mut i: usize = 0;
        while i < m
            invariant
                0 <= i <= m,
                m == self.subs@.len(),
                *self == *old(self),
                old(self).wf(),
                forall|j: int| 0 <= j < i ==> (#[trigger] subs_seq_view(self.subs@)[j]).direct_id
                    != direct_id,
            decreases m - i,
        {
            if self.subs[i].direct_id == direct_id {
                proof {
                    assert(subs_seq_view(self.subs@)[i as int].direct_id == direct_id);
                    lemma_find_sub_at(self.subs_v(), direct_id, i as int);
                }
                let ghost prev_subs = self.subs@;
                let mut sub = self.subs[i];
                sub.buffered = 0;
                self.subs.set(i, sub);
                proof {
                    assert(subs_seq_view(prev_subs)[i as int] == old(self).subs_v()[i as int]);
                    assert(sub_wf(
                        old(self).subs_v()[i as int],
                        old(self).initial@,
                        old(self).history@,
                    ));
                    assert(self.initial@ == old(self).initial@);
                    assert(self.history@ == old(self).history@);
                    assert(sub.svw() == SubV { buffered: 0, ..subs_seq_view(prev_subs)[i as int] });
                    assert(subs_seq_view(self.subs@) =~= subs_seq_view(prev_subs).update(
                        i as int,
                        sub.svw(),
                    ));
                    lemma_sub_wf_same_history(
                        subs_seq_view(prev_subs)[i as int],
                        self.initial@,
                        self.history@,
                    );
                    assert forall|j: int| 0 <= j < subs_seq_view(self.subs@).len() implies sub_wf(
                        #[trigger] subs_seq_view(self.subs@)[j],
                        self.initial@,
                        self.history@,
                    ) by {
                        assert(sub_wf(
                            old(self).subs_v()[j],
                            old(self).initial@,
                            old(self).history@,
                        ));
                        if j != i as int {
                            assert(subs_seq_view(self.subs@)[j] == subs_seq_view(prev_subs)[j]);
                            assert(subs_seq_view(prev_subs)[j] == old(self).subs_v()[j]);
                        }
                    }
                }
                return true;
            }
            proof {
                assert(subs_seq_view(self.subs@)[i as int].direct_id != direct_id);
            }
            i += 1;
        }
        proof {
            lemma_find_sub_exists(self.subs_v(), direct_id);
        }
        false
    }

    /// Detaches a subscriber, as on an explicit unsubscribe or a client
    /// disconnect. When the last one leaves, the recorder returns to
    /// `Ready`. Reports whether the id was attached.
    pub fn unsubscribe(&mut self, direct_id: u64) -> (r: bool)
        requires
            old(self).wf(),
        ensures
            final(self).wf(),
            final(self).kind_v() == old(self).kind_v(),
            final(self).initial_v() == old(self).initial_v(),
            final(self).history_v() == old(self).history_v(),
            final(self).state_v() == old(self).state_v(),
            r <==> find_sub(old(self).subs_v(), direct_id) >= 0,
            r ==> final(self).subs_v() == old(self).subs_v().remove(
                find_sub(old(self).subs_v(), direct_id),
            ),
            !r ==> final(self).subs_v() == old(self).subs_v(),
            final(self).stage_v() == (if old(self).stage_v() == Stage::Broadcasting && r && old(
                self,
            ).subs_v().len() == 1 {
                Stage::Ready
            } else {
                old(self).stage_v()
            }),
    {
        let m: usize = self.subs.len();
        let mut i: usize = 0;
        while i < m
            invariant
                0 <= i <= m,
                m == self.subs@.len(),
                *self == *old(self),
                old(self).wf(),
                forall|j: int| 0 <= j < i ==> (#[trigger] subs_seq_view(self.subs@)[j]).direct_id
                    != direct_id,
            decreases m - i,
        {
            if self.subs[i].direct_id == direct_id {
                proof {
                    assert(subs_seq_view(self.subs@)[i as int].direct_id == direct_id);
                    lemma_find_sub_at(self.subs_v(), direct_id, i as int);
                }
                let ghost prev_subs = self.subs@;
                self.subs.remove(i);
                if self.subs.len() == 0 && self.stage == Stage::Broadcasting {
                    self.stage = Stage::Ready;
                    activity_set(&self.activity, false);
                }
                proof {
                    prev_subs.remove_ensures(i as int);
                    subs_seq_view(prev_subs).remove_ensures(i as int);
                    assert(subs_seq_view(self.subs@) =~= subs_seq_view(prev_subs).remove(i as int));
                    assert(self.initial@ == old(self).initial@);
                    assert(self.history@ == old(self).history@);
                    assert forall|j: int| 0 <= j < subs_seq_view(self.subs@).len() implies sub_wf(
                        #[trigger] subs_seq_view(self.subs@)[j],
                        self.initial@,
                        self.history@,
                    ) by {
                        let j0 = if j < i as int { j } else { j + 1 };
                        assert(subs_seq_view(self.subs@)[j] == subs_seq_view(prev_subs)[j0]);
                        assert(subs_seq_view(prev_subs)[j0] == old(self).subs_v()[j0]);
                        assert(sub_wf(
                            old(self).subs_v()[j0],
                            old(self).initial@,
                            old(self).history@,
                        ));
                    }
                }
                return true;
            }
            proof {
                assert(subs_seq_view(self.subs@)[i as int].direct_id != direct_id);
            }
            i += 1;
        }
        proof {
            lemma_find_sub_exists(self.subs_v(), direct_id);
        }
        false
    }

    /// Notes that every tracer clone is gone: the recorder drains what is
    /// queued and then terminates.
    pub fn tracers_dropped(&mut self)
        requires
            old(self).wf(),
            old(self).stage_v() != Stage::Terminated,
        ensures
            final(self).wf(),
            final(self).stage_v() == Stage::Draining,
            final(self).kind_v() == old(self).kind_v(),
            final(self).initial_v() == old(self).initial_v(),
            final(self).history_v() == old(self).history_v(),
            final(self).state_v() == old(self).state_v(),
            final(self).subs_v() == old(self).subs_v(),
    {
        self.stage = Stage::Draining;
        proof {
            assert forall|j: int| 0 <= j < subs_seq_view(self.subs@).len() implies sub_wf(
                #[trigger] subs_seq_view(self.subs@)[j],
                self.initial@,
                self.history@,
            ) by {
                assert(sub_wf(old(self).subs_v()[j], self.initial@, self.history@));
            }
        }
    }

    /// Ends the recorder after draining: every remaining subscriber is sent
    /// an end-of-stream, and the registry slot may be released.
    pub fn terminate(&mut self) -> (effects: Vec<Delivery>)
        requires
            old(self).wf(),
            old(self).stage_v() == Stage::Draining,
        ensures
            final(self).wf(),
            final(self).stage_v() == Stage::Terminated,
            final(self).kind_v() == old(self).kind_v(),
            final(self).initial_v() == old(self).initial_v(),
            final(self).history_v() == old(self).history_v(),
            final(self).state_v() == old(self).state_v(),
            final(self).subs_v() == Seq::<SubV>::empty(),
            effects_view(effects@) == end_effects(old(self).subs_v()),
    {
        let mut effects: Vec<Delivery> = Vec::new();
        let m: usize = self.subs.len();
        let mut i: usize = 0;
        while i < m
            invariant
                0 <= i <= m,
                m == self.subs@.len(),
                self.subs == old(self).subs,
                effects_view(effects@) =~= end_effects(subs_seq_view(self.subs@).take(i as int)),
            decreases m - i,
        {
            let ghost eff_prev = effects@;
            effects.push(Delivery { direct_id: self.subs[i].direct_id, msg: OutMsg::End });
            proof {
                assert(effects_view(effects@) =~= effects_view(eff_prev).push(
                    DeliveryV {
                        direct_id: subs_seq_view(self.subs@)[i as int].direct_id,
                        msg: OutMsgV::End,
                    },
                ));
                assert(effects_view(effects@) =~= end_effects(
                    subs_seq_view(self.subs@).take(i as int + 1),
                ));
            }
            i += 1;
        }
        proof {
            assert(subs_seq_view(self.subs@).take(m as int) =~= subs_seq_view(self.subs@));
        }
        self.subs = Vec::new();
        self.stage = Stage::Terminated;
        activity_set(&self.activity, false);
        proof {
            assert(subs_seq_view(self.subs@) =~= Seq::<SubV>::empty());
        }
        effects
    }
}

/// The end-of-stream sent to each remaining subscriber at termination.
pub open spec fn end_effects(subs: Seq<SubV>) -> Seq<DeliveryV> {
    Seq::new(subs.len(), |i: int| DeliveryV { direct_id: subs[i].direct_id, msg: OutMsgV::End })
}

/// Every subscriber's stream begins with exactly one snapshot message, and
/// that snapshot is the fold of the reducer over precisely the events that
/// arrived before it subscribed.
pub proof fn lemma_stream_begins_with_snapshot(rec: &Recorder, i: int)
    requires
        rec.wf(),
        0 <= i < rec.subs_v().len(),
    ensures
        rec.subs_v()[i].log.len() >= 1,
        rec.subs_v()[i].log[0] == (OutMsgV::Begin {
            snapshot: fold_v(
                rec.initial_v(),
                rec.history_v().take(rec.subs_v()[i].joined_at as int),
            ),
        }),
        forall|k: int| 1 <= k < rec.subs_v()[i].log.len() ==> !((#[trigger] rec.subs_v()[i].log[k])
            is Begin),
{
    assert(sub_wf(rec.subs_v()[i], rec.initial_v(), rec.history_v()));
}

/// Deltas reach every subscriber in producer order: the events delivered
/// through a subscriber's stream are exactly the recorder's history from
/// the moment it subscribed, in the same order. A subscriber attached
/// before a run of events therefore receives that whole run, in order.
pub proof fn lemma_stream_order(rec: &Recorder, i: int)
    requires
        rec.wf(),
        0 <= i < rec.subs_v().len(),
    ensures
        delivered(rec.subs_v()[i].log) == rec.history_v().skip(rec.subs_v()[i].joined_at as int),
{
    assert(sub_wf(rec.subs_v()[i], rec.initial_v(), rec.history_v()));
}

/// The authoritative state is always the fold of the reducer over the
/// whole history: recorders never reorder or drop an accepted event.
pub proof fn lemma_state_is_fold(rec: &Recorder)
    requires
        rec.wf(),
    ensures
        rec.state_v() == fold_v(rec.initial_v(), rec.history_v()),
{
}

/// The subscribers left after a run of nonempty batches with no reads in
/// between.
pub open spec fn fanout_run(subs: Seq<SubV>, batches: Seq<Seq<TimedEventV>>) -> Seq<SubV>
    decreases batches.len(),
{
    if batches.len() == 0 {
        subs
    } else {
        fanout(fanout_run(subs, batches.drop_last()), batches.last())
    }
}

/// Whoever survives one batch came from the previous round with a backlog
/// below its bound, one shallower than it now has.
pub proof fn lemma_fanout_members(subs: Seq<SubV>, b: Seq<TimedEventV>, i: int)
    requires
        0 <= i < fanout(subs, b).len(),
    ensures
        exists|j: int|
            0 <= j < subs.len() && sub_keeps(#[trigger] subs[j]) && fanout(subs, b)[i]
                == advance_sub(subs[j], b),
    decreases subs.len(),
{
    if subs.len() == 0 {
    } else {
        let rest = fanout(subs.drop_last(), b);
        if sub_keeps(subs.last()) && i == rest.len() {
            assert(subs[subs.len() - 1] == subs.last());
            assert(sub_keeps(subs[subs.len() - 1]) && fanout(subs, b)[i] == advance_sub(
                subs[subs.len() - 1],
                b,
            ));
        } else {
            lemma_fanout_members(subs.drop_last(), b, i);
            let j = choose|j: int|
                0 <= j < subs.drop_last().len() && sub_keeps(#[trigger] subs.drop_last()[j])
                    && rest[i] == advance_sub(subs.drop_last()[j], b);
            assert(subs.drop_last()[j] == subs[j]);
            assert(sub_keeps(subs[j]) && fanout(subs, b)[i] == advance_sub(subs[j], b));
        }
    }
}

/// Backpressure drops a silent subscriber within a bounded number of
/// events: one that survives a run of `n` nonempty batches without ever
/// reading descends from a subscriber of the starting round, with its
/// backlog exactly `n` deeper — so with backlogs capped by the bound, no
/// subscriber outlives more such batches than its bound allows.
pub proof fn lemma_backpressure_descent(subs: Seq<SubV>, batches: Seq<Seq<TimedEventV>>, i: int)
    requires
        0 <= i < fanout_run(subs, batches).len(),
    ensures
        exists|j: int|
            0 <= j < subs.len() && (#[trigger] subs[j]).direct_id == fanout_run(
                subs,
                batches,
            )[i].direct_id && subs[j].limit == fanout_run(subs, batches)[i].limit && fanout_run(
                subs,
                batches,
            )[i].buffered == subs[j].buffered + batches.len(),
    decreases batches.len(),
{
    if batches.len() == 0 {
        assert(subs[i].direct_id == fanout_run(subs, batches)[i].direct_id && subs[i].limit
            == fanout_run(subs, batches)[i].limit && fanout_run(subs, batches)[i].buffered == subs[
            i
        ].buffered + 0);
    } else {
        let mid = fanout_run(subs, batches.drop_last());
        lemma_fanout_members(mid, batches.last(), i);
        let j = choose|j: int|
            0 <= j < mid.len() && sub_keeps(#[trigger] mid[j]) && fanout_run(subs, batches)[i]
                == advance_sub(mid[j], batches.last());
        lemma_backpressure_descent(subs, batches.drop_last(), j);
        let k = choose|k: int|
            0 <= k < subs.len() && (#[trigger] subs[k]).direct_id == mid[j].direct_id && subs[
                k
            ].limit == mid[j].limit && mid[j].buffered == subs[k].buffered + batches.drop_last().len();
        assert(subs[k].direct_id == fanout_run(subs, batches)[i].direct_id && subs[k].limit
            == fanout_run(subs, batches)[i].limit && fanout_run(subs, batches)[i].buffered == subs[
            k
        ].buffered + batches.len());
    }
}

/// A subscriber that never reads survives at most as many nonempty batches
/// as its backlog bound: every survivor's backlog stays within its bound,
/// so a run longer than the bound has already dropped it.
pub proof fn lemma_backpressure_bound(subs: Seq<SubV>, batches: Seq<Seq<TimedEventV>>, i: int)
    requires
        0 <= i < fanout_run(subs, batches).len(),
        batches.len() > 0,
    ensures
        batches.len() <= fanout_run(subs, batches)[i].limit,
{
    let mid = fanout_run(subs, batches.drop_last());
    lemma_fanout_members(mid, batches.last(), i);
    let j = choose|j: int|
        0 <= j < mid.len() && sub_keeps(#[trigger] mid[j]) && fanout_run(subs, batches)[i]
            == advance_sub(mid[j], batches.last());
    lemma_backpressure_descent(subs, batches.drop_last(), j);
    let k = choose|k: int|
        0 <= k < subs.len() && (#[trigger] subs[k]).direct_id == mid[j].direct_id && subs[k].limit
            == mid[j].limit && mid[j].buffered == subs[k].buffered + batches.drop_last().len();
    assert(mid[j].buffered >= batches.len() - 1);
    assert(mid[j].buffered < mid[j].limit);
}

} // verus!

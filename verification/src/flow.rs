//! The flow kernel: a closed set of flow variants, each a triple of state,
//! event and action, with a pure total `apply` reducer.

use vstd::prelude::*;
use vstd::pervasive::VecAdditionalExecFns;
use crate::frame::{Frame, frame_push};

verus! {

/// An event stamped with monotonic unix time in microseconds.
#[derive(Clone, Copy, Debug)]
pub struct TimedEvent<E> {
    pub timestamp: u64,
    pub event: E,
}

/// The declared bounds of a gauge.
#[derive(Clone, Copy, Debug, PartialEq, Eq, Structural)]
pub struct Range {
    pub min: i64,
    pub max: i64,
}

/// One sample of a pulse flow.
#[derive(Clone, Copy, Debug, PartialEq, Eq, Structural)]
pub struct PulsePoint {
    pub at: u64,
    pub value: i64,
}

/// The closed set of flow variants, with their per-flow parameters.
#[derive(Clone, Copy, Debug)]
pub enum FlowKind {
    Counter,
    Gauge { range: Range },
    Pulse,
    Board,
    Click,
    Switch,
    Slider,
    Selector,
}

/// The versioned stream-type tag of each variant.
pub open spec fn stream_type_of(kind: FlowKind) -> Seq<char> {
    match kind {
        FlowKind::Counter => "rillrate.counter.v0"@,
        FlowKind::Gauge { .. } => "rillrate.gauge.v0"@,
        FlowKind::Pulse => "rillrate.pulse.v0"@,
        FlowKind::Board => "rillrate.board.v0"@,
        FlowKind::Click => "rillrate.click.v0"@,
        FlowKind::Switch => "rillrate.switch.v0"@,
        FlowKind::Slider => "rillrate.slider.v0"@,
        FlowKind::Selector => "rillrate.selector.v0"@,
    }
}

impl FlowKind {
    /// The wire tag that names this variant's schema and version.
    pub fn stream_type(&self) -> (r: &'static str)
        ensures
            r@ == stream_type_of(*self),
    {
        match self {
            FlowKind::Counter => "rillrate.counter.v0",
            FlowKind::Gauge { .. } => "rillrate.gauge.v0",
            FlowKind::Pulse => "rillrate.pulse.v0",
            FlowKind::Board => "rillrate.board.v0",
            FlowKind::Click => "rillrate.click.v0",
            FlowKind::Switch => "rillrate.switch.v0",
            FlowKind::Slider => "rillrate.slider.v0",
            FlowKind::Selector => "rillrate.selector.v0",
        }
    }
}

/// The state of a live flow.
#[derive(Debug)]
pub enum FlowState {
    Counter { value: i64 },
    Gauge { at: Option<u64>, value: i64 },
    Pulse { frame: Frame<PulsePoint> },
    Board { entries: Vec<(String, String)> },
    Click { label: String },
    Switch { label: String, on: bool },
    Slider { label: String, min: i64, max: i64, step: i64, value: i64 },
    Selector { label: String, options: Vec<String>, selected: Option<String> },
}

/// A producer-side event of some flow.
#[derive(Clone, Debug)]
pub enum FlowEvent {
    Inc { delta: i64 },
    SetValue { value: i64 },
    Add { value: i64 },
    Assign { key: String, value: String },
    Remove { key: String },
    Turn { on: bool },
    Select { option: Option<String> },
}

/// A user action routed back from a dashboard client to the producer.
#[derive(Clone, Debug)]
pub enum FlowAction {
    Click,
    Turn { on: bool },
    SetValue { value: i64 },
    Select { option: Option<String> },
}

/// The mathematical value of a user action.
pub enum ActionV {
    Click,
    Turn { on: bool },
    SetValue { value: i64 },
    Select { option: Option<Seq<char>> },
}

impl FlowAction {
    /// The mathematical value of this action.
    pub open spec fn aview(&self) -> ActionV {
        match self {
            FlowAction::Click => ActionV::Click,
            FlowAction::Turn { on } => ActionV::Turn { on: *on },
            FlowAction::SetValue { value } => ActionV::SetValue { value: *value },
            FlowAction::Select { option } => ActionV::Select {
                option: match option {
                    Some(s) => Some(s@),
                    None => None,
                },
            },
        }
    }
}

/// The mathematical value of a flow state.
pub enum StateV {
    Counter { value: i64 },
    Gauge { at: Option<u64>, value: i64 },
    Pulse { depth: nat, points: Seq<PulsePoint> },
    Board { entries: Map<Seq<char>, Seq<char>> },
    Click { label: Seq<char> },
    Switch { label: Seq<char>, on: bool },
    Slider { label: Seq<char>, min: i64, max: i64, step: i64, value: i64 },
    Selector { label: Seq<char>, options: Seq<Seq<char>>, selected: Option<Seq<char>> },
}

/// The mathematical value of a flow event.
pub enum EventV {
    Inc { delta: i64 },
    SetValue { value: i64 },
    Add { value: i64 },
    Assign { key: Seq<char>, value: Seq<char> },
    Remove { key: Seq<char> },
    Turn { on: bool },
    Select { option: Option<Seq<char>> },
}

/// A timed event, as a mathematical value.
pub struct TimedEventV {
    pub at: u64,
    pub event: EventV,
}

/// The map held by a board, read off its entry list (later entries win).
pub open spec fn entries_map(s: Seq<(Seq<char>, Seq<char>)>) -> Map<Seq<char>, Seq<char>>
    decreases s.len(),
{
    if s.len() == 0 {
        Map::empty()
    } else {
        entries_map(s.drop_last()).insert(s.last().0, s.last().1)
    }
}

/// Entry keys are pairwise distinct.
pub open spec fn entry_keys_unique(s: Seq<(Seq<char>, Seq<char>)>) -> bool {
    forall|i: int, j: int| 0 <= i < j < s.len() ==> (#[trigger] s[i]).0 != (#[trigger] s[j]).0
}

impl FlowState {
    /// The mathematical value of this state.
    pub open spec fn sview(&self) -> StateV {
        match self {
            FlowState::Counter { value } => StateV::Counter { value: *value },
            FlowState::Gauge { at, value } => StateV::Gauge { at: *at, value: *value },
            FlowState::Pulse { frame } => StateV::Pulse {
                depth: frame.spec_depth(),
                points: frame@,
            },
            FlowState::Board { entries } => StateV::Board {
                entries: entries_map(entries.deep_view()),
            },
            FlowState::Click { label } => StateV::Click { label: label@ },
            FlowState::Switch { label, on } => StateV::Switch { label: label@, on: *on },
            FlowState::Slider { label, min, max, step, value } => StateV::Slider {
                label: label@,
                min: *min,
                max: *max,
                step: *step,
                value: *value,
            },
            FlowState::Selector { label, options, selected } => StateV::Selector {
                label: label@,
                options: options.deep_view(),
                selected: match selected {
                    Some(s) => Some(s@),
                    None => None,
                },
            },
        }
    }

    /// States keep their internal shape: pulse frames stay bounded and
    /// board keys stay unique.
    pub open spec fn wf(&self) -> bool {
        match self {
            FlowState::Pulse { frame } => frame.wf(),
            FlowState::Board { entries } => entry_keys_unique(entries.deep_view()),
            _ => true,
        }
    }
}

impl FlowEvent {
    /// The mathematical value of this event.
    pub open spec fn eview(&self) -> EventV {
        match self {
            FlowEvent::Inc { delta } => EventV::Inc { delta: *delta },
            FlowEvent::SetValue { value } => EventV::SetValue { value: *value },
            FlowEvent::Add { value } => EventV::Add { value: *value },
            FlowEvent::Assign { key, value } => EventV::Assign { key: key@, value: value@ },
            FlowEvent::Remove { key } => EventV::Remove { key: key@ },
            FlowEvent::Turn { on } => EventV::Turn { on: *on },
            FlowEvent::Select { option } => EventV::Select {
                option: match option {
                    Some(s) => Some(s@),
                    None => None,
                },
            },
        }
    }
}

impl TimedEvent<FlowEvent> {
    /// The mathematical value of this timed event.
    pub open spec fn tview(&self) -> TimedEventV {
        TimedEventV { at: self.timestamp, event: self.event.eview() }
    }
}

/// Addition on `i64` that clips at the numeric bounds instead of wrapping.
pub open spec fn sat_add_v(a: int, b: int) -> i64 {
    if a + b > i64::MAX {
        i64::MAX
    } else if a + b < i64::MIN {
        i64::MIN
    } else {
        (a + b) as i64
    }
}

/// Clipping addition, the arithmetic of counter increments.
pub fn sat_add(a: i64, b: i64) -> (r: i64)
    ensures
        r == sat_add_v(a as int, b as int),
{
    if b >= 0 {
        if a > i64::MAX - b {
            i64::MAX
        } else {
            a + b
        }
    } else {
        if a < i64::MIN - b {
            i64::MIN
        } else {
            a + b
        }
    }
}

/// What `apply` does, as a pure function on mathematical values. An event
/// that does not belong to the state's variant leaves the state unchanged:
/// the reducer is total.
pub open spec fn apply_v(s: StateV, ev: TimedEventV) -> StateV {
    match (s, ev.event) {
        (StateV::Counter { value }, EventV::Inc { delta }) => StateV::Counter {
            value: sat_add_v(value as int, delta as int),
        },
        (StateV::Gauge { .. }, EventV::SetValue { value }) => StateV::Gauge {
            at: Some(ev.at),
            value,
        },
        (StateV::Pulse { depth, points }, EventV::Add { value }) => StateV::Pulse {
            depth,
            points: frame_push(depth, points, PulsePoint { at: ev.at, value }),
        },
        (StateV::Pulse { depth, points }, EventV::SetValue { value }) => StateV::Pulse {
            depth,
            points: frame_push(depth, points, PulsePoint { at: ev.at, value }),
        },
        (StateV::Board { entries }, EventV::Assign { key, value }) => StateV::Board {
            entries: entries.insert(key, value),
        },
        (StateV::Board { entries }, EventV::Remove { key }) => StateV::Board {
            entries: entries.remove(key),
        },
        (StateV::Switch { label, .. }, EventV::Turn { on }) => StateV::Switch { label, on },
        (StateV::Slider { label, min, max, step, .. }, EventV::SetValue { value }) => {
            StateV::Slider { label, min, max, step, value }
        },
        (StateV::Selector { label, options, .. }, EventV::Select { option }) => {
            StateV::Selector { label, options, selected: option }
        },
        _ => s,
    }
}

/// The state after a whole sequence of events.
pub open spec fn fold_v(s: StateV, evs: Seq<TimedEventV>) -> StateV
    decreases evs.len(),
{
    if evs.len() == 0 {
        s
    } else {
        apply_v(fold_v(s, evs.drop_last()), evs.last())
    }
}

/// A key occurs in the board map exactly when some entry carries it.
pub proof fn lemma_entries_map_dom(s: Seq<(Seq<char>, Seq<char>)>, k: Seq<char>)
    ensures
        entries_map(s).contains_key(k) <==> (exists|i: int|
            0 <= i < s.len() && (#[trigger] s[i]).0 == k),
    decreases s.len(),
{
    if s.len() == 0 {
    } else {
        lemma_entries_map_dom(s.drop_last(), k);
        assert(forall|i: int| 0 <= i < s.len() - 1 ==> #[trigger] s.drop_last()[i] == s[i]);
        if s.last().0 == k {
            assert((s[s.len() - 1]).0 == k);
        } else {
            if exists|i: int| 0 <= i < s.len() && (#[trigger] s[i]).0 == k {
                let i = choose|i: int| 0 <= i < s.len() && (#[trigger] s[i]).0 == k;
                assert(i < s.len() - 1);
                assert(s.drop_last()[i].0 == k);
            }
        }
    }
}

/// Overwriting the entry that carries a key is a map insert.
pub proof fn lemma_entries_map_update(
    s: Seq<(Seq<char>, Seq<char>)>,
    i: int,
    k: Seq<char>,
    v: Seq<char>,
)
    requires
        entry_keys_unique(s),
        0 <= i < s.len(),
        s[i].0 == k,
    ensures
        entries_map(s.update(i, (k, v))) == entries_map(s).insert(k, v),
    decreases s.len(),
{
    let s2 = s.update(i, (k, v));
    if i == s.len() - 1 {
        assert(s2.drop_last() =~= s.drop_last());
        assert(s.last().0 == k);
        assert(entries_map(s).insert(k, v) =~= entries_map(s.drop_last()).insert(k, v));
        assert(entries_map(s2) == entries_map(s.drop_last()).insert(k, v));
    } else {
        assert(s2.drop_last() =~= s.drop_last().update(i, (k, v)));
        assert(s2.last() == s.last());
        assert(forall|a: int| 0 <= a < s.len() - 1 ==> #[trigger] s.drop_last()[a] == s[a]);
        lemma_entries_map_update(s.drop_last(), i, k, v);
        let l0 = s.last().0;
        let l1 = s.last().1;
        assert(l0 != k);
        assert(entries_map(s2) == entries_map(s.drop_last()).insert(k, v).insert(l0, l1));
        assert(entries_map(s.drop_last()).insert(k, v).insert(l0, l1) =~= entries_map(
            s.drop_last(),
        ).insert(l0, l1).insert(k, v));
    }
}

/// Deleting the entry that carries a key is a map remove.
pub proof fn lemma_entries_map_remove(s: Seq<(Seq<char>, Seq<char>)>, i: int, k: Seq<char>)
    requires
        entry_keys_unique(s),
        0 <= i < s.len(),
        s[i].0 == k,
    ensures
        entries_map(s.remove(i)) == entries_map(s).remove(k),
    decreases s.len(),
{
    if i == s.len() - 1 {
        assert(s.remove(i) =~= s.drop_last());
        lemma_entries_map_dom(s.drop_last(), k);
        assert(forall|a: int| 0 <= a < s.len() - 1 ==> #[trigger] s.drop_last()[a] == s[a]);
        assert(!entries_map(s.drop_last()).contains_key(k));
        assert(entries_map(s).remove(k) =~= entries_map(s.drop_last()));
    } else {
        assert(forall|a: int| 0 <= a < s.len() - 1 ==> #[trigger] s.drop_last()[a] == s[a]);
        assert(s.remove(i).drop_last() =~= s.drop_last().remove(i));
        assert(s.remove(i).last() == s.last());
        lemma_entries_map_remove(s.drop_last(), i, k);
        let l0 = s.last().0;
        let l1 = s.last().1;
        assert(l0 != k);
        assert(entries_map(s.remove(i)) == entries_map(s.drop_last()).remove(k).insert(l0, l1));
        assert(entries_map(s.drop_last()).remove(k).insert(l0, l1) =~= entries_map(
            s.drop_last(),
        ).insert(l0, l1).remove(k));
    }
}

/// Finds the entry carrying a key, if any.
fn board_find(entries: &Vec<(String, String)>, key: &String) -> (r: Option<usize>)
    ensures
        match r {
            Some(i) => i < entries.deep_view().len() && entries.deep_view()[i as int].0 == key@,
            None => forall|j: int|
                0 <= j < entries.deep_view().len() ==> (#[trigger] entries.deep_view()[j]).0
                    != key@,
        },
{
    let n: usize = entries.len();
    let mut i: usize = 0;
    while i < n
        invariant
            0 <= i <= n,
            n == entries.deep_view().len(),
            forall|j: int| 0 <= j < i ==> (#[trigger] entries.deep_view()[j]).0 != key@,
        decreases n - i,
    {
        if entries[i].0 == *key {
            assert(entries.deep_view()[i as int].0 == key@);
            return Some(i);
        }
        assert(entries.deep_view()[i as int].0 != key@);
        i += 1;
    }
    None
}

/// Assigns a value to a key: overwrite when present, append when absent.
pub fn board_assign(entries: &mut Vec<(String, String)>, key: &String, value: &String)
    requires
        entry_keys_unique(old(entries).deep_view()),
    ensures
        entry_keys_unique(final(entries).deep_view()),
        entries_map(final(entries).deep_view()) == entries_map(old(entries).deep_view()).insert(
            key@,
            value@,
        ),
{
    let ghost old_dv = entries.deep_view();
    match board_find(entries, key) {
        Some(i) => {
            entries.set(i, (key.clone(), value.clone()));
            proof {
                assert(entries.deep_view() =~= old_dv.update(i as int, (key@, value@)));
                lemma_entries_map_update(old_dv, i as int, key@, value@);
                let dv = entries.deep_view();
                assert forall|a: int, b: int| 0 <= a < b < dv.len() implies (#[trigger] dv[a]).0
                    != (#[trigger] dv[b]).0 by {
                    assert(old_dv[a].0 == dv[a].0 || a == i);
                    assert(old_dv[b].0 == dv[b].0 || b == i);
                }
            }
        },
        None => {
            entries.push((key.clone(), value.clone()));
            proof {
                assert(entries.deep_view() =~= old_dv.push((key@, value@)));
                assert(entries.deep_view().drop_last() =~= old_dv);
                let dv = entries.deep_view();
                assert(entries_map(dv) == entries_map(old_dv).insert(key@, value@));
                assert forall|a: int, b: int| 0 <= a < b < dv.len() implies (#[trigger] dv[a]).0
                    != (#[trigger] dv[b]).0 by {
                    if b < dv.len() - 1 {
                        assert(dv[a] == old_dv[a] && dv[b] == old_dv[b]);
                    } else {
                        assert(dv[a] == old_dv[a] && dv[b].0 == key@);
                    }
                }
            }
        },
    }
}

/// Removes the entry carrying a key, if any.
pub fn board_remove(entries: &mut Vec<(String, String)>, key: &String)
    requires
        entry_keys_unique(old(entries).deep_view()),
    ensures
        entry_keys_unique(final(entries).deep_view()),
        entries_map(final(entries).deep_view()) == entries_map(old(entries).deep_view()).remove(
            key@,
        ),
{
    let ghost old_dv = entries.deep_view();
    match board_find(entries, key) {
        Some(i) => {
            entries.remove(i);
            proof {
                assert(entries.deep_view() =~= old_dv.remove(i as int));
                lemma_entries_map_remove(old_dv, i as int, key@);
                let dv = entries.deep_view();
                assert forall|a: int, b: int| 0 <= a < b < dv.len() implies (#[trigger] dv[a]).0
                    != (#[trigger] dv[b]).0 by {
                    let a0 = if a < i { a } else { a + 1 };
                    let b0 = if b < i { b } else { b + 1 };
                    assert(dv[a] == old_dv[a0] && dv[b] == old_dv[b0]);
                }
            }
        },
        None => {
            proof {
                lemma_entries_map_dom(old_dv, key@);
                assert(!entries_map(old_dv).contains_key(key@));
                assert(entries_map(old_dv).remove(key@) =~= entries_map(old_dv));
            }
        },
    }
}

/// A copy of an optional label, value for value.
pub fn clone_opt_text(o: &Option<String>) -> (r: Option<String>)
    ensures
        match (o, &r) {
            (Some(a), Some(b)) => a@ == b@,
            (None, None) => true,
            _ => false,
        },
{
    match o {
        Some(s) => Some(s.clone()),
        None => None,
    }
}

/// The mathematical value of a whole batch of timed events.
pub open spec fn batch_view(evs: Seq<TimedEvent<FlowEvent>>) -> Seq<TimedEventV> {
    Seq::new(evs.len(), |i: int| evs[i].tview())
}

/// A copy of an event, value for value.
pub fn clone_event(e: &FlowEvent) -> (r: FlowEvent)
    ensures
        r.eview() == e.eview(),
{
    match e {
        FlowEvent::Inc { delta } => FlowEvent::Inc { delta: *delta },
        FlowEvent::SetValue { value } => FlowEvent::SetValue { value: *value },
        FlowEvent::Add { value } => FlowEvent::Add { value: *value },
        FlowEvent::Assign { key, value } => FlowEvent::Assign {
            key: key.clone(),
            value: value.clone(),
        },
        FlowEvent::Remove { key } => FlowEvent::Remove { key: key.clone() },
        FlowEvent::Turn { on } => FlowEvent::Turn { on: *on },
        FlowEvent::Select { option } => FlowEvent::Select { option: clone_opt_text(option) },
    }
}

/// A copy of a user action, value for value.
pub fn clone_action(a: &FlowAction) -> (r: FlowAction)
    ensures
        r.aview() == a.aview(),
{
    match a {
        FlowAction::Click => FlowAction::Click,
        FlowAction::Turn { on } => FlowAction::Turn { on: *on },
        FlowAction::SetValue { value } => FlowAction::SetValue { value: *value },
        FlowAction::Select { option } => FlowAction::Select { option: clone_opt_text(option) },
    }
}

/// A copy of a batch of timed events, value for value.
pub fn clone_batch(evs: &Vec<TimedEvent<FlowEvent>>) -> (r: Vec<TimedEvent<FlowEvent>>)
    ensures
        batch_view(r@) == batch_view(evs@),
{
    let mut out: Vec<TimedEvent<FlowEvent>> = Vec::new();
    let n: usize = evs.len();
    let mut i: usize = 0;
    while i < n
        invariant
            0 <= i <= n,
            n == evs@.len(),
            batch_view(out@) =~= batch_view(evs@).take(i as int),
        decreases n - i,
    {
        let e = &evs[i];
        let ce = clone_event(&e.event);
        let te = TimedEvent { timestamp: e.timestamp, event: ce };
        let ghost prev = out@;
        out.push(te);
        proof {
            assert(batch_view(prev).len() == prev.len());
            assert(prev.len() == i as int);
            assert(out@ == prev.push(te));
            assert(te.tview() == evs@[i as int].tview());
            assert forall|j: int| 0 <= j < i as int + 1 implies #[trigger] batch_view(out@)[j]
                == batch_view(evs@).take(i as int + 1)[j] by {
                if j < i as int {
                    assert(out@[j] == prev[j]);
                    assert(batch_view(prev)[j] == batch_view(evs@).take(i as int)[j]);
                } else {
                    assert(out@[j] == te);
                }
            }
            assert(batch_view(out@) =~= batch_view(evs@).take(i as int + 1));
        }
        i += 1;
    }
    proof {
        assert(batch_view(evs@).take(n as int) =~= batch_view(evs@));
    }
    out
}

/// A copy of a list of labels, value for value.
pub fn clone_texts(v: &Vec<String>) -> (r: Vec<String>)
    ensures
        r.deep_view() == v.deep_view(),
{
    let c: Vec<String> = v.clone();
    proof {
        assert(c.deep_view() =~~= v.deep_view()) by {
            assert forall|i: int| 0 <= i < v.len() implies #[trigger] c.deep_view()[i]
                == v.deep_view()[i] by {
                assert(cloned::<String>(v[i], c[i]));
            }
        }
    }
    c
}

impl FlowState {
    /// A consistent copy of the current state, the snapshot sent to a new
    /// subscriber.
    pub fn snapshot(&self) -> (r: FlowState)
        ensures
            r.sview() == self.sview(),
            self.wf() ==> r.wf(),
    {
        match self {
            FlowState::Counter { value } => FlowState::Counter { value: *value },
            FlowState::Gauge { at, value } => FlowState::Gauge { at: *at, value: *value },
            FlowState::Pulse { frame } => FlowState::Pulse { frame: frame.duplicate() },
            FlowState::Board { entries } => {
                let mut out: Vec<(String, String)> = Vec::new();
                let n: usize = entries.len();
                let mut i: usize = 0;
                while i < n
                    invariant
                        0 <= i <= n,
                        n == entries@.len(),
                        out.deep_view() =~= entries.deep_view().take(i as int),
                    decreases n - i,
                {
                    let pair = &entries[i];
                    let k = pair.0.clone();
                    let v = pair.1.clone();
                    let ghost prev = out@;
                    let ghost prev_dv = out.deep_view();
                    out.push((k, v));
                    proof {
                        assert(prev_dv.len() == prev.len());
                        assert(prev.len() == i as int);
                        assert(out@ == prev.push((k, v)));
                        assert forall|j: int| 0 <= j < i as int + 1 implies
                            #[trigger] out.deep_view()[j]
                                == entries.deep_view().take(i as int + 1)[j] by {
                            if j < i as int {
                                assert(out@[j] == prev[j]);
                                assert(prev_dv[j] == prev[j].deep_view());
                                assert(out.deep_view()[j] == out@[j].deep_view());
                            } else {
                                assert(out@[j] == (k, v));
                                assert((k, v).deep_view() == (k@, v@));
                                assert(entries.deep_view()[j] == (entries@[j].0@, entries@[j].1@));
                            }
                        }
                        assert(out.deep_view() =~= entries.deep_view().take(i as int + 1));
                    }
                    i += 1;
                }
                proof {
                    assert(entries.deep_view().take(n as int) =~= entries.deep_view());
                    assert(out.deep_view() =~= entries.deep_view());
                }
                FlowState::Board { entries: out }
            },
            FlowState::Click { label } => FlowState::Click { label: label.clone() },
            FlowState::Switch { label, on } => FlowState::Switch { label: label.clone(), on: *on },
            FlowState::Slider { label, min, max, step, value } => FlowState::Slider {
                label: label.clone(),
                min: *min,
                max: *max,
                step: *step,
                value: *value,
            },
            FlowState::Selector { label, options, selected } => FlowState::Selector {
                label: label.clone(),
                options: clone_texts(options),
                selected: clone_opt_text(selected),
            },
        }
    }
}

/// Applies one timed event to a flow state. The reducer is total: an event
/// that does not belong to the state's variant leaves the state unchanged.
pub fn apply(state: &mut FlowState, ev: &TimedEvent<FlowEvent>)
    requires
        old(state).wf(),
    ensures
        final(state).wf(),
        final(state).sview() == apply_v(old(state).sview(), ev.tview()),
{
    let ts: u64 = ev.timestamp;
    match state {
        FlowState::Counter { value } => {
            match &ev.event {
                FlowEvent::Inc { delta } => {
                    *value = sat_add(*value, *delta);
                },
                _ => {},
            }
        },
        FlowState::Gauge { at, value } => {
            match &ev.event {
                FlowEvent::SetValue { value: v } => {
                    *at = Some(ts);
                    *value = *v;
                },
                _ => {},
            }
        },
        FlowState::Pulse { frame } => {
            match &ev.event {
                FlowEvent::Add { value: v } => {
                    frame.insert(PulsePoint { at: ts, value: *v });
                },
                FlowEvent::SetValue { value: v } => {
                    frame.insert(PulsePoint { at: ts, value: *v });
                },
                _ => {},
            }
        },
        FlowState::Board { entries } => {
            match &ev.event {
                FlowEvent::Assign { key, value } => {
                    board_assign(entries, key, value);
                },
                FlowEvent::Remove { key } => {
                    board_remove(entries, key);
                },
                _ => {},
            }
        },
        FlowState::Click { .. } => {},
        FlowState::Switch { on, .. } => {
            match &ev.event {
                FlowEvent::Turn { on: o } => {
                    *on = *o;
                },
                _ => {},
            }
        },
        FlowState::Slider { value, .. } => {
            match &ev.event {
                FlowEvent::SetValue { value: v } => {
                    *value = *v;
                },
                _ => {},
            }
        },
        FlowState::Selector { selected, .. } => {
            match &ev.event {
                FlowEvent::Select { option } => {
                    *selected = clone_opt_text(option);
                },
                _ => {},
            }
        },
    }
}

/// Folding a concatenation is folding one part after the other.
pub proof fn lemma_fold_append(s: StateV, h: Seq<TimedEventV>, b: Seq<TimedEventV>)
    ensures
        fold_v(s, h + b) == fold_v(fold_v(s, h), b),
    decreases b.len(),
{
    if b.len() == 0 {
        assert(h + b =~= h);
    } else {
        assert((h + b).drop_last() =~= h + b.drop_last());
        lemma_fold_append(s, h, b.drop_last());
        assert((h + b).last() == b.last());
    }
}

/// One step of a fold over a growing prefix.
pub proof fn lemma_fold_step(s: StateV, b: Seq<TimedEventV>, k: int)
    requires
        0 <= k < b.len(),
    ensures
        fold_v(s, b.take(k + 1)) == apply_v(fold_v(s, b.take(k)), b[k]),
{
    assert(b.take(k + 1).drop_last() =~= b.take(k));
    assert(b.take(k + 1).last() == b[k]);
}

/// `apply` is deterministic: equal states and equal event sequences give
/// equal results. The reducer is a function of its inputs alone.
pub proof fn lemma_apply_deterministic(
    s1: StateV,
    s2: StateV,
    evs1: Seq<TimedEventV>,
    evs2: Seq<TimedEventV>,
)
    requires
        s1 == s2,
        evs1 == evs2,
    ensures
        fold_v(s1, evs1) == fold_v(s2, evs2),
{
}

} // verus!

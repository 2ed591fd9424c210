//! The registry: the process-wide directory of live flows, keyed by path.
//! The first registration of a path owns it; a second one is refused and
//! leaves the first recorder untouched. Unregistering a path frees it for
//! registration again.

use vstd::prelude::*;
use crate::errors::RillError;
use crate::flow::{FlowKind, FlowState};
use crate::paths::Path;
use crate::protocol::Description;
use crate::recorder::{Recorder, Stage};

verus! {

/// One live flow: its description and its recorder.
pub struct RegEntry {
    pub description: Description,
    pub recorder: Recorder,
}

/// The first index holding the given path, or -1.
pub open spec fn find_path(paths: Seq<Seq<Seq<char>>>, p: Seq<Seq<char>>) -> int
    decreases paths.len(),
{
    if paths.len() == 0 {
        -1
    } else if paths[0] == p {
        0
    } else {
        let r = find_path(paths.skip(1), p);
        if r == -1 {
            -1
        } else {
            r + 1
        }
    }
}

/// A path occurs in the directory exactly when `find_path` finds it.
pub proof fn lemma_find_path_exists(paths: Seq<Seq<Seq<char>>>, p: Seq<Seq<char>>)
    ensures
        (find_path(paths, p) >= 0 <==> exists|i: int|
            0 <= i < paths.len() && #[trigger] paths[i] == p),
        find_path(paths, p) >= 0 ==> find_path(paths, p) < paths.len() && paths[find_path(
            paths,
            p,
        )] == p,
        find_path(paths, p) >= 0 || find_path(paths, p) == -1,
    decreases paths.len(),
{
    if paths.len() == 0 {
    } else if paths[0] == p {
    } else {
        lemma_find_path_exists(paths.skip(1), p);
        assert(forall|i: int| 0 <= i < paths.skip(1).len() ==> #[trigger] paths.skip(1)[i]
            == paths[i + 1]);
        if exists|i: int| 0 <= i < paths.len() && #[trigger] paths[i] == p {
            let i = choose|i: int| 0 <= i < paths.len() && #[trigger] paths[i] == p;
            assert(i >= 1);
            assert(paths.skip(1)[i - 1] == p);
        }
    }
}

/// The first match of a scan from the front is what `find_path` names.
pub proof fn lemma_find_path_at(paths: Seq<Seq<Seq<char>>>, p: Seq<Seq<char>>, i: int)
    requires
        0 <= i < paths.len(),
        paths[i] == p,
        forall|j: int| 0 <= j < i ==> #[trigger] paths[j] != p,
    ensures
        find_path(paths, p) == i,
    decreases paths.len(),
{
    if i == 0 {
    } else {
        assert(paths[0] != p);
        assert(forall|j: int| 0 <= j < paths.skip(1).len() ==> #[trigger] paths.skip(1)[j]
            == paths[j + 1]);
        lemma_find_path_at(paths.skip(1), p, i - 1);
    }
}

/// The directory of live flows.
pub struct Registry {
    entries: Vec<RegEntry>,
}

impl Registry {
    /// The registered entries, in registration order.
    pub closed spec fn entries_v(&self) -> Seq<RegEntry> {
        self.entries@
    }

    /// The registered paths, in registration order.
    pub open spec fn paths_v(&self) -> Seq<Seq<Seq<char>>> {
        Seq::new(self.entries_v().len(), |i: int| self.entries_v()[i].description.path.segs())
    }

    /// Paths are unique, and every recorder is well-formed.
    pub open spec fn wf(&self) -> bool {
        &&& forall|i: int| 0 <= i < self.entries_v().len() ==> (
        #[trigger] self.entries_v()[i]).recorder.wf()
        &&& forall|i: int, j: int| 0 <= i < j < self.paths_v().len() ==> #[trigger] self.paths_v()[
            i
        ] != #[trigger] self.paths_v()[j]
    }

    /// An empty directory.
    pub fn new() -> (r: Registry)
        ensures
            r.wf(),
            r.paths_v() == Seq::<Seq<Seq<char>>>::empty(),
    {
        let r = Registry { entries: Vec::new() };
        proof {
            assert(r.paths_v() =~= Seq::<Seq<Seq<char>>>::empty());
        }
        r
    }

    /// How many flows are registered.
    pub fn len(&self) -> (r: usize)
        ensures
            r == self.entries_v().len(),
    {
        self.entries.len()
    }

    /// The index serving a path, if the path is registered.
    pub fn lookup(&self, path: &Path) -> (r: Option<usize>)
        ensures
            match r {
                Some(i) => find_path(self.paths_v(), path.segs()) == i && i < self.entries_v().len()
                    && self.entries_v()[i as int].description.path.segs() == path.segs(),
                None => find_path(self.paths_v(), path.segs()) == -1,
            },
    {
        let n: usize = self.entries.len();
        let mut i: usize = 0;
        while i < n
            invariant
                0 <= i <= n,
                n == self.entries@.len(),
                forall|j: int| 0 <= j < i ==> #[trigger] self.paths_v()[j] != path.segs(),
            decreases n - i,
        {
            if self.entries[i].description.path.matches(path) {
                proof {
                    assert(self.paths_v()[i as int] == path.segs());
                    lemma_find_path_at(self.paths_v(), path.segs(), i as int);
                }
                return Some(i);
            }
            proof {
                assert(self.paths_v()[i as int] != path.segs());
            }
            i += 1;
        }
        proof {
            lemma_find_path_exists(self.paths_v(), path.segs());
        }
        None
    }

    /// Registers a flow: inserts the description under its path and spawns
    /// a fresh recorder for it. A second registration of the same path is
    /// refused and the directory, the first recorder included, is left
    /// exactly as it was.
    pub fn register(&mut self, description: Description, kind: FlowKind, state: FlowState) -> (r:
        Result<(), RillError>)
        requires
            old(self).wf(),
            state.wf(),
        ensures
            final(self).wf(),
            match r {
                Ok(()) => {
                    &&& find_path(old(self).paths_v(), description.path.segs()) == -1
                    &&& final(self).paths_v() == old(self).paths_v().push(description.path.segs())
                    &&& final(self).entries_v().len() == old(self).entries_v().len() + 1
                    &&& forall|i: int| 0 <= i < old(self).entries_v().len()
                        ==> final(self).entries_v()[i] == #[trigger] old(self).entries_v()[i]
                    &&& final(self).entries_v().last().recorder.stage_v() == Stage::Ready
                    &&& final(self).entries_v().last().recorder.kind_v() == kind
                    &&& final(self).entries_v().last().recorder.initial_v() == state.sview()
                    &&& final(self).entries_v().last().recorder.state_v() == state.sview()
                    &&& final(self).entries_v().last().recorder.history_v()
                        == Seq::<crate::flow::TimedEventV>::empty()
                    &&& final(self).entries_v().last().description == description
                },
                Err(e) => {
                    &&& e == RillError::RegistrationConflict
                    &&& find_path(old(self).paths_v(), description.path.segs()) >= 0
                    &&& final(self).entries_v() == old(self).entries_v()
                },
            },
    {
        match self.lookup(&description.path) {
            Some(_) => Err(RillError::RegistrationConflict),
            None => {
                let recorder = Recorder::new(kind, state);
                let ghost prev = self.entries@;
                let ghost p = description.path.segs();
                self.entries.push(RegEntry { description, recorder });
                proof {
                    assert(self.paths_v() =~= old(self).paths_v().push(p));
                    lemma_find_path_exists(old(self).paths_v(), p);
                    assert forall|i: int, j: int| 0 <= i < j < self.paths_v().len() implies
                        #[trigger] self.paths_v()[i] != #[trigger] self.paths_v()[j] by {
                        if j < self.paths_v().len() - 1 {
                            assert(self.paths_v()[i] == old(self).paths_v()[i]);
                            assert(self.paths_v()[j] == old(self).paths_v()[j]);
                        } else {
                            assert(self.paths_v()[i] == old(self).paths_v()[i]);
                            assert(self.paths_v()[j] == p);
                        }
                    }
                    assert forall|i: int| 0 <= i < self.entries_v().len() implies (
                    #[trigger] self.entries_v()[i]).recorder.wf() by {
                        if i < self.entries_v().len() - 1 {
                            assert(self.entries_v()[i] == old(self).entries_v()[i]);
                            assert(old(self).entries_v()[i].recorder.wf());
                        }
                    }
                }
                Ok(())
            },
        }
    }

    /// Releases a path when its recorder has terminated; the path is then
    /// absent and may be registered again. Reports whether it was present.
    pub fn unregister(&mut self, path: &Path) -> (r: bool)
        requires
            old(self).wf(),
        ensures
            final(self).wf(),
            r <==> find_path(old(self).paths_v(), path.segs()) >= 0,
            r ==> final(self).paths_v() == old(self).paths_v().remove(
                find_path(old(self).paths_v(), path.segs()),
            ),
            !r ==> final(self).entries_v() == old(self).entries_v(),
            find_path(final(self).paths_v(), path.segs()) == -1,
    {
        let found = self.lookup(path);
        match found {
            Some(i) => {
                let ghost prev = self.entries@;
                let ghost idx = i as int;
                self.entries.remove(i);
                proof {
                    prev.remove_ensures(idx);
                    old(self).paths_v().remove_ensures(idx);
                    assert(self.paths_v() =~= old(self).paths_v().remove(idx));
                    assert forall|a: int, b: int| 0 <= a < b < self.paths_v().len() implies
                        #[trigger] self.paths_v()[a] != #[trigger] self.paths_v()[b] by {
                        let a0 = if a < idx { a } else { a + 1 };
                        let b0 = if b < idx { b } else { b + 1 };
                        assert(self.paths_v()[a] == old(self).paths_v()[a0]);
                        assert(self.paths_v()[b] == old(self).paths_v()[b0]);
                    }
                    assert forall|a: int| 0 <= a < self.entries_v().len() implies (
                    #[trigger] self.entries_v()[a]).recorder.wf() by {
                        let a0 = if a < idx { a } else { a + 1 };
                        assert(self.entries_v()[a] == old(self).entries_v()[a0]);
                        assert(old(self).entries_v()[a0].recorder.wf());
                    }
                    lemma_find_path_exists(self.paths_v(), path.segs());
                    if exists|a: int| 0 <= a < self.paths_v().len() && #[trigger] self.paths_v()[a]
                        == path.segs() {
                        let a = choose|a: int|
                            0 <= a < self.paths_v().len() && #[trigger] self.paths_v()[a]
                                == path.segs();
                        let a0 = if a < idx { a } else { a + 1 };
                        assert(old(self).paths_v()[a0] == path.segs());
                        assert(old(self).paths_v()[idx] == path.segs());
                    }
                }
                true
            },
            None => {
                proof {
                    lemma_find_path_exists(self.paths_v(), path.segs());
                }
                false
            },
        }
    }

    /// A snapshot of the catalog: every registered description, for the
    /// remote describe request.
    pub fn declare_paths(&self) -> (r: Vec<Description>)
        ensures
            r@.len() == self.entries_v().len(),
            forall|i: int| 0 <= i < r@.len() ==> (#[trigger] r@[i]).path.segs()
                == self.entries_v()[i].description.path.segs() && r@[i].info@
                == self.entries_v()[i].description.info@ && r@[i].stream_type@
                == self.entries_v()[i].description.stream_type@,
    {
        let mut out: Vec<Description> = Vec::new();
        let n: usize = self.entries.len();
        let mut i: usize = 0;
        while i < n
            invariant
                0 <= i <= n,
                n == self.entries@.len(),
                out@.len() == i,
                forall|j: int| 0 <= j < i ==> (#[trigger] out@[j]).path.segs()
                    == self.entries_v()[j].description.path.segs() && out@[j].info@
                    == self.entries_v()[j].description.info@ && out@[j].stream_type@
                    == self.entries_v()[j].description.stream_type@,
            decreases n - i,
        {
            out.push(self.entries[i].description.duplicate());
            i += 1;
        }
        out
    }

    /// The recorder serving an index, for applying events or managing
    /// subscriptions. The directory keeps its shape; it is well-formed
    /// again as soon as the borrowed recorder is left well-formed.
    pub fn recorder_mut(&mut self, i: usize) -> (r: &mut Recorder)
        requires
            old(self).wf(),
            i < old(self).entries_v().len(),
        ensures
            *r == old(self).entries_v()[i as int].recorder,
            final(self).entries_v().len() == old(self).entries_v().len(),
            final(self).paths_v() =~= old(self).paths_v(),
            forall|j: int| 0 <= j < old(self).entries_v().len() && j != i
                ==> final(self).entries_v()[j] == #[trigger] old(self).entries_v()[j],
            final(self).entries_v()[i as int].description == old(self).entries_v()[
                i as int
            ].description,
            final(self).entries_v()[i as int].recorder == *final(r),
    {
        let entry = &mut self.entries[i];
        &mut entry.recorder
    }

    /// The recorder serving an index, read-only.
    pub fn recorder_at(&self, i: usize) -> (r: &Recorder)
        requires
            i < self.entries_v().len(),
        ensures
            *r == self.entries_v()[i as int].recorder,
    {
        &self.entries[i].recorder
    }
}

/// Putting a well-formed recorder back into its slot leaves the whole
/// directory well-formed: the paths and the other entries are unchanged.
pub proof fn lemma_registry_restored(a: &Registry, b: &Registry, i: int)
    requires
        a.wf(),
        0 <= i < a.entries_v().len(),
        b.entries_v().len() == a.entries_v().len(),
        b.paths_v() =~= a.paths_v(),
        forall|j: int| 0 <= j < a.entries_v().len() && j != i ==> b.entries_v()[j] == #[trigger] a.entries_v()[j],
        b.entries_v()[i].recorder.wf(),
    ensures
        b.wf(),
{
    assert forall|j: int| 0 <= j < b.entries_v().len() implies (
    #[trigger] b.entries_v()[j]).recorder.wf() by {
        if j != i {
            assert(b.entries_v()[j] == a.entries_v()[j]);
            assert(a.entries_v()[j].recorder.wf());
        }
    }
    assert forall|x: int, y: int| 0 <= x < y < b.paths_v().len() implies #[trigger] b.paths_v()[x]
        != #[trigger] b.paths_v()[y] by {
        assert(a.paths_v()[x] != a.paths_v()[y]);
    }
}

} // verus!

//! A bounded ring of samples: inserting beyond the depth evicts the oldest.

use vstd::prelude::*;

verus! {

/// What one insertion does to the contents of a frame of the given depth.
pub open spec fn frame_push<T>(depth: nat, s: Seq<T>, x: T) -> Seq<T> {
    if s.len() < depth {
        s.push(x)
    } else {
        s.skip(1).push(x)
    }
}

/// The contents after inserting a whole sequence into an empty frame.
pub open spec fn frame_run<T>(depth: nat, xs: Seq<T>) -> Seq<T>
    decreases xs.len(),
{
    if xs.len() == 0 {
        Seq::empty()
    } else {
        frame_push(depth, frame_run(depth, xs.drop_last()), xs.last())
    }
}

/// A bounded ring buffer of samples, oldest first.
#[derive(Debug)]
pub struct Frame<T> {
    depth: usize,
    items: Vec<T>,
}

impl<T> View for Frame<T> {
    type V = Seq<T>;

    closed spec fn view(&self) -> Seq<T> {
        self.items@
    }
}

impl<T> Frame<T> {
    /// The frame never holds more than `depth` samples.
    pub open spec fn wf(&self) -> bool {
        &&& self.spec_depth() >= 1
        &&& self@.len() <= self.spec_depth()
    }

    /// The declared capacity.
    pub closed spec fn spec_depth(&self) -> nat {
        self.depth as nat
    }

    /// An empty frame of the given depth.
    pub fn new(depth: usize) -> (r: Frame<T>)
        requires
            depth >= 1,
        ensures
            r.wf(),
            r@ == Seq::<T>::empty(),
            r.spec_depth() == depth,
    {
        Frame { depth, items: Vec::new() }
    }

    /// Appends a sample, evicting the oldest when the frame is full.
    pub fn insert(&mut self, x: T)
        requires
            old(self).wf(),
        ensures
            final(self).wf(),
            final(self)@ == frame_push(old(self).spec_depth(), old(self)@, x),
            final(self).spec_depth() == old(self).spec_depth(),
    {
        if self.items.len() >= self.depth {
            self.items.remove(0);
            proof {
                assert(self.items@ =~= old(self).items@.skip(1));
            }
        }
        self.items.push(x);
    }

    /// How many samples the frame holds.
    pub fn len(&self) -> (r: usize)
        ensures
            r == self@.len(),
    {
        self.items.len()
    }

    /// The declared capacity.
    pub fn depth(&self) -> (r: usize)
        ensures
            r == self.spec_depth(),
    {
        self.depth
    }

    /// The current contents, oldest first.
    pub fn items(&self) -> (r: &Vec<T>)
        ensures
            r@ == self@,
    {
        &self.items
    }

    /// The sample at the given position, oldest first.
    pub fn get(&self, i: usize) -> (r: &T)
        requires
            i < self@.len(),
        ensures
            *r == self@[i as int],
    {
        &self.items[i]
    }
}

impl<T: Copy> Frame<T> {
    /// An exact copy of the frame.
    pub fn duplicate(&self) -> (r: Frame<T>)
        ensures
            r@ == self@,
            r.spec_depth() == self.spec_depth(),
    {
        let mut items: Vec<T> = Vec::new();
        let n: usize = self.items.len();
        let mut i: usize = 0;
        while i < n
            invariant
                0 <= i <= n,
                n == self.items@.len(),
                items@ =~= self.items@.take(i as int),
            decreases n - i,
        {
            items.push(self.items[i]);
            i += 1;
        }
        proof {
            assert(items@ =~= self.items@);
        }
        Frame { depth: self.depth, items }
    }
}

/// After `N` inserts into an empty frame of depth `d`, the length is
/// `min(N, d)` and the contents are exactly the last `min(N, d)` inserted
/// samples, in insertion order.
pub proof fn lemma_frame_fill<T>(depth: nat, xs: Seq<T>)
    requires
        depth >= 1,
    ensures
        frame_run(depth, xs) =~= xs.skip(if xs.len() <= depth { 0 } else { xs.len() - depth }),
        frame_run(depth, xs).len() == if xs.len() <= depth { xs.len() } else { depth },
    decreases xs.len(),
{
    if xs.len() == 0 {
    } else {
        lemma_frame_fill(depth, xs.drop_last());
        let prev = frame_run(depth, xs.drop_last());
        if xs.drop_last().len() < depth {
            assert(frame_run(depth, xs) =~= prev.push(xs.last()));
        } else {
            assert(frame_run(depth, xs) =~= prev.skip(1).push(xs.last()));
        }
    }
}

} // verus!

//! Flow paths: ordered tuples of non-empty segments, the global identity
//! key of a flow.

use vstd::prelude::*;
use vstd::string::StringExecFns;
use crate::errors::RillError;

verus! {

/// The canonical text form joins the segments with a dot.
pub open spec fn joined_segments(segs: Seq<Seq<char>>) -> Seq<char>
    decreases segs.len(),
{
    if segs.len() == 0 {
        Seq::empty()
    } else if segs.len() == 1 {
        segs[0]
    } else {
        joined_segments(segs.drop_last()) + seq!['.'] + segs.last()
    }
}

/// An ordered tuple of non-empty string segments; the identity of a flow.
pub struct Path {
    segments: Vec<String>,
}

impl Path {
    /// The mathematical value of a path: the sequence of its segments.
    pub closed spec fn segs(&self) -> Seq<Seq<char>> {
        self.segments.deep_view()
    }

    /// A path is well-formed when it has at least one segment and none is empty.
    pub open spec fn wf(&self) -> bool {
        &&& self.segs().len() > 0
        &&& forall|i: int| 0 <= i < self.segs().len() ==> #[trigger] self.segs()[i].len() > 0
    }

    /// Builds a path from its segments; a path with no segment or with an
    /// empty segment is refused.
    pub fn from_segments(segments: Vec<String>) -> (r: Result<Path, RillError>)
        ensures
            match r {
                Ok(p) => p.segs() == segments.deep_view() && p.wf(),
                Err(e) => {
                    &&& e == RillError::ProtocolViolation
                    &&& (segments.deep_view().len() == 0 || exists|i: int|
                        0 <= i < segments.deep_view().len()
                            && #[trigger] segments.deep_view()[i].len() == 0)
                },
            },
    {
        if segments.len() == 0 {
            return Err(RillError::ProtocolViolation);
        }
        let mut i: usize = 0;
        while i < segments.len()
            invariant
                0 <= i <= segments.len(),
                forall|j: int| 0 <= j < i ==> #[trigger] segments.deep_view()[j].len() > 0,
            decreases segments.len() - i,
        {
            if segments[i].as_str().is_empty() {
                assert(segments.deep_view()[i as int].len() == 0);
                return Err(RillError::ProtocolViolation);
            }
            assert(segments.deep_view()[i as int] == segments@[i as int]@);
            i += 1;
        }
        Ok(Path { segments })
    }

    /// The segments of the path.
    pub fn segments(&self) -> (r: &Vec<String>)
        ensures
            r.deep_view() == self.segs(),
    {
        &self.segments
    }

    /// How many segments the path has.
    pub fn arity(&self) -> (r: usize)
        ensures
            r == self.segs().len(),
    {
        self.segments.len()
    }

    /// Segment-wise equality: the identity test of the registry.
    pub fn matches(&self, other: &Path) -> (r: bool)
        ensures
            r <==> self.segs() =~~= other.segs(),
    {
        if self.segments.len() != other.segments.len() {
            assert(self.segs().len() != other.segs().len());
            return false;
        }
        let n: usize = self.segments.len();
        let mut i: usize = 0;
        while i < n
            invariant
                0 <= i <= n,
                n == self.segs().len() && n == other.segs().len(),
                forall|j: int| 0 <= j < i ==> #[trigger] self.segs()[j] == other.segs()[j],
            decreases n - i,
        {
            if !(self.segments[i] == other.segments[i]) {
                assert(self.segs()[i as int] != other.segs()[i as int]);
                return false;
            }
            assert(self.segs()[i as int] == other.segs()[i as int]);
            i += 1;
        }
        true
    }

    /// An exact copy of the path.
    pub fn duplicate(&self) -> (r: Path)
        ensures
            r.segs() == self.segs(),
    {
        let segments: Vec<String> = self.segments.clone();
        proof {
            assert(segments.deep_view() =~~= self.segments.deep_view()) by {
                assert forall|i: int| 0 <= i < self.segments.len() implies
                    #[trigger] segments.deep_view()[i] == self.segments.deep_view()[i] by {
                    assert(cloned::<String>(self.segments[i], segments[i]));
                }
            }
        }
        Path { segments }
    }

    /// The canonical text form: segments joined by a dot.
    pub fn to_text(&self) -> (r: String)
        ensures
            r@ == joined_segments(self.segs()),
    {
        let mut out: String = String::new();
        let n: usize = self.segments.len();
        let mut i: usize = 0;
        while i < n
            invariant
                0 <= i <= n,
                n == self.segs().len(),
                out@ == joined_segments(self.segs().take(i as int)),
            decreases n - i,
        {
            if i > 0 {
                proof {
                    reveal_strlit(".");
                    assert(("."@) =~= seq!['.']);
                }
                out.append(".");
            }
            out.append(self.segments[i].as_str());
            proof {
                let taken = self.segs().take(i as int + 1);
                assert(taken.drop_last() =~~= self.segs().take(i as int));
                assert(taken.last() == self.segs()[i as int]);
            }
            i += 1;
        }
        proof {
            assert(self.segs().take(n as int) =~~= self.segs());
        }
        out
    }
}

} // verus!

//! The vector index's bookkeeping: the statistics it reports about its
//! graph, and the walk over the on-disk graph (which node to read next).
use vstd::prelude::*;

verus! {

/// Index statistics.
#[derive(Debug, Clone, Copy, PartialEq, Eq, Structural)]
pub struct IndexStats {
    /// Number of layers of the graph.
    pub num_layers: usize,
    /// Number of nodes in the bottom layer (all nodes).
    pub num_nodes: usize,
    /// Most connections kept per node.
    pub max_connections: usize,
    /// Candidate list size used while building.
    pub ef_construction: usize,
}


/// Most nodes one walk over the on-disk graph reads.
pub const MAX_WALK_STEPS: usize = 20;

/// The smallest of `s`.
pub open spec fn spec_min(s: Seq<u64>) -> u64
    recommends
        s.len() > 0,
    decreases s.len(),
{
    if s.len() <= 1 {
        s[0]
    } else {
        let rest = spec_min(s.drop_last());
        if s.last() < rest { s.last() } else { rest }
    }
}

/// A greedy walk over the on-disk graph: from the entry node it moves to
/// the neighbor at the smallest offset, never reads a node twice, and stops
/// after `MAX_WALK_STEPS` nodes, at a node it has seen, at a node that could
/// not be read, or at a node without neighbors.
pub struct GraphWalk {
    current: u64,
    visited: Vec<u64>,
    done: bool,
}

impl GraphWalk {
    /// The offset the walk is at.
    pub closed spec fn spec_current(&self) -> u64 {
        self.current
    }

    /// The offsets read so far, in order.
    pub closed spec fn spec_visited(&self) -> Seq<u64> {
        self.visited@
    }

    /// Whether the walk has ended.
    pub closed spec fn spec_done(&self) -> bool {
        self.done
    }

    /// The walk's invariant: no offset read twice, and no more than
    /// `MAX_WALK_STEPS` read.
    pub open spec fn wf(&self) -> bool {
        &&& self.spec_visited().no_duplicates()
        &&& self.spec_visited().len() <= MAX_WALK_STEPS
    }

    /// A walk that starts at `entry`.
    pub fn new(entry: u64) -> (w: Self)
        ensures
            w.wf(),
            w.spec_current() == entry,
            w.spec_visited() == Seq::<u64>::empty(),
            !w.spec_done(),
    {
        GraphWalk { current: entry, visited: Vec::new(), done: false }
    }

    fn has_visited(&self, offset: u64) -> (b: bool)
        ensures
            b == self.spec_visited().contains(offset),
    {
        let mut i: usize = 0;
        while i < self.visited.len()
            invariant
                i <= self.visited@.len(),
                forall|j: int| 0 <= j < i ==> self.visited@[j] != offset,
            decreases self.visited@.len() - i,
        {
            if self.visited[i] == offset {
                return true;
            }
            i = i + 1;
        }
        false
    }

    /// The offset of the next node to read, recorded as read; `None` once
    /// the walk has ended (it then stays ended).
    pub fn next_offset(&mut self) -> (r: Option<u64>)
        requires
            old(self).wf(),
        ensures
            final(self).wf(),
            final(self).spec_current() == old(self).spec_current(),
            if old(self).spec_done() || old(self).spec_visited().len() >= MAX_WALK_STEPS
                || old(self).spec_visited().contains(old(self).spec_current()) {
                &&& r is None
                &&& final(self).spec_done()
                &&& final(self).spec_visited() == old(self).spec_visited()
            } else {
                &&& r == Some(old(self).spec_current())
                &&& !final(self).spec_done()
                &&& final(self).spec_visited() == old(self).spec_visited().push(old(self).spec_current())
            },
    {
        if self.done || self.visited.len() >= MAX_WALK_STEPS || self.has_visited(self.current) {
            self.done = true;
            return None;
        }
        let ghost before = self.visited@;
        self.visited.push(self.current);
        proof {
            assert forall|i: int, j: int| 0 <= i < j < self.visited@.len() implies self.visited@[i] != self.visited@[j] by {
                if j == before.len() {
                    assert(before.contains(before[i]));
                }
            }
        }
        Some(self.current)
    }

    /// Moves on from the node just read, given its neighbors' offsets
    /// (`None` when the node could not be read): to the smallest neighbor,
    /// or to the end of the walk when there is none.
    pub fn advance(&mut self, neighbors: Option<&[u64]>)
        requires
            old(self).wf(),
        ensures
            final(self).wf(),
            final(self).spec_visited() == old(self).spec_visited(),
            match neighbors {
                Some(ns) if ns@.len() > 0 => {
                    &&& final(self).spec_current() == spec_min(ns@)
                    &&& final(self).spec_done() == old(self).spec_done()
                },
                _ => final(self).spec_done() && final(self).spec_current() == old(self).spec_current(),
            },
    {
        match neighbors {
            Some(ns) => {
                if ns.len() == 0 {
                    self.done = true;
                    return;
                }
                let mut best = ns[0];
                let mut i: usize = 1;
                assert(ns@.take(1) =~= seq![ns@[0]]);
                while i < ns.len()
                    invariant
                        1 <= i <= ns@.len(),
                        best == spec_min(ns@.take(i as int)),
                    decreases ns@.len() - i,
                {
                    assert(ns@.take(i + 1).drop_last() =~= ns@.take(i as int));
                    if ns[i] < best {
                        best = ns[i];
                    }
                    i = i + 1;
                }
                assert(ns@.take(ns@.len() as int) =~= ns@);
                self.current = best;
            },
            None => {
                self.done = true;
            },
        }
    }

    /// The offsets read so far, in order.
    pub fn visited(&self) -> (v: &Vec<u64>)
        ensures
            v@ == self.spec_visited(),
    {
        &self.visited
    }
}

/// The smallest neighbor is one of the neighbors and no neighbor is smaller.
pub proof fn lemma_min_is_least(s: Seq<u64>)
    requires
        s.len() > 0,
    ensures
        s.contains(spec_min(s)),
        forall|i: int| 0 <= i < s.len() ==> spec_min(s) <= #[trigger] s[i],
    decreases s.len(),
{
    if s.len() > 1 {
        lemma_min_is_least(s.drop_last());
        let rest = s.drop_last();
        assert forall|i: int| 0 <= i < s.len() implies spec_min(s) <= #[trigger] s[i] by {
            if i < s.len() - 1 {
                assert(s[i] == rest[i]);
            }
        }
        if spec_min(s) == spec_min(rest) {
            let k = choose|k: int| 0 <= k < rest.len() && rest[k] == spec_min(rest);
            assert(s[k] == rest[k]);
        } else {
            assert(s[s.len() - 1] == s.last());
        }
    } else {
        assert(s[0] == spec_min(s));
    }
}

} // verus!

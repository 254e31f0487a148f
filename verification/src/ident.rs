use vstd::prelude::*;

verus! {

/// A stable, process-unique token for one node of the view/widget tree.
///
/// A node keeps its token across rebuilds as long as it stays structurally
/// compatible with its previous description; per-node private state and
/// in-flight asynchronous work are keyed by it.
#[derive(Clone, Copy, PartialEq, Eq, Hash, Debug, Structural)]
pub struct NodeId {
    pub raw: u64,
}

/// The build context threaded through every build/rebuild call.
///
/// It owns the identity allocator (monotonic, never reused within a process),
/// the current root-to-node path, and the set of identities with outstanding
/// asynchronous work, so that no ambient global state is needed.
pub struct Cx {
    /// The path of identities from the root to the node currently being
    /// built or rebuilt. Strict stack discipline: one push per entered node,
    /// popped on exit.
    pub id_path: Vec<NodeId>,
    /// The next raw identity value to hand out.
    pub next_raw: u64,
    /// Identities of nodes that registered outstanding asynchronous work
    /// during the current build/rebuild pass.
    pub pending_async: Vec<NodeId>,
}

impl Cx {
    pub open spec fn path(&self) -> Seq<NodeId> {
        self.id_path@
    }

    pub open spec fn next(&self) -> int {
        self.next_raw as int
    }

    pub open spec fn pending(&self) -> Seq<NodeId> {
        self.pending_async@
    }

    pub open spec fn pending_set(&self) -> Set<NodeId> {
        self.pending_async@.to_set()
    }

    /// The pending list holds each identity at most once.
    pub open spec fn wf(&self) -> bool {
        forall|i: int, j: int|
            0 <= i < j < self.pending_async@.len() ==> self.pending_async@[i]
                != self.pending_async@[j]
    }

    pub fn new() -> (cx: Cx)
        ensures
            cx.path() == Seq::<NodeId>::empty(),
            cx.next() == 1,
            cx.pending() == Seq::<NodeId>::empty(),
            cx.wf(),
    {
        let cx = Cx { id_path: Vec::new(), next_raw: 1, pending_async: Vec::new() };
        proof {
            assert(cx.path() =~= Seq::<NodeId>::empty());
            assert(cx.pending() =~= Seq::<NodeId>::empty());
        }
        cx
    }

    /// Allocate a fresh identity. Identities are handed out in strictly
    /// increasing order, so none is ever reused within a process lifetime.
    pub fn fresh_id(&mut self) -> (id: NodeId)
        requires
            old(self).next_raw < u64::MAX,
        ensures
            id.raw == old(self).next(),
            final(self).next() == old(self).next() + 1,
            final(self).path() == old(self).path(),
            final(self).pending() == old(self).pending(),
            final(self).wf() == old(self).wf(),
    {
        let id = NodeId { raw: self.next_raw };
        self.next_raw = self.next_raw + 1;
        id
    }

    /// Enter a node: push its identity onto the current path.
    pub fn push_id(&mut self, id: NodeId)
        ensures
            final(self).path() == old(self).path().push(id),
            final(self).next() == old(self).next(),
            final(self).pending() == old(self).pending(),
            final(self).wf() == old(self).wf(),
    {
        self.id_path.push(id);
    }

    /// Leave a node: pop its identity from the current path.
    pub fn pop_id(&mut self)
        requires
            old(self).path().len() > 0,
        ensures
            final(self).path() == old(self).path().drop_last(),
            final(self).next() == old(self).next(),
            final(self).pending() == old(self).pending(),
            final(self).wf() == old(self).wf(),
    {
        let _ = self.id_path.pop();
        proof {
            assert(self.id_path@ =~= old(self).id_path@.drop_last());
        }
    }

    /// True when no build/rebuild is in progress at this point: the current
    /// path is empty.
    pub fn is_empty(&self) -> (b: bool)
        ensures
            b == (self.path().len() == 0),
    {
        self.id_path.len() == 0
    }

    /// The current path, from the root down to the node being built,
    /// for handing to a node that must later be addressed (messages,
    /// asynchronous completions).
    pub fn current_path(&self) -> (p: Vec<NodeId>)
        ensures
            p@ == self.path(),
    {
        let mut p: Vec<NodeId> = Vec::new();
        let mut i: usize = 0;
        while i < self.id_path.len()
            invariant
                i <= self.id_path@.len(),
                p@ == self.id_path@.subrange(0, i as int),
            decreases self.id_path@.len() - i,
        {
            p.push(self.id_path[i]);
            i = i + 1;
            proof {
                assert(p@ =~= self.id_path@.subrange(0, i as int));
            }
        }
        proof {
            assert(p@ =~= self.id_path@);
        }
        p
    }

    /// Register outstanding asynchronous work for `id`.
    pub fn add_pending_async(&mut self, id: NodeId)
        requires
            old(self).wf(),
        ensures
            final(self).pending_set() == old(self).pending_set().insert(id),
            final(self).path() == old(self).path(),
            final(self).next() == old(self).next(),
            final(self).wf(),
    {
        if !contains_id(&self.pending_async, id) {
            self.pending_async.push(id);
            proof {
                assert(self.pending_async@.drop_last() =~= old(self).pending_async@);
                assert(forall|i: int, j: int|
                    0 <= i < j < self.pending_async@.len() ==> self.pending_async@[i]
                        != self.pending_async@[j]) by {
                    assert(forall|i: int|
                        0 <= i < old(self).pending_async@.len() ==> self.pending_async@[i]
                            == old(self).pending_async@[i]);
                };
                assert(self.pending_set() =~= old(self).pending_set().insert(id)) by {
                    assert(self.pending_async@.last() == id);
                    assert(forall|x: NodeId|
                        self.pending_async@.contains(x) <==> (old(self).pending_async@.contains(x)
                            || x == id)) by {
                        assert(forall|i: int|
                            0 <= i < old(self).pending_async@.len()
                                ==> old(self).pending_async@[i] == self.pending_async@[i]);
                    };
                };
            }
        } else {
            proof {
                assert(self.pending_set() =~= old(self).pending_set().insert(id));
            }
        }
    }

    /// Hand the pass's pending-async registrations out and clear them,
    /// so that the next pass starts from an empty registry.
    pub fn take_pending(&mut self) -> (p: Vec<NodeId>)
        ensures
            p@ == old(self).pending(),
            final(self).pending() == Seq::<NodeId>::empty(),
            final(self).path() == old(self).path(),
            final(self).next() == old(self).next(),
            final(self).wf(),
    {
        let mut p: Vec<NodeId> = Vec::new();
        core::mem::swap(&mut p, &mut self.pending_async);
        proof {
            assert(self.pending_async@ =~= Seq::<NodeId>::empty());
        }
        p
    }

    /// Drop all pending-async registrations (start of a new pass).
    pub fn clear_pending(&mut self)
        ensures
            final(self).pending() == Seq::<NodeId>::empty(),
            final(self).path() == old(self).path(),
            final(self).next() == old(self).next(),
            final(self).wf(),
    {
        self.pending_async = Vec::new();
        proof {
            assert(self.pending_async@ =~= Seq::<NodeId>::empty());
        }
    }
}

/// Whether `v` holds `id`.
pub fn contains_id(v: &Vec<NodeId>, id: NodeId) -> (b: bool)
    ensures
        b == v@.contains(id),
{
    let mut i: usize = 0;
    while i < v.len()
        invariant
            i <= v@.len(),
            forall|k: int| 0 <= k < i ==> v@[k] != id,
        decreases v@.len() - i,
    {
        if v[i] == id {
            return true;
        }
        i = i + 1;
    }
    false
}

} // verus!

use std::collections::HashMap;

use vstd::prelude::*;
use vstd::std_specs::hash::spec_keys_iter;
use vstd::std_specs::iter::IteratorSpec;

use crate::node_id::NodeId;

verus! {

broadcast use vstd::std_specs::hash::group_hash_axioms;

// ---------------------------------------------------------------------------
// A map from node to value, held in a hash map keyed by the node's number
// ---------------------------------------------------------------------------

/// Per-node state of the renderer (closing animations, offscreen images).
#[derive(Debug)]
pub struct NodeMap<V> {
    inner: HashMap<u64, V>,
}

/// A prefix one longer holds what the shorter one holds and the next node.
pub proof fn lemma_take_one_more(s: Seq<NodeId>, i: int, k: NodeId)
    requires
        0 <= i < s.len(),
    ensures
        s.take(i + 1).contains(k) <==> (s.take(i).contains(k) || k == s[i]),
{
    let longer = s.take(i + 1);
    let shorter = s.take(i);
    if longer.contains(k) {
        let j = choose|j: int| 0 <= j < longer.len() && #[trigger] longer[j] == k;
        if j < i {
            assert(shorter[j] == k);
        }
    }
    if shorter.contains(k) {
        let j = choose|j: int| 0 <= j < shorter.len() && #[trigger] shorter[j] == k;
        assert(longer[j] == k);
    }
    if k == s[i] {
        assert(longer[i] == k);
    }
}

impl<V> NodeMap<V> {
    /// The entries as a map from node to value.
    pub closed spec fn map(&self) -> Map<NodeId, V> {
        Map::new(|n: NodeId| self.inner@.contains_key(n.0), |n: NodeId| self.inner@[n.0])
    }

    pub fn new() -> (r: Self)
        ensures
            r.map() == Map::<NodeId, V>::empty(),
    {
        let r = NodeMap { inner: HashMap::new() };
        proof {
            assert(r.map() =~= Map::<NodeId, V>::empty());
        }
        r
    }

    /// Number of nodes with an entry.
    pub fn len(&self) -> (r: usize)
        ensures
            r == self.map().dom().len(),
            self.map().dom().finite(),
    {
        let ghost f = |k: u64| NodeId(k);
        proof {
            let d = self.inner@.dom();
            assert(d.finite());
            assert(self.map().dom() =~= d.map(f)) by {
                assert forall|n: NodeId| #[trigger] self.map().dom().contains(n) implies d.map(
                    f,
                ).contains(n) by {
                    assert(f(n.0) == n);
                }
            }
            assert(vstd::relations::injective_on(f, d));
            vstd::set_lib::lemma_map_size(d, self.map().dom(), f);
        }
        self.inner.len()
    }

    /// The entry of `node`, if it has one.
    pub fn get(&self, node: NodeId) -> (r: Option<&V>)
        ensures
            match r {
                Some(v) => self.map().contains_key(node) && *v == self.map()[node],
                None => !self.map().contains_key(node),
            },
    {
        self.inner.get(&node.0)
    }

    /// Sets the entry of `node`, replacing any earlier one.
    pub fn insert(&mut self, node: NodeId, value: V)
        ensures
            final(self).map() == old(self).map().insert(node, value),
    {
        let _ = self.inner.insert(node.0, value);
        proof {
            assert(self.map() =~= old(self).map().insert(node, value));
        }
    }

    /// Takes out the entry of `node`, if it has one.
    pub fn remove(&mut self, node: NodeId) -> (r: Option<V>)
        ensures
            final(self).map() == old(self).map().remove(node),
            match r {
                Some(v) => old(self).map().contains_key(node) && v == old(self).map()[node],
                None => !old(self).map().contains_key(node),
            },
    {
        let r = self.inner.remove(&node.0);
        proof {
            assert(self.map() =~= old(self).map().remove(node));
        }
        r
    }

    /// The nodes that have an entry, each once, in no particular order.
    pub fn nodes(&self) -> (r: Vec<NodeId>)
        ensures
            r@.no_duplicates(),
            forall|k: NodeId| #[trigger] r@.contains(k) <==> self.map().contains_key(k),
    {
        let mut out: Vec<NodeId> = Vec::new();
        for k in it: self.inner.keys()
            invariant
                out@.len() == it.index(),
                it.seq() == spec_keys_iter(&self.inner).remaining(),
                forall|j: int| 0 <= j < it.index() ==> #[trigger] out@[j] == NodeId(*it.seq()[j]),
        {
            out.push(NodeId(*k));
        }
        proof {
            let ks = spec_keys_iter(&self.inner).remaining();
            assert(ks.unref().to_set() == self.inner@.dom());
            assert forall|k: NodeId| #[trigger] out@.contains(k) <==> self.map().contains_key(k) by {
                if out@.contains(k) {
                    let j = choose|j: int| 0 <= j < out@.len() && out@[j] == k;
                    assert(ks.unref()[j] == k.0);
                    assert(ks.unref().to_set().contains(k.0));
                }
                if self.map().contains_key(k) {
                    assert(ks.unref().to_set().contains(k.0));
                    assert(ks.unref().contains(k.0));
                    let j = choose|j: int| 0 <= j < ks.len() && ks.unref()[j] == k.0;
                    assert(out@[j] == k);
                }
            }
        }
        out
    }

    /// Drops the entries of the nodes in `ids` (all the nodes with an
    /// entry) whose flag in `keep` is clear; the flags are those of `pred`.
    pub(crate) fn drop_unmarked(
        &mut self,
        ids: &Vec<NodeId>,
        keep: &Vec<bool>,
        Ghost(pred): Ghost<spec_fn(NodeId, V) -> bool>,
    )
        requires
            keep@.len() == ids@.len(),
            forall|k: NodeId| #[trigger] ids@.contains(k) <==> old(self).map().contains_key(k),
            forall|j: int|
                0 <= j < ids@.len() ==> keep@[j] == pred(
                    #[trigger] ids@[j],
                    old(self).map()[ids@[j]],
                ),
        ensures
            forall|k: NodeId|
                #[trigger] final(self).map().contains_key(k) <==> (old(self).map().contains_key(k)
                    && pred(k, old(self).map()[k])),
            forall|k: NodeId|
                #[trigger] final(self).map().contains_key(k) ==> final(self).map()[k] == old(
                    self,
                ).map()[k],
    {
        let ghost m0 = self.map();
        let mut i: usize = 0;
        while i < ids.len()
            invariant
                i <= ids@.len(),
                keep@.len() == ids@.len(),
                forall|k: NodeId| #[trigger] ids@.contains(k) <==> m0.contains_key(k),
                forall|j: int| 0 <= j < ids@.len() ==> keep@[j] == pred(#[trigger] ids@[j], m0[ids@[j]]),
                forall|k: NodeId|
                    #[trigger] self.map().contains_key(k) <==> (m0.contains_key(k) && !(
                    ids@.take(i as int).contains(k) && !pred(k, m0[k]))),
                forall|k: NodeId| #[trigger] self.map().contains_key(k) ==> self.map()[k] == m0[k],
            decreases ids.len() - i,
        {
            let ghost before = self.map();
            let id: NodeId = ids[i];
            proof {
                assert(ids@.take(i + 1) =~= ids@.take(i as int).push(id));
                assert(ids@.contains(id));
            }
            if !keep[i] {
                let _ = self.remove(id);
            }
            proof {
                assert forall|k: NodeId| #[trigger] self.map().contains_key(k) <==> (m0.contains_key(k)
                    && !(ids@.take(i + 1).contains(k) && !pred(k, m0[k]))) by {
                    lemma_take_one_more(ids@, i as int, k);
                }
                assert forall|k: NodeId| #[trigger] self.map().contains_key(k) implies self.map()[k]
                    == m0[k] by {
                    assert(before.contains_key(k));
                }
            }
            i = i + 1;
        }
        proof {
            assert(ids@.take(ids@.len() as int) =~= ids@);
        }
    }

    /// Drops every entry.
    pub fn clear(&mut self)
        ensures
            final(self).map() == Map::<NodeId, V>::empty(),
    {
        self.inner.clear();
        proof {
            assert(self.map() =~= Map::<NodeId, V>::empty());
        }
    }
}

} // verus!

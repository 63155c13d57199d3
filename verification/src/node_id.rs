use vstd::prelude::*;

verus! {

/// Identifier of a node of the field (a window, a cluster, ...).
#[derive(Clone, Copy, Debug, PartialEq, Eq, Hash, Structural)]
pub struct NodeId(pub u64);

impl NodeId {
    pub fn new(raw: u64) -> (r: NodeId)
        ensures
            r.0 == raw,
    {
        NodeId(raw)
    }

    pub fn as_u64(self) -> (r: u64)
        ensures
            r == self.0,
    {
        self.0
    }
}

} // verus!

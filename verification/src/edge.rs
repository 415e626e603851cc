//! The shape of an edge: where it starts, where it ends and what it means.

use crate::id::NodeId;
use crate::schema::EdgeKind;
use vstd::prelude::*;

verus! {

/// A directed edge between two nodes, with its kind.
#[derive(Debug, Clone, Copy, PartialEq, Eq, Hash, Structural)]
pub struct EdgeEndpoint {
    source: NodeId,
    target: NodeId,
    kind: EdgeKind,
}

impl View for EdgeEndpoint {
    type V = (NodeId, NodeId, EdgeKind);

    closed spec fn view(&self) -> (NodeId, NodeId, EdgeKind) {
        (self.source, self.target, self.kind)
    }
}

impl EdgeEndpoint {
    /// The edge from `source` to `target` of the given kind.
    pub fn new(source: NodeId, target: NodeId, kind: EdgeKind) -> (r: Self)
        ensures
            r@ == (source, target, kind),
    {
        EdgeEndpoint { source, target, kind }
    }

    /// The node that the edge leaves.
    pub fn source(self) -> (r: NodeId)
        ensures
            r == self@.0,
    {
        self.source
    }

    /// The node that the edge reaches.
    pub fn target(self) -> (r: NodeId)
        ensures
            r == self@.1,
    {
        self.target
    }

    /// What the edge means.
    pub fn kind(self) -> (r: EdgeKind)
        ensures
            r == self@.2,
    {
        self.kind
    }
}

}

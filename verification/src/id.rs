//! Identifiers. Each kind of identifier is a type of its own, so that a node
//! number cannot stand where an edge number is meant.

use vstd::prelude::*;

verus! {

/// Identifies a node.
#[derive(Debug, Clone, Copy, PartialEq, Eq, Hash, Structural)]
pub struct NodeId {
    value: u64,
}

impl View for NodeId {
    type V = nat;

    closed spec fn view(&self) -> nat {
        self.value as nat
    }
}

impl NodeId {
    /// The identifier with the given number.
    pub fn new(value: u64) -> (r: Self)
        ensures
            r@ == value,
    {
        NodeId { value }
    }

    /// The number of this identifier.
    pub fn get(self) -> (r: u64)
        ensures
            r == self@,
    {
        self.value
    }
}

/// Identifies an edge.
#[derive(Debug, Clone, Copy, PartialEq, Eq, Hash, Structural)]
pub struct EdgeId {
    value: u64,
}

impl View for EdgeId {
    type V = nat;

    closed spec fn view(&self) -> nat {
        self.value as nat
    }
}

impl EdgeId {
    /// The identifier with the given number.
    pub fn new(value: u64) -> (r: Self)
        ensures
            r@ == value,
    {
        EdgeId { value }
    }

    /// The number of this identifier.
    pub fn get(self) -> (r: u64)
        ensures
            r == self@,
    {
        self.value
    }
}

/// Identifies a memory.
#[derive(Debug, Clone, Copy, PartialEq, Eq, Hash, Structural)]
pub struct MemoryId {
    value: u64,
}

impl View for MemoryId {
    type V = nat;

    closed spec fn view(&self) -> nat {
        self.value as nat
    }
}

impl MemoryId {
    /// The identifier with the given number.
    pub fn new(value: u64) -> (r: Self)
        ensures
            r@ == value,
    {
        MemoryId { value }
    }

    /// The number of this identifier.
    pub fn get(self) -> (r: u64)
        ensures
            r == self@,
    {
        self.value
    }
}

/// Identifies a peer.
#[derive(Debug, Clone, Copy, PartialEq, Eq, Hash, Structural)]
pub struct PeerId {
    value: u64,
}

impl View for PeerId {
    type V = nat;

    closed spec fn view(&self) -> nat {
        self.value as nat
    }
}

impl PeerId {
    /// The identifier with the given number.
    pub fn new(value: u64) -> (r: Self)
        ensures
            r@ == value,
    {
        PeerId { value }
    }

    /// The number of this identifier.
    pub fn get(self) -> (r: u64)
        ensures
            r == self@,
    {
        self.value
    }
}

}

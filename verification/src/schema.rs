//! The closed vocabularies of the graph, with the keys they are stored under.

use vstd::prelude::*;

verus! {

/// The four kinds of node.
#[derive(Debug, Clone, Copy, PartialEq, Eq, Hash, Structural)]
#[non_exhaustive]
pub enum NodeKind {
    Source,
    Fragment,
    Entity,
    Memory,
}

impl NodeKind {
    /// The stable key of this kind.
    pub open spec fn key(self) -> Seq<char> {
        match self {
            NodeKind::Source => "source"@,
            NodeKind::Fragment => "fragment"@,
            NodeKind::Entity => "entity"@,
            NodeKind::Memory => "memory"@,
        }
    }

    /// The stable key of this kind.
    pub fn as_str(self) -> (r: &'static str)
        ensures
            r@ == self.key(),
    {
        match self {
            NodeKind::Source => "source",
            NodeKind::Fragment => "fragment",
            NodeKind::Entity => "entity",
            NodeKind::Memory => "memory",
        }
    }

    /// Two kinds with the same key are the same kind.
    pub proof fn key_injective(self, other: Self)
        requires
            self.key() == other.key(),
        ensures
            self == other,
    {
        reveal_strlit("source");
        reveal_strlit("fragment");
        reveal_strlit("entity");
        reveal_strlit("memory");
        let (a, b) = (self.key(), other.key());
        assert(a.len() == b.len());
        assert(a[0] == b[0] && a[1] == b[1] && a[2] == b[2] && a[3] == b[3]);
    }
}

/// What a memory node records.
#[derive(Debug, Clone, Copy, PartialEq, Eq, Hash, Structural)]
#[non_exhaustive]
pub enum MemoryKind {
    Fact,
    State,
    Preference,
    Event,
    Procedure,
    Decision,
    Problem,
    Hypothesis,
    Evidence,
    Resolution,
    Guardrail,
    Summary,
}

impl MemoryKind {
    /// The stable key of this kind.
    pub open spec fn key(self) -> Seq<char> {
        match self {
            MemoryKind::Fact => "fact"@,
            MemoryKind::State => "state"@,
            MemoryKind::Preference => "preference"@,
            MemoryKind::Event => "event"@,
            MemoryKind::Procedure => "procedure"@,
            MemoryKind::Decision => "decision"@,
            MemoryKind::Problem => "problem"@,
            MemoryKind::Hypothesis => "hypothesis"@,
            MemoryKind::Evidence => "evidence"@,
            MemoryKind::Resolution => "resolution"@,
            MemoryKind::Guardrail => "guardrail"@,
            MemoryKind::Summary => "summary"@,
        }
    }

    /// The stable key of this kind.
    pub fn as_str(self) -> (r: &'static str)
        ensures
            r@ == self.key(),
    {
        match self {
            MemoryKind::Fact => "fact",
            MemoryKind::State => "state",
            MemoryKind::Preference => "preference",
            MemoryKind::Event => "event",
            MemoryKind::Procedure => "procedure",
            MemoryKind::Decision => "decision",
            MemoryKind::Problem => "problem",
            MemoryKind::Hypothesis => "hypothesis",
            MemoryKind::Evidence => "evidence",
            MemoryKind::Resolution => "resolution",
            MemoryKind::Guardrail => "guardrail",
            MemoryKind::Summary => "summary",
        }
    }

    /// Two kinds with the same key are the same kind.
    pub proof fn key_injective(self, other: Self)
        requires
            self.key() == other.key(),
        ensures
            self == other,
    {
        reveal_strlit("fact");
        reveal_strlit("state");
        reveal_strlit("preference");
        reveal_strlit("event");
        reveal_strlit("procedure");
        reveal_strlit("decision");
        reveal_strlit("problem");
        reveal_strlit("hypothesis");
        reveal_strlit("evidence");
        reveal_strlit("resolution");
        reveal_strlit("guardrail");
        reveal_strlit("summary");
        let (a, b) = (self.key(), other.key());
        assert(a.len() == b.len());
        assert(a[0] == b[0] && a[1] == b[1] && a[2] == b[2] && a[3] == b[3]);
    }
}

/// What an entity node stands for.
#[derive(Debug, Clone, Copy, PartialEq, Eq, Hash, Structural)]
#[non_exhaustive]
pub enum EntityKind {
    Person,
    Agent,
    Organization,
    Project,
    File,
    Tool,
    Concept,
    Place,
    Other,
}

impl EntityKind {
    /// The stable key of this kind.
    pub open spec fn key(self) -> Seq<char> {
        match self {
            EntityKind::Person => "person"@,
            EntityKind::Agent => "agent"@,
            EntityKind::Organization => "organization"@,
            EntityKind::Project => "project"@,
            EntityKind::File => "file"@,
            EntityKind::Tool => "tool"@,
            EntityKind::Concept => "concept"@,
            EntityKind::Place => "place"@,
            EntityKind::Other => "other"@,
        }
    }

    /// The stable key of this kind.
    pub fn as_str(self) -> (r: &'static str)
        ensures
            r@ == self.key(),
    {
        match self {
            EntityKind::Person => "person",
            EntityKind::Agent => "agent",
            EntityKind::Organization => "organization",
            EntityKind::Project => "project",
            EntityKind::File => "file",
            EntityKind::Tool => "tool",
            EntityKind::Concept => "concept",
            EntityKind::Place => "place",
            EntityKind::Other => "other",
        }
    }

    /// Two kinds with the same key are the same kind.
    pub proof fn key_injective(self, other: Self)
        requires
            self.key() == other.key(),
        ensures
            self == other,
    {
        reveal_strlit("person");
        reveal_strlit("agent");
        reveal_strlit("organization");
        reveal_strlit("project");
        reveal_strlit("file");
        reveal_strlit("tool");
        reveal_strlit("concept");
        reveal_strlit("place");
        reveal_strlit("other");
        let (a, b) = (self.key(), other.key());
        assert(a.len() == b.len());
        assert(a[0] == b[0] && a[1] == b[1] && a[2] == b[2] && a[3] == b[3]);
    }
}

/// What an edge says about its two nodes.
#[derive(Debug, Clone, Copy, PartialEq, Eq, Hash, Structural)]
#[non_exhaustive]
pub enum EdgeKind {
    Contains,
    Sequence,
    References,
    Derives,
    Associates,
    Contrasts,
    Resolves,
}

impl EdgeKind {
    /// The stable key of this kind.
    pub open spec fn key(self) -> Seq<char> {
        match self {
            EdgeKind::Contains => "contains"@,
            EdgeKind::Sequence => "sequence"@,
            EdgeKind::References => "references"@,
            EdgeKind::Derives => "derives"@,
            EdgeKind::Associates => "associates"@,
            EdgeKind::Contrasts => "contrasts"@,
            EdgeKind::Resolves => "resolves"@,
        }
    }

    /// The stable key of this kind.
    pub fn as_str(self) -> (r: &'static str)
        ensures
            r@ == self.key(),
    {
        match self {
            EdgeKind::Contains => "contains",
            EdgeKind::Sequence => "sequence",
            EdgeKind::References => "references",
            EdgeKind::Derives => "derives",
            EdgeKind::Associates => "associates",
            EdgeKind::Contrasts => "contrasts",
            EdgeKind::Resolves => "resolves",
        }
    }

    /// Two kinds with the same key are the same kind.
    pub proof fn key_injective(self, other: Self)
        requires
            self.key() == other.key(),
        ensures
            self == other,
    {
        reveal_strlit("contains");
        reveal_strlit("sequence");
        reveal_strlit("references");
        reveal_strlit("derives");
        reveal_strlit("associates");
        reveal_strlit("contrasts");
        reveal_strlit("resolves");
        let (a, b) = (self.key(), other.key());
        assert(a.len() == b.len());
        assert(a[0] == b[0] && a[1] == b[1] && a[2] == b[2] && a[3] == b[3]);
    }
}

/// The keys of nodes are fixed: what was stored under one is found again.
pub proof fn node_keys_are_fixed(kind: NodeKind)
    ensures
        kind == NodeKind::Source ==> kind.key() == "source"@,
        kind == NodeKind::Fragment ==> kind.key() == "fragment"@,
        kind == NodeKind::Entity ==> kind.key() == "entity"@,
        kind == NodeKind::Memory ==> kind.key() == "memory"@,
{
}

/// The keys of memories are fixed: what was stored under one is found again.
pub proof fn memory_keys_are_fixed(kind: MemoryKind)
    ensures
        kind == MemoryKind::Fact ==> kind.key() == "fact"@,
        kind == MemoryKind::State ==> kind.key() == "state"@,
        kind == MemoryKind::Preference ==> kind.key() == "preference"@,
        kind == MemoryKind::Event ==> kind.key() == "event"@,
        kind == MemoryKind::Procedure ==> kind.key() == "procedure"@,
        kind == MemoryKind::Decision ==> kind.key() == "decision"@,
        kind == MemoryKind::Problem ==> kind.key() == "problem"@,
        kind == MemoryKind::Hypothesis ==> kind.key() == "hypothesis"@,
        kind == MemoryKind::Evidence ==> kind.key() == "evidence"@,
        kind == MemoryKind::Resolution ==> kind.key() == "resolution"@,
        kind == MemoryKind::Guardrail ==> kind.key() == "guardrail"@,
        kind == MemoryKind::Summary ==> kind.key() == "summary"@,
{
}

/// The keys of entities are fixed: what was stored under one is found again.
pub proof fn entity_keys_are_fixed(kind: EntityKind)
    ensures
        kind == EntityKind::Person ==> kind.key() == "person"@,
        kind == EntityKind::Agent ==> kind.key() == "agent"@,
        kind == EntityKind::Organization ==> kind.key() == "organization"@,
        kind == EntityKind::Project ==> kind.key() == "project"@,
        kind == EntityKind::File ==> kind.key() == "file"@,
        kind == EntityKind::Tool ==> kind.key() == "tool"@,
        kind == EntityKind::Concept ==> kind.key() == "concept"@,
        kind == EntityKind::Place ==> kind.key() == "place"@,
        kind == EntityKind::Other ==> kind.key() == "other"@,
{
}

/// The keys of edges are fixed: what was stored under one is found again.
pub proof fn edge_keys_are_fixed(kind: EdgeKind)
    ensures
        kind == EdgeKind::Contains ==> kind.key() == "contains"@,
        kind == EdgeKind::Sequence ==> kind.key() == "sequence"@,
        kind == EdgeKind::References ==> kind.key() == "references"@,
        kind == EdgeKind::Derives ==> kind.key() == "derives"@,
        kind == EdgeKind::Associates ==> kind.key() == "associates"@,
        kind == EdgeKind::Contrasts ==> kind.key() == "contrasts"@,
        kind == EdgeKind::Resolves ==> kind.key() == "resolves"@,
{
}

}

//! What the rules read of the stored graph: nodes with their provenance and
//! their metadata, found by number and by key.

use crate::text::same;
use vstd::prelude::*;

verus! {

/// One stored node, as far as the rules read it.
pub struct Node {
    pub id: u64,
    pub content: String,
    pub session_id: String,
    pub scope: String,
    pub created_at: u64,
    /// Whether the node records an episode, as opposed to derived knowledge.
    pub episodic: bool,
    pub metadata: Vec<(String, String)>,
}

/// The value stored under `key`: that of the first pair with this key.
pub open spec fn meta_value(pairs: Seq<(String, String)>, key: Seq<char>) -> Option<Seq<char>>
    decreases pairs.len(),
{
    if pairs.len() == 0 {
        None
    } else if pairs[0].0@ == key {
        Some(pairs[0].1@)
    } else {
        meta_value(pairs.skip(1), key)
    }
}

proof fn lemma_meta_value_skip(pairs: Seq<(String, String)>, key: Seq<char>, i: int)
    requires
        0 <= i <= pairs.len(),
        forall|j: int| 0 <= j < i ==> (#[trigger] pairs[j]).0@ != key,
    ensures
        meta_value(pairs, key) == meta_value(pairs.skip(i), key),
    decreases i,
{
    if i > 0 {
        assert(pairs[0].0@ != key);
        assert forall|j: int| 0 <= j < i - 1 implies (#[trigger] pairs.skip(1)[j]).0@ != key by {
            assert(pairs.skip(1)[j] == pairs[j + 1]);
        }
        lemma_meta_value_skip(pairs.skip(1), key, i - 1);
        assert(pairs.skip(1).skip(i - 1) =~= pairs.skip(i));
    } else {
        assert(pairs.skip(0) =~= pairs);
    }
}

/// The value that is found is that of the first pair with the key; none is found
/// only where no pair has it.
pub proof fn values_are_found_by_key(pairs: Seq<(String, String)>, key: Seq<char>)
    ensures
        match meta_value(pairs, key) {
            Some(v) => exists|i: int|
                0 <= i < pairs.len() && (#[trigger] pairs[i]).0@ == key && pairs[i].1@ == v && (
                forall|j: int| 0 <= j < i ==> (#[trigger] pairs[j]).0@ != key),
            None => forall|j: int| 0 <= j < pairs.len() ==> (#[trigger] pairs[j]).0@ != key,
        },
    decreases pairs.len(),
{
    if pairs.len() > 0 && pairs[0].0@ != key {
        let rest = pairs.skip(1);
        values_are_found_by_key(rest, key);
        if let Some(v) = meta_value(rest, key) {
            let i = choose|i: int|
                0 <= i < rest.len() && (#[trigger] rest[i]).0@ == key && rest[i].1@ == v && (forall|
                    j: int,
                |
                    0 <= j < i ==> (#[trigger] rest[j]).0@ != key);
            assert(pairs[i + 1] == rest[i]);
            assert forall|j: int| 0 <= j < i + 1 implies (#[trigger] pairs[j]).0@ != key by {
                if j > 0 {
                    assert(rest[j - 1] == pairs[j]);
                }
            }
        } else {
            assert forall|j: int| 0 <= j < pairs.len() implies (#[trigger] pairs[j]).0@ != key by {
                if j > 0 {
                    assert(rest[j - 1] == pairs[j]);
                }
            }
        }
    }
}

/// The node that is found is the first one with the number that was asked for;
/// none is found only where no node has it.
pub proof fn nodes_are_found_by_number(nodes: Seq<Node>, id: u64)
    ensures
        match node_in(nodes, id) {
            Some(n) => exists|i: int|
                0 <= i < nodes.len() && #[trigger] nodes[i] == n && n.id == id && (forall|j: int|
                    0 <= j < i ==> (#[trigger] nodes[j]).id != id),
            None => forall|j: int| 0 <= j < nodes.len() ==> (#[trigger] nodes[j]).id != id,
        },
    decreases nodes.len(),
{
    if nodes.len() > 0 && nodes[0].id != id {
        let rest = nodes.skip(1);
        nodes_are_found_by_number(rest, id);
        if let Some(n) = node_in(rest, id) {
            let i = choose|i: int|
                0 <= i < rest.len() && #[trigger] rest[i] == n && n.id == id && (forall|j: int|
                    0 <= j < i ==> (#[trigger] rest[j]).id != id);
            assert(nodes[i + 1] == n);
            assert forall|j: int| 0 <= j < i + 1 implies (#[trigger] nodes[j]).id != id by {
                if j > 0 {
                    assert(rest[j - 1] == nodes[j]);
                }
            }
        } else {
            assert forall|j: int| 0 <= j < nodes.len() implies (#[trigger] nodes[j]).id != id by {
                if j > 0 {
                    assert(rest[j - 1] == nodes[j]);
                }
            }
        }
    }
}

/// Looks a value up by its key.
pub fn find_value<'a>(pairs: &'a Vec<(String, String)>, key: &str) -> (r: Option<&'a str>)
    ensures
        match r {
            Some(v) => meta_value(pairs@, key@) == Some(v@),
            None => meta_value(pairs@, key@) is None,
        },
{
    let mut i: usize = 0;
    while i < pairs.len()
        invariant
            0 <= i <= pairs@.len(),
            forall|j: int| 0 <= j < i ==> (#[trigger] pairs@[j]).0@ != key@,
        decreases pairs@.len() - i,
    {
        if same(pairs[i].0.as_str(), key) {
            proof {
                lemma_meta_value_skip(pairs@, key@, i as int);
                assert(pairs@.skip(i as int)[0] == pairs@[i as int]);
            }
            return Some(pairs[i].1.as_str());
        }
        i += 1;
    }
    proof {
        lemma_meta_value_skip(pairs@, key@, i as int);
        assert(pairs@.skip(i as int) =~= Seq::<(String, String)>::empty());
    }
    None
}

impl Node {
    /// The metadata value under `key`.
    pub open spec fn meta(self, key: Seq<char>) -> Option<Seq<char>> {
        meta_value(self.metadata@, key)
    }

    /// Looks a metadata value up.
    pub fn get(&self, key: &str) -> (r: Option<&str>)
        ensures
            match r {
                Some(v) => self.meta(key@) == Some(v@),
                None => self.meta(key@) is None,
            },
    {
        find_value(&self.metadata, key)
    }
}

/// The stored nodes, in the order in which the store lists them.
pub struct Graph {
    pub nodes: Vec<Node>,
}

/// The first node with the given number.
pub open spec fn node_in(nodes: Seq<Node>, id: u64) -> Option<Node>
    decreases nodes.len(),
{
    if nodes.len() == 0 {
        None
    } else if nodes[0].id == id {
        Some(nodes[0])
    } else {
        node_in(nodes.skip(1), id)
    }
}

proof fn lemma_node_in_skip(nodes: Seq<Node>, id: u64, i: int)
    requires
        0 <= i <= nodes.len(),
        forall|j: int| 0 <= j < i ==> (#[trigger] nodes[j]).id != id,
    ensures
        node_in(nodes, id) == node_in(nodes.skip(i), id),
    decreases i,
{
    if i > 0 {
        assert(nodes[0].id != id);
        assert forall|j: int| 0 <= j < i - 1 implies (#[trigger] nodes.skip(1)[j]).id != id by {
            assert(nodes.skip(1)[j] == nodes[j + 1]);
        }
        lemma_node_in_skip(nodes.skip(1), id, i - 1);
        assert(nodes.skip(1).skip(i - 1) =~= nodes.skip(i));
    } else {
        assert(nodes.skip(0) =~= nodes);
    }
}

/// A node that is found has the number that was asked for, and stands in the
/// list.
pub proof fn lemma_node_in(nodes: Seq<Node>, id: u64)
    ensures
        node_in(nodes, id) matches Some(n) ==> n.id == id && nodes.contains(n),
        node_in(nodes, id) is None ==> forall|j: int| 0 <= j < nodes.len() ==> (#[trigger] nodes[j]).id
            != id,
    decreases nodes.len(),
{
    if nodes.len() > 0 {
        if nodes[0].id == id {
        } else {
            lemma_node_in(nodes.skip(1), id);
            if let Some(n) = node_in(nodes, id) {
                let j = choose|j: int| 0 <= j < nodes.skip(1).len() && nodes.skip(1)[j] == n;
                assert(nodes[j + 1] == n);
            } else {
                assert forall|j: int| 0 <= j < nodes.len() implies (#[trigger] nodes[j]).id != id by {
                    if j > 0 {
                        assert(nodes.skip(1)[j - 1] == nodes[j]);
                    }
                }
            }
        }
    }
}

impl Graph {
    /// The node with the given number.
    pub open spec fn node(self, id: u64) -> Option<Node> {
        node_in(self.nodes@, id)
    }

    /// Looks a node up by its number.
    pub fn find(&self, id: u64) -> (r: Option<&Node>)
        ensures
            match r {
                Some(n) => self.node(id) == Some(*n),
                None => self.node(id) is None,
            },
    {
        let mut i: usize = 0;
        while i < self.nodes.len()
            invariant
                0 <= i <= self.nodes@.len(),
                forall|j: int| 0 <= j < i ==> (#[trigger] self.nodes@[j]).id != id,
            decreases self.nodes@.len() - i,
        {
            if self.nodes[i].id == id {
                proof {
                    lemma_node_in_skip(self.nodes@, id, i as int);
                    assert(self.nodes@.skip(i as int)[0] == self.nodes@[i as int]);
                }
                return Some(&self.nodes[i]);
            }
            i += 1;
        }
        proof {
            lemma_node_in_skip(self.nodes@, id, i as int);
            assert(self.nodes@.skip(i as int) =~= Seq::<Node>::empty());
        }
        None
    }
}

}

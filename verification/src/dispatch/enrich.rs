//! Communities in a part of the graph: what a solver is given, in an order
//! that does not depend on the order in which nodes and edges arrive, and how
//! its answer is read.

use crate::dispatch::graph::{Subgraph, SubEdge, SubNode, INFINITY_BITS};
use crate::origin::{MINUS_ZERO_BITS, ONE_BITS};
use vstd::prelude::*;
use vstd::relations::{sorted_by, total_ordering};
use vstd::seq_lib::{
    to_multiset_build, to_multiset_contains, to_multiset_insert, to_multiset_len,
    to_multiset_remove,
};

verus! {

/// With fewer nodes than this no solver is asked: all belong together.
pub const CLUSTER_MIN_NODES: usize = 8;

/// The seed with which the solver runs, so that it answers the same to the
/// same question.
pub const LEIDEN_SEED: u64 = 42;

/// The order of node numbers.
pub open spec fn id_order() -> spec_fn(u64, u64) -> bool {
    |a: u64, b: u64| a <= b
}

/// The numbers of the nodes, as they arrive.
pub open spec fn node_ids(nodes: Seq<SubNode>) -> Seq<u64> {
    nodes.map_values(|n: SubNode| n.id)
}

/// Whether `r` holds the same elements as `s`, in order.
pub open spec fn is_sorting<A>(r: Seq<A>, s: Seq<A>, order: spec_fn(A, A) -> bool) -> bool {
    sorted_by(r, order) && r.to_multiset() == s.to_multiset()
}

fn insert_id(ids: &mut Vec<u64>, id: u64)
    requires
        sorted_by(old(ids)@, id_order()),
    ensures
        sorted_by(final(ids)@, id_order()),
        final(ids)@.to_multiset() == old(ids)@.to_multiset().insert(id),
{
    let ghost before = ids@;
    let mut i: usize = ids.len();
    while i > 0 && ids[i - 1] > id
        invariant
            0 <= i <= ids@.len(),
            ids@ == before,
            forall|k: int| i <= k < ids@.len() ==> #[trigger] ids@[k] > id,
        decreases i,
    {
        i -= 1;
    }
    ids.insert(i, id);
    proof {
        to_multiset_insert(before, i as int, id);
        let order = id_order();
        assert forall|a: int, b: int| 0 <= a < b < ids@.len() implies #[trigger] order(
            ids@[a],
            ids@[b],
        ) by {
            if b < i {
                assert(order(before[a], before[b]));
            } else if b == i {
                if a < i - 1 {
                    assert(order(before[a], before[i - 1]));
                }
            } else if a > i {
                assert(order(before[a - 1], before[b - 1]));
            } else if a < i {
                assert(order(before[a], before[b - 1]));
            }
        }
    }
}

/// The numbers of the nodes in order.
pub fn sorted_ids(nodes: &Vec<SubNode>) -> (r: Vec<u64>)
    ensures
        is_sorting(r@, node_ids(nodes@), id_order()),
{
    let ghost all = node_ids(nodes@);
    let mut out: Vec<u64> = Vec::new();
    let mut i: usize = 0;
    assert(all.take(0) =~= Seq::<u64>::empty());
    assert(out@ =~= all.take(0));
    while i < nodes.len()
        invariant
            0 <= i <= nodes@.len(),
            all == node_ids(nodes@),
            is_sorting(out@, all.take(i as int), id_order()),
        decreases nodes@.len() - i,
    {
        proof {
            assert(all.take(i + 1) =~= all.take(i as int).push(all[i as int]));
            to_multiset_build(all.take(i as int), all[i as int]);
        }
        insert_id(&mut out, nodes[i].id);
        i += 1;
    }
    assert(all.take(i as int) =~= all);
    out
}

/// The place of a number in a list: that of its last occurrence.
pub open spec fn place_of(ids: Seq<u64>, id: u64) -> Option<nat>
    decreases ids.len(),
{
    if ids.len() == 0 {
        None
    } else if ids.last() == id {
        Some((ids.len() - 1) as nat)
    } else {
        place_of(ids.drop_last(), id)
    }
}

fn find_place(ids: &Vec<u64>, id: u64) -> (r: Option<usize>)
    ensures
        match r {
            Some(i) => place_of(ids@, id) == Some(i as nat) && i < ids@.len() && ids@[i as int] == id,
            None => place_of(ids@, id) is None && !ids@.contains(id),
        },
{
    let mut i: usize = ids.len();
    assert(ids@.take(i as int) =~= ids@);
    while i > 0
        invariant
            0 <= i <= ids@.len(),
            place_of(ids@, id) == place_of(ids@.take(i as int), id),
            forall|k: int| i <= k < ids@.len() ==> #[trigger] ids@[k] != id,
        decreases i,
    {
        proof {
            let here = ids@.take(i as int);
            assert(here.drop_last() =~= ids@.take(i - 1));
            assert(here.last() == ids@[i - 1]);
        }
        if ids[i - 1] == id {
            return Some(i - 1);
        }
        i -= 1;
    }
    None
}

/// The weight with which an edge counts: its own where that is a finite number
/// from zero on, and one otherwise.
pub open spec fn usable_weight(bits: u64) -> u64 {
    if bits < INFINITY_BITS || bits == MINUS_ZERO_BITS {
        bits
    } else {
        ONE_BITS
    }
}

/// The ends and the weight of an edge.
pub open spec fn edge_core(e: SubEdge) -> (u64, u64, u64) {
    (e.source, e.target, e.weight)
}

/// The ends and the weights of the edges, as they arrive.
pub open spec fn edge_cores(edges: Seq<SubEdge>) -> Seq<(u64, u64, u64)> {
    edges.map_values(|e: SubEdge| edge_core(e))
}

/// An edge between the places of its ends, the lower one first; nothing where
/// an end has no place or both have the same.
pub open spec fn placed(ids: Seq<u64>, core: (u64, u64, u64)) -> Option<(usize, usize, u64)> {
    match (place_of(ids, core.0), place_of(ids, core.1)) {
        (Some(a), Some(b)) => if a == b {
            None
        } else if a < b {
            Some((a as usize, b as usize, usable_weight(core.2)))
        } else {
            Some((b as usize, a as usize, usable_weight(core.2)))
        },
        _ => None,
    }
}

/// The edges that have a place, as they arrive.
pub open spec fn all_placed(ids: Seq<u64>, cores: Seq<(u64, u64, u64)>) -> Seq<(usize, usize, u64)>
    decreases cores.len(),
{
    if cores.len() == 0 {
        Seq::empty()
    } else {
        match placed(ids, cores.last()) {
            Some(e) => all_placed(ids, cores.drop_last()).push(e),
            None => all_placed(ids, cores.drop_last()),
        }
    }
}

/// The rank of a usable weight: minus zero comes before zero, and the bits of
/// the others are in the order of their numbers.
pub open spec fn weight_rank(bits: u64) -> int {
    if bits == MINUS_ZERO_BITS {
        -1
    } else {
        bits as int
    }
}

/// The order of edges: by their lower end, their upper end, and their weight.
pub open spec fn edge_order() -> spec_fn((usize, usize, u64), (usize, usize, u64)) -> bool {
    |a: (usize, usize, u64), b: (usize, usize, u64)|
        a.0 < b.0 || (a.0 == b.0 && (a.1 < b.1 || (a.1 == b.1 && weight_rank(a.2) <= weight_rank(
            b.2,
        ))))
}

fn comes_after(a: &(usize, usize, u64), b: &(usize, usize, u64)) -> (r: bool)
    ensures
        r == !edge_order()(*a, *b),
{
    if a.0 != b.0 {
        return a.0 > b.0;
    }
    if a.1 != b.1 {
        return a.1 > b.1;
    }
    if a.2 == MINUS_ZERO_BITS {
        false
    } else if b.2 == MINUS_ZERO_BITS {
        true
    } else {
        a.2 > b.2
    }
}

fn place_edge(ids: &Vec<u64>, e: &SubEdge) -> (r: Option<(usize, usize, u64)>)
    ensures
        r == placed(ids@, edge_core(*e)),
{
    let weight: u64 = if e.weight < INFINITY_BITS || e.weight == MINUS_ZERO_BITS {
        e.weight
    } else {
        ONE_BITS
    };
    match (find_place(ids, e.source), find_place(ids, e.target)) {
        (Some(a), Some(b)) => if a == b {
            None
        } else if a < b {
            Some((a, b, weight))
        } else {
            Some((b, a, weight))
        },
        _ => None,
    }
}

fn insert_edge(edges: &mut Vec<(usize, usize, u64)>, e: (usize, usize, u64))
    requires
        sorted_by(old(edges)@, edge_order()),
    ensures
        sorted_by(final(edges)@, edge_order()),
        final(edges)@.to_multiset() == old(edges)@.to_multiset().insert(e),
{
    let ghost before = edges@;
    let ghost order = edge_order();
    let mut i: usize = edges.len();
    while i > 0 && comes_after(&edges[i - 1], &e)
        invariant
            0 <= i <= edges@.len(),
            edges@ == before,
            order == edge_order(),
            forall|k: int| i <= k < edges@.len() ==> !#[trigger] order(edges@[k], e),
        decreases i,
    {
        i -= 1;
    }
    edges.insert(i, e);
    proof {
        to_multiset_insert(before, i as int, e);
        assert forall|a: int, b: int| 0 <= a < b < edges@.len() implies #[trigger] order(
            edges@[a],
            edges@[b],
        ) by {
            if b < i {
                assert(order(before[a], before[b]));
            } else if b == i {
                assert(order(before[i - 1], e));
                if a < i - 1 {
                    assert(order(before[a], before[i - 1]));
                }
            } else if a > i {
                assert(order(before[a - 1], before[b - 1]));
            } else if a < i {
                assert(order(before[a], before[b - 1]));
            } else {
                assert(!order(before[b - 1], e));
            }
        }
    }
}

/// The edges that a solver is given: those between different places, in order.
pub fn run_leiden(sub: &Subgraph, ids: &Vec<u64>) -> (r: Vec<(usize, usize, u64)>)
    ensures
        is_sorting(r@, all_placed(ids@, edge_cores(sub.edges@)), edge_order()),
{
    let ghost all = edge_cores(sub.edges@);
    let mut out: Vec<(usize, usize, u64)> = Vec::new();
    let mut i: usize = 0;
    assert(all.take(0) =~= Seq::<(u64, u64, u64)>::empty());
    assert(out@ =~= all_placed(ids@, all.take(0)));
    while i < sub.edges.len()
        invariant
            0 <= i <= sub.edges@.len(),
            all == edge_cores(sub.edges@),
            is_sorting(out@, all_placed(ids@, all.take(i as int)), edge_order()),
        decreases sub.edges@.len() - i,
    {
        proof {
            let next = all.take(i + 1);
            assert(next.drop_last() =~= all.take(i as int));
            assert(next.last() == edge_core(sub.edges@[i as int]));
        }
        if let Some(e) = place_edge(ids, &sub.edges[i]) {
            proof {
                to_multiset_build(all_placed(ids@, all.take(i as int)), e);
            }
            insert_edge(&mut out, e);
        }
        i += 1;
    }
    assert(all.take(i as int) =~= all);
    out
}

/// Whether a solver is asked about a part of the graph.
pub open spec fn is_solved(sub: Subgraph) -> bool {
    sub.nodes@.len() >= CLUSTER_MIN_NODES
}

/// The question to the solver; nothing where none is asked.
#[derive(Debug)]
pub struct LeidenInput {
    pub ids: Vec<u64>,
    pub edges: Vec<(usize, usize, u64)>,
}

/// Whether a question is the one that a part of the graph raises.
pub open spec fn asks(sub: Subgraph, input: LeidenInput) -> bool {
    &&& is_sorting(input.ids@, node_ids(sub.nodes@), id_order())
    &&& is_sorting(
        input.edges@,
        all_placed(input.ids@, edge_cores(sub.edges@)),
        edge_order(),
    )
}

/// The question to the solver about a part of the graph.
pub fn leiden_input(sub: &Subgraph) -> (r: Option<LeidenInput>)
    ensures
        match r {
            Some(input) => is_solved(*sub) && asks(*sub, input),
            None => !is_solved(*sub),
        },
{
    if sub.nodes.len() < CLUSTER_MIN_NODES {
        return None;
    }
    let ids = sorted_ids(&sub.nodes);
    let edges = run_leiden(sub, &ids);
    Some(LeidenInput { ids, edges })
}

/// The community of the node in each place, as the solver answered.
pub open spec fn community(ids: Seq<u64>, answer: Option<Seq<u32>>, id: u64) -> u32 {
    match (answer, place_of(ids, id)) {
        (Some(p), Some(i)) => p[i as int],
        _ => 0,
    }
}

proof fn lemma_sorting_contains<A>(r: Seq<A>, s: Seq<A>, order: spec_fn(A, A) -> bool, x: A)
    requires
        is_sorting(r, s, order),
        s.contains(x),
    ensures
        r.contains(x),
        r.len() == s.len(),
{
    to_multiset_contains(s, x);
    to_multiset_contains(r, x);
    to_multiset_len(s);
    to_multiset_len(r);
}

/// The community of each node: zero for all where no solver was asked or it
/// gave no answer.
pub fn cluster_ids(sub: &Subgraph, input: &Option<LeidenInput>, answer: &Option<Vec<u32>>) -> (r:
    Vec<(u64, u32)>)
    requires
        match *input {
            Some(i) => is_solved(*sub) && asks(*sub, i),
            None => !is_solved(*sub),
        },
        answer matches Some(p) ==> p@.len() == sub.nodes@.len(),
    ensures
        r@.len() == sub.nodes@.len(),
        forall|k: int|
            0 <= k < r@.len() ==> #[trigger] r@[k] == (
                sub.nodes@[k].id,
                match *input {
                    Some(i) => community(
                        i.ids@,
                        match *answer {
                            Some(p) => Some(p@),
                            None => None,
                        },
                        sub.nodes@[k].id,
                    ),
                    None => 0,
                },
            ),
{
    let mut out: Vec<(u64, u32)> = Vec::new();
    let mut i: usize = 0;
    while i < sub.nodes.len()
        invariant
            0 <= i <= sub.nodes@.len(),
            out@.len() == i,
            match *input {
                Some(i) => is_solved(*sub) && asks(*sub, i),
                None => !is_solved(*sub),
            },
            answer matches Some(p) ==> p@.len() == sub.nodes@.len(),
            forall|k: int|
                0 <= k < i ==> #[trigger] out@[k] == (
                    sub.nodes@[k].id,
                    match *input {
                        Some(i) => community(
                            i.ids@,
                            match *answer {
                                Some(p) => Some(p@),
                                None => None,
                            },
                            sub.nodes@[k].id,
                        ),
                        None => 0,
                    },
                ),
        decreases sub.nodes@.len() - i,
    {
        let id: u64 = sub.nodes[i].id;
        let cluster: u32 = match (input, answer) {
            (Some(question), Some(p)) => {
                proof {
                    assert(node_ids(sub.nodes@)[i as int] == id);
                    lemma_sorting_contains(question.ids@, node_ids(sub.nodes@), id_order(), id);
                }
                match find_place(&question.ids, id) {
                    Some(at) => p[at],
                    None => 0,
                }
            },
            _ => 0,
        };
        out.push((id, cluster));
        i += 1;
    }
    out
}

proof fn lemma_sorted_unique<A>(a: Seq<A>, b: Seq<A>, order: spec_fn(A, A) -> bool)
    requires
        total_ordering(order),
        sorted_by(a, order),
        sorted_by(b, order),
        a.to_multiset() == b.to_multiset(),
    ensures
        a == b,
    decreases a.len(),
{
    to_multiset_len(a);
    to_multiset_len(b);
    if a.len() > 0 {
        let x = a[0];
        let y = b[0];
        to_multiset_contains(a, x);
        to_multiset_contains(b, x);
        to_multiset_contains(a, y);
        to_multiset_contains(b, y);
        assert(a.contains(x));
        assert(b.contains(y));
        let k = choose|k: int| 0 <= k < b.len() && b[k] == x;
        let m = choose|m: int| 0 <= m < a.len() && a[m] == y;
        assert(order(y, x)) by {
            if k > 0 {
                assert(order(b[0], b[k]));
            } else {
                assert(order(x, x));
            }
        }
        assert(order(x, y)) by {
            if m > 0 {
                assert(order(a[0], a[m]));
            } else {
                assert(order(x, x));
            }
        }
        assert(x == y);
        to_multiset_remove(a, 0);
        to_multiset_remove(b, 0);
        assert forall|i: int, j: int| 0 <= i < j < a.remove(0).len() implies #[trigger] order(
            a.remove(0)[i],
            a.remove(0)[j],
        ) by {
            assert(order(a[i + 1], a[j + 1]));
        }
        assert forall|i: int, j: int| 0 <= i < j < b.remove(0).len() implies #[trigger] order(
            b.remove(0)[i],
            b.remove(0)[j],
        ) by {
            assert(order(b[i + 1], b[j + 1]));
        }
        lemma_sorted_unique(a.remove(0), b.remove(0), order);
        assert(a =~= seq![x] + a.remove(0));
        assert(b =~= seq![y] + b.remove(0));
    } else {
        assert(a =~= b);
    }
}

proof fn lemma_placed_remove(ids: Seq<u64>, cores: Seq<(u64, u64, u64)>, i: int)
    requires
        0 <= i < cores.len(),
    ensures
        all_placed(ids, cores).to_multiset() == (match placed(ids, cores[i]) {
            Some(e) => all_placed(ids, cores.remove(i)).to_multiset().insert(e),
            None => all_placed(ids, cores.remove(i)).to_multiset(),
        }),
    decreases cores.len(),
{
    let fewer = cores.drop_last();
    if i == cores.len() - 1 {
        assert(cores.remove(i) =~= fewer);
        if let Some(e) = placed(ids, cores.last()) {
            to_multiset_build(all_placed(ids, fewer), e);
        }
    } else {
        lemma_placed_remove(ids, fewer, i);
        let rest = cores.remove(i);
        assert(rest.drop_last() =~= fewer.remove(i));
        assert(rest.last() == cores.last());
        if let Some(e) = placed(ids, cores.last()) {
            to_multiset_build(all_placed(ids, fewer), e);
            to_multiset_build(all_placed(ids, fewer.remove(i)), e);
            if let Some(f) = placed(ids, cores[i]) {
                let m = all_placed(ids, fewer.remove(i)).to_multiset();
                assert(m.insert(f).insert(e) =~= m.insert(e).insert(f));
            }
        }
    }
}

proof fn lemma_placed_multiset(
    ids: Seq<u64>,
    a: Seq<(u64, u64, u64)>,
    b: Seq<(u64, u64, u64)>,
)
    requires
        a.to_multiset() == b.to_multiset(),
    ensures
        all_placed(ids, a).to_multiset() == all_placed(ids, b).to_multiset(),
    decreases a.len(),
{
    to_multiset_len(a);
    to_multiset_len(b);
    if a.len() > 0 {
        let x = a.last();
        let last = a.len() - 1;
        assert(a[last as int] == x);
        to_multiset_contains(a, x);
        to_multiset_contains(b, x);
        let k = choose|k: int| 0 <= k < b.len() && b[k] == x;
        to_multiset_remove(a, last as int);
        to_multiset_remove(b, k);
        lemma_placed_multiset(ids, a.remove(last as int), b.remove(k));
        lemma_placed_remove(ids, a, last as int);
        lemma_placed_remove(ids, b, k);
    } else {
        assert(a =~= b);
    }
}

proof fn lemma_id_order()
    ensures
        total_ordering(id_order()),
{
}

proof fn lemma_edge_order()
    ensures
        total_ordering(edge_order()),
{
}

/// A weight that is a finite number from zero on counts as it is; any other
/// counts as one. A solver is asked from eight nodes on, always with one seed.
pub proof fn weights_count_where_they_can(bits: u64, sub: Subgraph)
    ensures
        bits < 0x7ff0_0000_0000_0000 ==> usable_weight(bits) == bits,
        bits == 0x8000_0000_0000_0000 ==> usable_weight(bits) == bits,
        bits >= 0x7ff0_0000_0000_0000 && bits != 0x8000_0000_0000_0000 ==> usable_weight(bits)
            == 0x3ff0_0000_0000_0000,
        is_solved(sub) <==> sub.nodes@.len() >= 8,
        LEIDEN_SEED == 42,
{
}

proof fn lemma_place(ids: Seq<u64>, id: u64)
    ensures
        match place_of(ids, id) {
            Some(i) => i < ids.len() && ids[i as int] == id,
            None => !ids.contains(id),
        },
    decreases ids.len(),
{
    if ids.len() > 0 {
        lemma_place(ids.drop_last(), id);
        if ids.last() != id {
            if place_of(ids, id) is None && ids.contains(id) {
                let k = choose|k: int| 0 <= k < ids.len() && ids[k] == id;
                assert(ids.drop_last()[k] == id);
            }
        }
    }
}

proof fn lemma_all_placed(ids: Seq<u64>, cores: Seq<(u64, u64, u64)>, e: (usize, usize, u64))
    requires
        ids.len() <= usize::MAX,
        all_placed(ids, cores).contains(e),
    ensures
        exists|k: int| 0 <= k < cores.len() && placed(ids, #[trigger] cores[k]) == Some(e),
    decreases cores.len(),
{
    if cores.len() > 0 {
        let fewer = all_placed(ids, cores.drop_last());
        if placed(ids, cores.last()) == Some(e) {
            assert(cores[cores.len() - 1] == cores.last());
        } else {
            let i = choose|i: int|
                0 <= i < all_placed(ids, cores).len() && all_placed(ids, cores)[i] == e;
            assert(fewer.contains(e)) by {
                assert(i < fewer.len());
                assert(fewer[i] == e);
            }
            lemma_all_placed(ids, cores.drop_last(), e);
            let k = choose|k: int|
                0 <= k < cores.drop_last().len() && placed(ids, #[trigger] cores.drop_last()[k])
                    == Some(e);
            assert(cores[k] == cores.drop_last()[k]);
        }
    }
}

/// The solver is asked about the nodes and the edges that are there: the nodes
/// in the order of their numbers, and each edge between the places of its own two
/// ends, which differ, the lower place first, with its own weight where that can
/// count.
pub proof fn questions_are_about_the_graph(
    sub: Subgraph,
    input: LeidenInput,
    i: int,
)
    requires
        asks(sub, input),
        0 <= i < input.edges@.len(),
    ensures
        input.ids@.len() == sub.nodes@.len(),
        forall|a: int, b: int| 0 <= a < b < input.ids@.len() ==> input.ids@[a] <= input.ids@[b],
        ({
            let (a, b, w) = input.edges@[i];
            &&& a < b < input.ids@.len()
            &&& exists|k: int|
                0 <= k < sub.edges@.len() && w == usable_weight((#[trigger] sub.edges@[k]).weight)
                    && ((sub.edges@[k].source == input.ids@[a as int] && sub.edges@[k].target
                    == input.ids@[b as int]) || (sub.edges@[k].source == input.ids@[b as int]
                    && sub.edges@[k].target == input.ids@[a as int]))
        }),
{
    let ids = input.ids@;
    let cores = edge_cores(sub.edges@);
    assert(input.ids.len() == ids.len());
    to_multiset_len(ids);
    to_multiset_len(node_ids(sub.nodes@));
    let e = input.edges@[i];
    assert forall|a: int, b: int| 0 <= a < b < ids.len() implies ids[a] <= ids[b] by {
        let order = id_order();
        assert(order(ids[a], ids[b]));
    }
    assert(input.edges@.contains(e));
    to_multiset_contains(input.edges@, e);
    to_multiset_contains(all_placed(ids, cores), e);
    lemma_all_placed(ids, cores, e);
    let k = choose|k: int| 0 <= k < cores.len() && placed(ids, #[trigger] cores[k]) == Some(e);
    assert(cores[k] == edge_core(sub.edges@[k]));
    lemma_place(ids, sub.edges@[k].source);
    lemma_place(ids, sub.edges@[k].target);
}

/// A node belongs to the community that the solver gave to its place, and to the
/// community zero where no answer was given.
pub proof fn communities_are_those_answered(ids: Seq<u64>, answer: Seq<u32>, i: int)
    requires
        0 <= i < ids.len(),
        forall|j: int| i < j < ids.len() ==> ids[j] != ids[i],
    ensures
        community(ids, Some(answer), ids[i]) == answer[i],
        community(ids, None, ids[i]) == 0,
    decreases ids.len(),
{
    if i < ids.len() - 1 {
        let fewer = ids.drop_last();
        assert(fewer[i] == ids[i]);
        assert(ids[ids.len() - 1] != ids[i]);
        assert forall|j: int| i < j < fewer.len() implies fewer[j] != fewer[i] by {
            assert(ids[j] != ids[i]);
        }
        communities_are_those_answered(fewer, answer, i);
    }
}

/// The question to the solver does not depend on the order in which nodes and
/// edges arrive. Two parts of the graph with the same nodes and the same edges
/// raise the same question, whatever their order.
pub proof fn question_ignores_order(a: Subgraph, b: Subgraph, x: LeidenInput, y: LeidenInput)
    requires
        node_ids(a.nodes@).to_multiset() == node_ids(b.nodes@).to_multiset(),
        edge_cores(a.edges@).to_multiset() == edge_cores(b.edges@).to_multiset(),
        asks(a, x),
        asks(b, y),
    ensures
        x.ids@ == y.ids@,
        x.edges@ == y.edges@,
{
    lemma_id_order();
    lemma_edge_order();
    lemma_sorted_unique(x.ids@, y.ids@, id_order());
    lemma_placed_multiset(x.ids@, edge_cores(a.edges@), edge_cores(b.edges@));
    lemma_sorted_unique(x.edges@, y.edges@, edge_order());
}

/// Nodes keep their communities when they and the edges arrive in another
/// order, as long as the solver answers the same to the same question.
pub proof fn clusters_ignore_order(
    a: Subgraph,
    b: Subgraph,
    x: LeidenInput,
    y: LeidenInput,
    answer: Option<Seq<u32>>,
    id: u64,
)
    requires
        node_ids(a.nodes@).to_multiset() == node_ids(b.nodes@).to_multiset(),
        edge_cores(a.edges@).to_multiset() == edge_cores(b.edges@).to_multiset(),
        asks(a, x),
        asks(b, y),
    ensures
        community(x.ids@, answer, id) == community(y.ids@, answer, id),
{
    question_ignores_order(a, b, x, y);
}

/// The numbers of nodes are put in rising order, and none is lost or added.
pub proof fn numbers_are_put_in_rising_order(r: Seq<u64>, s: Seq<u64>, a: u64, b: u64)
    requires
        is_sorting(r, s, id_order()),
    ensures
        forall|i: int, j: int| 0 <= i < j < r.len() ==> #[trigger] r[i] <= #[trigger] r[j],
        r.len() == s.len(),
        forall|n: u64| r.to_multiset().count(n) == #[trigger] s.to_multiset().count(n),
        id_order()(a, b) <==> a <= b,
{
    let order = id_order();
    assert forall|i: int, j: int| 0 <= i < j < r.len() implies #[trigger] r[i] <= #[trigger] r[j] by {
        assert(order(r[i], r[j]));
    }
    r.to_multiset_ensures();
    s.to_multiset_ensures();
}

/// Each edge between two nodes that are asked about is placed for itself, in the
/// order in which the edges arrive: between the places of its ends, the lower
/// place first. An edge with an end elsewhere, or with both in one place, is left
/// out.
pub proof fn edges_are_placed_one_by_one(
    ids: Seq<u64>,
    a: Seq<(u64, u64, u64)>,
    b: Seq<(u64, u64, u64)>,
    core: (u64, u64, u64),
)
    ensures
        all_placed(ids, a + b) == all_placed(ids, a) + all_placed(ids, b),
        all_placed(ids, seq![core]) == (match placed(ids, core) {
            Some(e) => seq![e],
            None => Seq::<(usize, usize, u64)>::empty(),
        }),
        place_of(ids, core.0) is None || place_of(ids, core.1) is None || place_of(ids, core.0)
            == place_of(ids, core.1) ==> placed(ids, core) is None,
        (place_of(ids, core.0) matches Some(i) && place_of(ids, core.1) matches Some(j) && i < j)
            ==> placed(ids, core) == Some(
            (
                place_of(ids, core.0)->0 as usize,
                place_of(ids, core.1)->0 as usize,
                usable_weight(core.2),
            ),
        ),
        placed(ids, core) == placed(ids, (core.1, core.0, core.2)),
    decreases b.len(),
{
    reveal_with_fuel(all_placed, 2);
    assert(seq![core].drop_last() =~= Seq::<(u64, u64, u64)>::empty());
    if b.len() == 0 {
        assert(a + b =~= a);
        assert(all_placed(ids, a) + all_placed(ids, b) =~= all_placed(ids, a));
    } else {
        edges_are_placed_one_by_one(ids, a, b.drop_last(), core);
        assert((a + b).drop_last() =~= a + b.drop_last());
        assert((a + b).last() == b.last());
        assert(all_placed(ids, a + b) =~= all_placed(ids, a) + all_placed(ids, b));
    }
}

proof fn lemma_placed_in(ids: Seq<u64>, cores: Seq<(u64, u64, u64)>, k: int)
    requires
        0 <= k < cores.len(),
        placed(ids, cores[k]) is Some,
    ensures
        all_placed(ids, cores).contains(placed(ids, cores[k])->0),
    decreases cores.len(),
{
    let all = all_placed(ids, cores);
    let fewer = cores.drop_last();
    if k == cores.len() - 1 {
        assert(all[all.len() - 1] == placed(ids, cores[k])->0);
    } else {
        lemma_placed_in(ids, fewer, k);
        assert(fewer[k] == cores[k]);
        let inner = all_placed(ids, fewer);
        let e = placed(ids, cores[k])->0;
        let n = choose|n: int| 0 <= n < inner.len() && inner[n] == e;
        assert(all[n] == e);
    }
}

/// The solver is asked about every edge between two different nodes that are
/// there.
pub proof fn every_edge_is_asked_about(sub: Subgraph, input: LeidenInput, k: int)
    requires
        asks(sub, input),
        0 <= k < sub.edges@.len(),
        node_ids(sub.nodes@).contains(sub.edges@[k].source),
        node_ids(sub.nodes@).contains(sub.edges@[k].target),
        sub.edges@[k].source != sub.edges@[k].target,
    ensures
        exists|i: int|
            {
                &&& 0 <= i < input.edges@.len()
                &&& (#[trigger] input.edges@[i]).2 == usable_weight(sub.edges@[k].weight)
                &&& input.edges@[i].0 < input.edges@[i].1 < input.ids@.len()
                &&& (input.ids@[input.edges@[i].0 as int] == sub.edges@[k].source
                    && input.ids@[input.edges@[i].1 as int] == sub.edges@[k].target) || (
                input.ids@[input.edges@[i].0 as int] == sub.edges@[k].target
                    && input.ids@[input.edges@[i].1 as int] == sub.edges@[k].source)
            },
{
    let ids = input.ids@;
    let cores = edge_cores(sub.edges@);
    let core = edge_core(sub.edges@[k]);
    assert(input.ids.len() == ids.len());
    assert(cores[k] == core);
    lemma_place(ids, sub.edges@[k].source);
    lemma_place(ids, sub.edges@[k].target);
    to_multiset_contains(ids, sub.edges@[k].source);
    to_multiset_contains(ids, sub.edges@[k].target);
    to_multiset_contains(node_ids(sub.nodes@), sub.edges@[k].source);
    to_multiset_contains(node_ids(sub.nodes@), sub.edges@[k].target);
    let e = placed(ids, core)->0;
    lemma_placed_in(ids, cores, k);
    to_multiset_contains(all_placed(ids, cores), e);
    to_multiset_contains(input.edges@, e);
    let i = choose|i: int| 0 <= i < input.edges@.len() && input.edges@[i] == e;
    assert(input.edges@[i].2 == usable_weight(sub.edges@[k].weight));
}

}

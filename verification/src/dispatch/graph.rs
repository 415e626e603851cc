//! A part of the graph as a viewer shows it.

use crate::dispatch::finish::{bump_and_classify, classified, counted};
use crate::dispatch::render::{quote_all, quoted_all, MemoryTier};
use crate::json::{array_text, json_array, json_bool, push_json_bool, push_json_string};
use crate::memory::MemoryRegistry;
use crate::origin::MINUS_ZERO_BITS;
use crate::outside::json_quoted;
use crate::proto::{success, EngineError, Response};
use crate::store::{find_value, meta_value, values_are_found_by_key};
use crate::text::{contains_text, decimal, decimal_text, push_decimal, same, views};
use vstd::prelude::*;
use vstd::string::StringExecFns;

verus! {

/// A node of a part of the graph. Its salience is given by the bits of its
/// double-precision number and by its JSON text; its degree of interest by its
/// JSON text.
#[derive(Debug)]
pub struct SubNode {
    pub id: u64,
    pub name: String,
    pub node_type: String,
    pub salience: u64,
    pub salience_text: String,
    pub created_at: u64,
    pub entity_tags: Vec<String>,
    pub metadata: Vec<(String, String)>,
    pub doi_text: String,
}

/// An edge of a part of the graph. Its weight is given by the bits of its
/// double-precision number and by its JSON text.
#[derive(Debug)]
pub struct SubEdge {
    pub id: u64,
    pub source: u64,
    pub target: u64,
    pub edge_type: String,
    pub weight: u64,
    pub weight_text: String,
}

/// A part of the graph around some nodes, with the distance of each node from
/// them.
#[derive(Debug)]
pub struct Subgraph {
    pub nodes: Vec<SubNode>,
    pub edges: Vec<SubEdge>,
    pub depths: Vec<(u64, usize)>,
    pub truncated: bool,
}

/// The bits of the salience below which a memory counts as archived: 0.10.
pub const ARCHIVE_SALIENCE_BITS: u64 = 0x3fb9_9999_9999_999a;

/// The bits of the salience above which a memory belongs to the core: 0.80.
pub const CORE_SALIENCE_BITS: u64 = 0x3fe9_9999_9999_999a;

/// The bits of the double-precision number infinity.
pub const INFINITY_BITS: u64 = 0x7ff0_0000_0000_0000;

/// The bits of a double-precision number without its sign.
pub open spec fn magnitude(bits: u64) -> int {
    if bits >= MINUS_ZERO_BITS {
        bits - MINUS_ZERO_BITS
    } else {
        bits as int
    }
}

/// The tier of a memory by the bits of its salience. Without their sign, the
/// bits of numbers are in the order of the numbers; what is beyond infinity is
/// no number, and neither below nor above any.
pub open spec fn tier_of(bits: u64) -> MemoryTier {
    if magnitude(bits) > INFINITY_BITS {
        MemoryTier::Recall
    } else if bits >= MINUS_ZERO_BITS || bits < ARCHIVE_SALIENCE_BITS {
        MemoryTier::Archival
    } else if bits > CORE_SALIENCE_BITS {
        MemoryTier::Core
    } else {
        MemoryTier::Recall
    }
}

/// The tier of a memory by the bits of its salience.
pub fn tier_label(bits: u64) -> (r: MemoryTier)
    ensures
        r == tier_of(bits),
{
    let size: u64 = if bits >= MINUS_ZERO_BITS {
        bits - MINUS_ZERO_BITS
    } else {
        bits
    };
    if size > INFINITY_BITS {
        MemoryTier::Recall
    } else if bits >= MINUS_ZERO_BITS || bits < ARCHIVE_SALIENCE_BITS {
        MemoryTier::Archival
    } else if bits > CORE_SALIENCE_BITS {
        MemoryTier::Core
    } else {
        MemoryTier::Recall
    }
}

/// The tier follows the salience: below a tenth a memory is archived, above four
/// fifths it belongs to the core, and in between it is recalled. A salience that
/// is less than zero is below a tenth, and one that is no number is neither.
pub proof fn tiers_follow_salience(bits: u64)
    ensures
        bits < 0x3fb9_9999_9999_999a ==> tier_of(bits) == MemoryTier::Archival,
        0x3fb9_9999_9999_999a <= bits <= 0x3fe9_9999_9999_999a ==> tier_of(bits)
            == MemoryTier::Recall,
        0x3fe9_9999_9999_999a < bits <= 0x7ff0_0000_0000_0000 ==> tier_of(bits)
            == MemoryTier::Core,
        0x7ff0_0000_0000_0000 < bits < 0x8000_0000_0000_0000 ==> tier_of(bits)
            == MemoryTier::Recall,
        0x8000_0000_0000_0000 <= bits <= 0xfff0_0000_0000_0000 ==> tier_of(bits)
            == MemoryTier::Archival,
        bits > 0xfff0_0000_0000_0000 ==> tier_of(bits) == MemoryTier::Recall,
        MemoryTier::Core.label() == "Core"@,
        MemoryTier::Recall.label() == "Recall"@,
        MemoryTier::Archival.label() == "Archival"@,
{
}

/// The distance and the community of a node are those that are listed for it,
/// and zero where none is listed.
pub proof fn distances_and_communities_are_those_listed(
    depths: Seq<(u64, usize)>,
    clusters: Seq<(u64, u32)>,
    id: u64,
)
    ensures
        (forall|i: int| 0 <= i < depths.len() ==> (#[trigger] depths[i]).0 != id) ==> depth_of(
            depths,
            id,
        ) == 0,
        (exists|i: int| 0 <= i < depths.len() && (#[trigger] depths[i]).0 == id) ==> exists|i: int|
            0 <= i < depths.len() && (#[trigger] depths[i]).0 == id && depths[i].1 == depth_of(
                depths,
                id,
            ) && (forall|j: int| i < j < depths.len() ==> (#[trigger] depths[j]).0 != id),
        (forall|i: int| 0 <= i < clusters.len() ==> (#[trigger] clusters[i]).0 != id)
            ==> cluster_of(clusters, id) == 0,
        (exists|i: int| 0 <= i < clusters.len() && (#[trigger] clusters[i]).0 == id) ==> exists|
            i: int,
        |
            0 <= i < clusters.len() && (#[trigger] clusters[i]).0 == id && clusters[i].1
                == cluster_of(clusters, id) && (forall|j: int|
                i < j < clusters.len() ==> (#[trigger] clusters[j]).0 != id),
    decreases depths.len() + clusters.len(),
{
    if depths.len() > 0 {
        let last = depths.len() - 1;
        assert(depths[last] == depths.last());
        if depths.last().0 != id {
            let fewer = depths.drop_last();
            distances_and_communities_are_those_listed(fewer, clusters, id);
            assert forall|i: int| 0 <= i < fewer.len() implies fewer[i] == depths[i] by {}
            if exists|i: int| 0 <= i < depths.len() && (#[trigger] depths[i]).0 == id {
                let i = choose|i: int| 0 <= i < depths.len() && (#[trigger] depths[i]).0 == id;
                assert(fewer[i].0 == id);
                let k = choose|k: int|
                    0 <= k < fewer.len() && (#[trigger] fewer[k]).0 == id && fewer[k].1 == depth_of(
                        fewer,
                        id,
                    ) && (forall|j: int| k < j < fewer.len() ==> (#[trigger] fewer[j]).0 != id);
                assert(depths[k].0 == id);
                assert forall|j: int| k < j < depths.len() implies (#[trigger] depths[j]).0 != id by {
                    if j < last {
                        assert(fewer[j].0 != id);
                    }
                }
            } else {
                assert forall|i: int| 0 <= i < fewer.len() implies (#[trigger] fewer[i]).0 != id by {
                    assert(depths[i].0 != id);
                }
            }
        }
    }
    if clusters.len() > 0 {
        let last = clusters.len() - 1;
        assert(clusters[last] == clusters.last());
        if clusters.last().0 != id {
            let fewer = clusters.drop_last();
            distances_and_communities_are_those_listed(depths, fewer, id);
            assert forall|i: int| 0 <= i < fewer.len() implies fewer[i] == clusters[i] by {}
            if exists|i: int| 0 <= i < clusters.len() && (#[trigger] clusters[i]).0 == id {
                let i = choose|i: int| 0 <= i < clusters.len() && (#[trigger] clusters[i]).0 == id;
                assert(fewer[i].0 == id);
                let k = choose|k: int|
                    0 <= k < fewer.len() && (#[trigger] fewer[k]).0 == id && fewer[k].1
                        == cluster_of(fewer, id) && (forall|j: int|
                        k < j < fewer.len() ==> (#[trigger] fewer[j]).0 != id);
                assert(clusters[k].0 == id);
                assert forall|j: int| k < j < clusters.len() implies (#[trigger] clusters[j]).0
                    != id by {
                    if j < last {
                        assert(fewer[j].0 != id);
                    }
                }
            } else {
                assert forall|i: int| 0 <= i < fewer.len() implies (#[trigger] fewer[i]).0 != id by {
                    assert(clusters[i].0 != id);
                }
            }
        }
    }
}

/// The distance that is listed last for a node; zero where none is.
pub open spec fn depth_of(depths: Seq<(u64, usize)>, id: u64) -> nat
    decreases depths.len(),
{
    if depths.len() == 0 {
        0
    } else if depths.last().0 == id {
        depths.last().1 as nat
    } else {
        depth_of(depths.drop_last(), id)
    }
}

fn find_depth(depths: &Vec<(u64, usize)>, id: u64) -> (r: usize)
    ensures
        r == depth_of(depths@, id),
{
    let mut i: usize = depths.len();
    assert(depths@.take(i as int) =~= depths@);
    while i > 0
        invariant
            0 <= i <= depths@.len(),
            depth_of(depths@, id) == depth_of(depths@.take(i as int), id),
        decreases i,
    {
        proof {
            let here = depths@.take(i as int);
            assert(here.drop_last() =~= depths@.take(i - 1));
            assert(here.last() == depths@[i - 1]);
        }
        if depths[i - 1].0 == id {
            return depths[i - 1].1;
        }
        i -= 1;
    }
    0
}

/// The community that is listed last for a node; zero where none is.
pub open spec fn cluster_of(clusters: Seq<(u64, u32)>, id: u64) -> nat
    decreases clusters.len(),
{
    if clusters.len() == 0 {
        0
    } else if clusters.last().0 == id {
        clusters.last().1 as nat
    } else {
        cluster_of(clusters.drop_last(), id)
    }
}

fn find_cluster(clusters: &Vec<(u64, u32)>, id: u64) -> (r: u32)
    ensures
        r == cluster_of(clusters@, id),
{
    let mut i: usize = clusters.len();
    assert(clusters@.take(i as int) =~= clusters@);
    while i > 0
        invariant
            0 <= i <= clusters@.len(),
            cluster_of(clusters@, id) == cluster_of(clusters@.take(i as int), id),
        decreases i,
    {
        proof {
            let here = clusters@.take(i as int);
            assert(here.drop_last() =~= clusters@.take(i - 1));
            assert(here.last() == clusters@[i - 1]);
        }
        if clusters[i - 1].0 == id {
            return clusters[i - 1].1;
        }
        i -= 1;
    }
    0
}

/// Whether a node is marked as retracted.
pub open spec fn is_retracted(n: SubNode) -> bool {
    meta_value(n.metadata@, "retracted"@) == Some("true"@)
}

/// A node counts as retracted exactly where its metadata says so: not where the
/// mark is missing, and not where it says anything but `true`.
pub proof fn only_marked_nodes_are_retracted(n: SubNode)
    ensures
        (forall|i: int| 0 <= i < n.metadata@.len() ==> (#[trigger] n.metadata@[i]).0@
            != "retracted"@) ==> json_bool(is_retracted(n)) == "false"@,
        meta_value(n.metadata@, "retracted"@) == Some("true"@) ==> json_bool(is_retracted(n))
            == "true"@,
        meta_value(n.metadata@, "retracted"@) != Some("true"@) ==> json_bool(is_retracted(n))
            == "false"@,
{
    values_are_found_by_key(n.metadata@, "retracted"@);
}

/// A node whose metadata has no mark of retraction is shown as not retracted,
/// and one whose mark says `true` is shown as retracted.
pub proof fn retraction_is_shown(n: SubNode, depth: nat, cluster: nat)
    ensures
        (forall|i: int| 0 <= i < n.metadata@.len() ==> (#[trigger] n.metadata@[i]).0@
            != "retracted"@) ==> contains_text(
            node_json(n, depth, cluster),
            ",\"retracted\":"@ + "false"@ + ",\"cluster\":"@,
        ),
        meta_value(n.metadata@, "retracted"@) == Some("true"@) ==> contains_text(
            node_json(n, depth, cluster),
            ",\"retracted\":"@ + "true"@ + ",\"cluster\":"@,
        ),
{
    only_marked_nodes_are_retracted(n);
    crate::dispatch::shown::graph_nodes_show_every_field(n, depth, cluster);
}

/// A JSON array of numbers.
pub open spec fn json_numbers(v: Seq<u64>) -> Seq<char> {
    json_array(v.map_values(|n: u64| decimal(n as nat)))
}

/// The JSON array of numbers.
pub fn numbers_text(v: &Vec<u64>) -> (r: String)
    ensures
        r@ == json_numbers(v@),
{
    let ghost want = v@.map_values(|n: u64| decimal(n as nat));
    let mut items: Vec<String> = Vec::new();
    let mut i: usize = 0;
    while i < v.len()
        invariant
            0 <= i <= v@.len(),
            want == v@.map_values(|n: u64| decimal(n as nat)),
            views(items@) == want.take(i as int),
        decreases v@.len() - i,
    {
        let item = decimal_text(v[i]);
        let ghost before = items@;
        items.push(item);
        assert(views(items@) =~= views(before).push(item@));
        assert(want.take(i + 1) =~= want.take(i as int).push(want[i as int]));
        i += 1;
    }
    assert(want.take(i as int) =~= want);
    array_text(&items)
}

/// The JSON object of a node.
pub open spec fn node_json(n: SubNode, depth: nat, cluster: nat) -> Seq<char> {
    "{\"id\":"@ + decimal(n.id as nat) + ",\"label\":"@ + json_quoted(n.name@) + ",\"type\":"@
        + json_quoted(n.node_type@) + ",\"salience\":"@ + n.salience_text@ + ",\"depth\":"@
        + decimal(depth) + ",\"tier\":"@ + json_quoted(tier_of(n.salience).label())
        + ",\"created_at\":"@ + decimal(n.created_at as nat) + ",\"entity_tags\":"@ + json_array(
        quoted_all(views(n.entity_tags@)),
    ) + ",\"retracted\":"@ + json_bool(is_retracted(n)) + ",\"cluster\":"@ + decimal(cluster)
        + ",\"doi\":"@ + n.doi_text@ + "}"@
}

fn node_text(n: &SubNode, depth: usize, cluster: u32) -> (r: String)
    ensures
        r@ == node_json(*n, depth as nat, cluster as nat),
{
    let mut out = "{\"id\":".to_owned();
    push_decimal(&mut out, n.id);
    out.append(",\"label\":");
    push_json_string(&mut out, n.name.as_str());
    out.append(",\"type\":");
    push_json_string(&mut out, n.node_type.as_str());
    out.append(",\"salience\":");
    out.append(n.salience_text.as_str());
    out.append(",\"depth\":");
    push_decimal(&mut out, depth as u64);
    out.append(",\"tier\":");
    push_json_string(&mut out, tier_label(n.salience).as_str());
    out.append(",\"created_at\":");
    push_decimal(&mut out, n.created_at);
    out.append(",\"entity_tags\":");
    let quoted = quote_all(&n.entity_tags);
    let tags = array_text(&quoted);
    out.append(tags.as_str());
    out.append(",\"retracted\":");
    let retracted = match find_value(&n.metadata, "retracted") {
        Some(v) => same(v, "true"),
        None => false,
    };
    push_json_bool(&mut out, retracted);
    out.append(",\"cluster\":");
    push_decimal(&mut out, cluster as u64);
    out.append(",\"doi\":");
    out.append(n.doi_text.as_str());
    out.append("}");
    out
}

/// The JSON object of an edge.
pub open spec fn edge_json(e: SubEdge) -> Seq<char> {
    "{\"id\":"@ + decimal(e.id as nat) + ",\"source\":"@ + decimal(e.source as nat)
        + ",\"target\":"@ + decimal(e.target as nat) + ",\"type\":"@ + json_quoted(e.edge_type@)
        + ",\"weight\":"@ + e.weight_text@ + "}"@
}

fn edge_text(e: &SubEdge) -> (r: String)
    ensures
        r@ == edge_json(*e),
{
    let mut out = "{\"id\":".to_owned();
    push_decimal(&mut out, e.id);
    out.append(",\"source\":");
    push_decimal(&mut out, e.source);
    out.append(",\"target\":");
    push_decimal(&mut out, e.target);
    out.append(",\"type\":");
    push_json_string(&mut out, e.edge_type.as_str());
    out.append(",\"weight\":");
    out.append(e.weight_text.as_str());
    out.append("}");
    out
}

/// The JSON objects of the nodes, in order.
pub open spec fn node_items(sub: Subgraph, clusters: Seq<(u64, u32)>) -> Seq<Seq<char>> {
    sub.nodes@.map_values(
        |n: SubNode| node_json(n, depth_of(sub.depths@, n.id), cluster_of(clusters, n.id)),
    )
}

/// The JSON objects of the edges, in order.
pub open spec fn edge_items(sub: Subgraph) -> Seq<Seq<char>> {
    sub.edges@.map_values(|e: SubEdge| edge_json(e))
}

/// The JSON object of a part of the graph.
pub open spec fn graph_json(
    sub: Subgraph,
    seed_ids: Seq<u64>,
    clusters: Seq<(u64, u32)>,
) -> Seq<char> {
    "{\"schema\":1,\"seed_ids\":"@ + json_numbers(seed_ids) + ",\"truncated\":"@ + json_bool(
        sub.truncated,
    ) + ",\"nodes\":"@ + json_array(node_items(sub, clusters)) + ",\"edges\":"@ + json_array(
        edge_items(sub),
    ) + "}"@
}

fn nodes_text(sub: &Subgraph, clusters: &Vec<(u64, u32)>) -> (r: String)
    ensures
        r@ == json_array(node_items(*sub, clusters@)),
{
    let ghost want = node_items(*sub, clusters@);
    let mut items: Vec<String> = Vec::new();
    let mut i: usize = 0;
    while i < sub.nodes.len()
        invariant
            0 <= i <= sub.nodes@.len(),
            want == node_items(*sub, clusters@),
            views(items@) == want.take(i as int),
        decreases sub.nodes@.len() - i,
    {
        let id: u64 = sub.nodes[i].id;
        let item = node_text(
            &sub.nodes[i],
            find_depth(&sub.depths, id),
            find_cluster(clusters, id),
        );
        let ghost before = items@;
        items.push(item);
        assert(views(items@) =~= views(before).push(item@));
        assert(want.take(i + 1) =~= want.take(i as int).push(want[i as int]));
        i += 1;
    }
    assert(want.take(i as int) =~= want);
    array_text(&items)
}

fn edges_text(sub: &Subgraph) -> (r: String)
    ensures
        r@ == json_array(edge_items(*sub)),
{
    let ghost want = edge_items(*sub);
    let mut items: Vec<String> = Vec::new();
    let mut i: usize = 0;
    while i < sub.edges.len()
        invariant
            0 <= i <= sub.edges@.len(),
            want == edge_items(*sub),
            views(items@) == want.take(i as int),
        decreases sub.edges@.len() - i,
    {
        let item = edge_text(&sub.edges[i]);
        let ghost before = items@;
        items.push(item);
        assert(views(items@) =~= views(before).push(item@));
        assert(want.take(i + 1) =~= want.take(i as int).push(want[i as int]));
        i += 1;
    }
    assert(want.take(i as int) =~= want);
    array_text(&items)
}

/// Shows a part of the graph around the given nodes, with the communities its
/// nodes belong to.
pub fn render_graph(sub: &Subgraph, seed_ids: &Vec<u64>, clusters: &Vec<(u64, u32)>) -> (r: String)
    ensures
        r@ == graph_json(*sub, seed_ids@, clusters@),
{
    let mut out = "{\"schema\":1,\"seed_ids\":".to_owned();
    let seeds = numbers_text(seed_ids);
    out.append(seeds.as_str());
    out.append(",\"truncated\":");
    push_json_bool(&mut out, sub.truncated);
    out.append(",\"nodes\":");
    let nodes = nodes_text(sub, clusters);
    out.append(nodes.as_str());
    out.append(",\"edges\":");
    let edges = edges_text(sub);
    out.append(edges.as_str());
    out.append("}");
    out
}

/// What the store found around the nodes that a caller starts from.
#[derive(Debug)]
pub struct GraphOutcome {
    pub subgraph: Subgraph,
    pub seed_ids: Vec<u64>,
    pub clusters: Vec<(u64, u32)>,
}

/// Shows the part of the graph that was asked for.
pub fn finish_graph(registry: &mut MemoryRegistry, result: Result<GraphOutcome, EngineError>) -> (r:
    Response)
    requires
        old(registry)@.ops.room(),
    ensures
        final(registry)@ == counted(old(registry)@, result),
        r@ == (match result {
            Ok(g) => success(graph_json(g.subgraph, g.seed_ids@, g.clusters@)),
            Err(e) => classified(e),
        }),
{
    match result {
        Ok(g) => Response::ok(render_graph(&g.subgraph, &g.seed_ids, &g.clusters)),
        Err(e) => bump_and_classify(registry, e),
    }
}

}

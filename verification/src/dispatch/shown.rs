//! What the texts that answer requests must show: every figure and every field
//! under its own name.

use crate::delivery::{delivered_json, item_ids, item_json, PullItem};
use crate::dispatch::finish::{
    account, forgotten_text, linked_text, stored_text, superseded_text, StatsOutcome,
};
use crate::dispatch::graph::{
    cluster_of, depth_of, edge_items, edge_json, graph_json, is_retracted, json_numbers, node_items,
    node_json, tier_of, SubEdge, SubNode, Subgraph,
};
use crate::dispatch::promote::{promoted_candidate_json, promoted_relation_json};
use crate::dispatch::render::{
    by_key, hit_json, json_object, kind_lines, list_item, list_json, pair_views, preview,
    quantile_text, quoted_all, ratio_text, recall_stats_middle, recall_stats_text, scope_lines,
    stats_head, stats_text, sweep_lines, view_json, EventKindStats, MemoryStats, MemoryView,
    RecallHit, RecallStats, SweepPoint,
};
use crate::json::{json_array, json_bool, json_optional};
use crate::memory::{Ops, RegistryView};
use crate::notes::usage_report;
use crate::outside::json_quoted;
use crate::proto::RecallEventKind;
use crate::text::{
    contains_text, decimal, lemma_field, lemma_first_field, lemma_last_field, views,
};
use vstd::prelude::*;

verus! {

/// A list shows each field of a memory under its own name: its confidence, the
/// beginning of its content, when it was made, its number and so on.
pub proof fn lists_show_every_field(v: MemoryView)
    ensures
        contains_text(list_item(v), "{\"confidence\":"@ + v.confidence@ + ",\"content_preview\":"@),
        contains_text(list_item(v), ",\"content_preview\":"@ + json_quoted(preview(v.content@)) + ",\"created_at\":"@),
        contains_text(list_item(v), ",\"created_at\":"@ + decimal(v.created_at as nat) + ",\"node_id\":"@),
        contains_text(list_item(v), ",\"node_id\":"@ + decimal(v.node_id as nat) + ",\"node_type\":"@),
        contains_text(list_item(v), ",\"node_type\":"@ + json_quoted(v.node_type@) + ",\"peer_id\":"@),
        contains_text(list_item(v), ",\"peer_id\":"@ + json_quoted(v.peer_id@) + ",\"retracted\":"@),
        contains_text(list_item(v), ",\"retracted\":"@ + json_bool(v.retracted) + ",\"salience\":"@),
        contains_text(list_item(v), ",\"salience\":"@ + v.salience@ + ",\"scope\":"@),
        contains_text(list_item(v), ",\"scope\":"@ + json_quoted(v.scope@) + ",\"session_id\":"@),
        contains_text(list_item(v), ",\"session_id\":"@ + json_quoted(v.session_id@) + ",\"tier\":"@),
        contains_text(list_item(v), ",\"tier\":"@ + json_quoted(v.tier.label()) + ",\"valid_until\":"@),
        contains_text(list_item(v), ",\"valid_until\":"@ + json_optional(v.valid_until) + "}"@),
{
    let s0 = "{\"confidence\":"@;
    lemma_first_field(s0, v.confidence@, ",\"content_preview\":"@);
    let s1 = s0 + v.confidence@ + ",\"content_preview\":"@;
    lemma_field(s0 + v.confidence@, ",\"content_preview\":"@, json_quoted(preview(v.content@)), ",\"created_at\":"@);
    let s2 = s1 + json_quoted(preview(v.content@)) + ",\"created_at\":"@;
    lemma_field(s1 + json_quoted(preview(v.content@)), ",\"created_at\":"@, decimal(v.created_at as nat), ",\"node_id\":"@);
    let s3 = s2 + decimal(v.created_at as nat) + ",\"node_id\":"@;
    lemma_field(s2 + decimal(v.created_at as nat), ",\"node_id\":"@, decimal(v.node_id as nat), ",\"node_type\":"@);
    let s4 = s3 + decimal(v.node_id as nat) + ",\"node_type\":"@;
    lemma_field(s3 + decimal(v.node_id as nat), ",\"node_type\":"@, json_quoted(v.node_type@), ",\"peer_id\":"@);
    let s5 = s4 + json_quoted(v.node_type@) + ",\"peer_id\":"@;
    lemma_field(s4 + json_quoted(v.node_type@), ",\"peer_id\":"@, json_quoted(v.peer_id@), ",\"retracted\":"@);
    let s6 = s5 + json_quoted(v.peer_id@) + ",\"retracted\":"@;
    lemma_field(s5 + json_quoted(v.peer_id@), ",\"retracted\":"@, json_bool(v.retracted), ",\"salience\":"@);
    let s7 = s6 + json_bool(v.retracted) + ",\"salience\":"@;
    lemma_field(s6 + json_bool(v.retracted), ",\"salience\":"@, v.salience@, ",\"scope\":"@);
    let s8 = s7 + v.salience@ + ",\"scope\":"@;
    lemma_field(s7 + v.salience@, ",\"scope\":"@, json_quoted(v.scope@), ",\"session_id\":"@);
    let s9 = s8 + json_quoted(v.scope@) + ",\"session_id\":"@;
    lemma_field(s8 + json_quoted(v.scope@), ",\"session_id\":"@, json_quoted(v.session_id@), ",\"tier\":"@);
    let s10 = s9 + json_quoted(v.session_id@) + ",\"tier\":"@;
    lemma_field(s9 + json_quoted(v.session_id@), ",\"tier\":"@, json_quoted(v.tier.label()), ",\"valid_until\":"@);
    let s11 = s10 + json_quoted(v.tier.label()) + ",\"valid_until\":"@;
    lemma_field(s10 + json_quoted(v.tier.label()), ",\"valid_until\":"@, json_optional(v.valid_until), "}"@);
    let s12 = s11 + json_optional(v.valid_until) + "}"@;
}

/// A single memory is shown with each of its fields under its own name, its
/// content whole.
pub proof fn single_memories_show_every_field(v: MemoryView)
    ensures
        contains_text(view_json(v), "{\"confidence\":"@ + v.confidence@ + ",\"content\":"@),
        contains_text(view_json(v), ",\"content\":"@ + json_quoted(v.content@) + ",\"created_at\":"@),
        contains_text(view_json(v), ",\"created_at\":"@ + decimal(v.created_at as nat) + ",\"entity_tags\":"@),
        contains_text(view_json(v), ",\"entity_tags\":"@ + json_array(quoted_all(views(v.entity_tags@))) + ",\"metadata\":"@),
        contains_text(view_json(v), ",\"metadata\":"@ + json_object(by_key(pair_views(v.metadata@))) + ",\"node_id\":"@),
        contains_text(view_json(v), ",\"node_id\":"@ + decimal(v.node_id as nat) + ",\"node_type\":"@),
        contains_text(view_json(v), ",\"node_type\":"@ + json_quoted(v.node_type@) + ",\"peer_id\":"@),
        contains_text(view_json(v), ",\"peer_id\":"@ + json_quoted(v.peer_id@) + ",\"retracted\":"@),
        contains_text(view_json(v), ",\"retracted\":"@ + json_bool(v.retracted) + ",\"salience\":"@),
        contains_text(view_json(v), ",\"salience\":"@ + v.salience@ + ",\"scope\":"@),
        contains_text(view_json(v), ",\"scope\":"@ + json_quoted(v.scope@) + ",\"session_id\":"@),
        contains_text(view_json(v), ",\"session_id\":"@ + json_quoted(v.session_id@) + ",\"tier\":"@),
        contains_text(view_json(v), ",\"tier\":"@ + json_quoted(v.tier.label()) + ",\"updated_at\":"@),
        contains_text(view_json(v), ",\"updated_at\":"@ + decimal(v.updated_at as nat) + ",\"valid_from\":"@),
        contains_text(view_json(v), ",\"valid_from\":"@ + json_optional(v.valid_from) + ",\"valid_until\":"@),
        contains_text(view_json(v), ",\"valid_until\":"@ + json_optional(v.valid_until) + "}"@),
{
    let s0 = "{\"confidence\":"@;
    lemma_first_field(s0, v.confidence@, ",\"content\":"@);
    let s1 = s0 + v.confidence@ + ",\"content\":"@;
    lemma_field(s0 + v.confidence@, ",\"content\":"@, json_quoted(v.content@), ",\"created_at\":"@);
    let s2 = s1 + json_quoted(v.content@) + ",\"created_at\":"@;
    lemma_field(s1 + json_quoted(v.content@), ",\"created_at\":"@, decimal(v.created_at as nat), ",\"entity_tags\":"@);
    let s3 = s2 + decimal(v.created_at as nat) + ",\"entity_tags\":"@;
    lemma_field(s2 + decimal(v.created_at as nat), ",\"entity_tags\":"@, json_array(quoted_all(views(v.entity_tags@))), ",\"metadata\":"@);
    let s4 = s3 + json_array(quoted_all(views(v.entity_tags@))) + ",\"metadata\":"@;
    lemma_field(s3 + json_array(quoted_all(views(v.entity_tags@))), ",\"metadata\":"@, json_object(by_key(pair_views(v.metadata@))), ",\"node_id\":"@);
    let s5 = s4 + json_object(by_key(pair_views(v.metadata@))) + ",\"node_id\":"@;
    lemma_field(s4 + json_object(by_key(pair_views(v.metadata@))), ",\"node_id\":"@, decimal(v.node_id as nat), ",\"node_type\":"@);
    let s6 = s5 + decimal(v.node_id as nat) + ",\"node_type\":"@;
    lemma_field(s5 + decimal(v.node_id as nat), ",\"node_type\":"@, json_quoted(v.node_type@), ",\"peer_id\":"@);
    let s7 = s6 + json_quoted(v.node_type@) + ",\"peer_id\":"@;
    lemma_field(s6 + json_quoted(v.node_type@), ",\"peer_id\":"@, json_quoted(v.peer_id@), ",\"retracted\":"@);
    let s8 = s7 + json_quoted(v.peer_id@) + ",\"retracted\":"@;
    lemma_field(s7 + json_quoted(v.peer_id@), ",\"retracted\":"@, json_bool(v.retracted), ",\"salience\":"@);
    let s9 = s8 + json_bool(v.retracted) + ",\"salience\":"@;
    lemma_field(s8 + json_bool(v.retracted), ",\"salience\":"@, v.salience@, ",\"scope\":"@);
    let s10 = s9 + v.salience@ + ",\"scope\":"@;
    lemma_field(s9 + v.salience@, ",\"scope\":"@, json_quoted(v.scope@), ",\"session_id\":"@);
    let s11 = s10 + json_quoted(v.scope@) + ",\"session_id\":"@;
    lemma_field(s10 + json_quoted(v.scope@), ",\"session_id\":"@, json_quoted(v.session_id@), ",\"tier\":"@);
    let s12 = s11 + json_quoted(v.session_id@) + ",\"tier\":"@;
    lemma_field(s11 + json_quoted(v.session_id@), ",\"tier\":"@, json_quoted(v.tier.label()), ",\"updated_at\":"@);
    let s13 = s12 + json_quoted(v.tier.label()) + ",\"updated_at\":"@;
    lemma_field(s12 + json_quoted(v.tier.label()), ",\"updated_at\":"@, decimal(v.updated_at as nat), ",\"valid_from\":"@);
    let s14 = s13 + decimal(v.updated_at as nat) + ",\"valid_from\":"@;
    lemma_field(s13 + decimal(v.updated_at as nat), ",\"valid_from\":"@, json_optional(v.valid_from), ",\"valid_until\":"@);
    let s15 = s14 + json_optional(v.valid_from) + ",\"valid_until\":"@;
    lemma_field(s14 + json_optional(v.valid_from), ",\"valid_until\":"@, json_optional(v.valid_until), "}"@);
    let s16 = s15 + json_optional(v.valid_until) + "}"@;
}

/// A node of the graph is shown with each of its fields under its own name.
pub proof fn graph_nodes_show_every_field(n: SubNode, depth: nat, cluster: nat)
    ensures
        contains_text(node_json(n, depth, cluster), "{\"id\":"@ + decimal(n.id as nat) + ",\"label\":"@),
        contains_text(node_json(n, depth, cluster), ",\"label\":"@ + json_quoted(n.name@) + ",\"type\":"@),
        contains_text(node_json(n, depth, cluster), ",\"type\":"@ + json_quoted(n.node_type@) + ",\"salience\":"@),
        contains_text(node_json(n, depth, cluster), ",\"salience\":"@ + n.salience_text@ + ",\"depth\":"@),
        contains_text(node_json(n, depth, cluster), ",\"depth\":"@ + decimal(depth) + ",\"tier\":"@),
        contains_text(node_json(n, depth, cluster), ",\"tier\":"@ + json_quoted(tier_of(n.salience).label()) + ",\"created_at\":"@),
        contains_text(node_json(n, depth, cluster), ",\"created_at\":"@ + decimal(n.created_at as nat) + ",\"entity_tags\":"@),
        contains_text(node_json(n, depth, cluster), ",\"entity_tags\":"@ + json_array(quoted_all(views(n.entity_tags@))) + ",\"retracted\":"@),
        contains_text(node_json(n, depth, cluster), ",\"retracted\":"@ + json_bool(is_retracted(n)) + ",\"cluster\":"@),
        contains_text(node_json(n, depth, cluster), ",\"cluster\":"@ + decimal(cluster) + ",\"doi\":"@),
        contains_text(node_json(n, depth, cluster), ",\"doi\":"@ + n.doi_text@ + "}"@),
{
    let s0 = "{\"id\":"@;
    lemma_first_field(s0, decimal(n.id as nat), ",\"label\":"@);
    let s1 = s0 + decimal(n.id as nat) + ",\"label\":"@;
    lemma_field(s0 + decimal(n.id as nat), ",\"label\":"@, json_quoted(n.name@), ",\"type\":"@);
    let s2 = s1 + json_quoted(n.name@) + ",\"type\":"@;
    lemma_field(s1 + json_quoted(n.name@), ",\"type\":"@, json_quoted(n.node_type@), ",\"salience\":"@);
    let s3 = s2 + json_quoted(n.node_type@) + ",\"salience\":"@;
    lemma_field(s2 + json_quoted(n.node_type@), ",\"salience\":"@, n.salience_text@, ",\"depth\":"@);
    let s4 = s3 + n.salience_text@ + ",\"depth\":"@;
    lemma_field(s3 + n.salience_text@, ",\"depth\":"@, decimal(depth), ",\"tier\":"@);
    let s5 = s4 + decimal(depth) + ",\"tier\":"@;
    lemma_field(s4 + decimal(depth), ",\"tier\":"@, json_quoted(tier_of(n.salience).label()), ",\"created_at\":"@);
    let s6 = s5 + json_quoted(tier_of(n.salience).label()) + ",\"created_at\":"@;
    lemma_field(s5 + json_quoted(tier_of(n.salience).label()), ",\"created_at\":"@, decimal(n.created_at as nat), ",\"entity_tags\":"@);
    let s7 = s6 + decimal(n.created_at as nat) + ",\"entity_tags\":"@;
    lemma_field(s6 + decimal(n.created_at as nat), ",\"entity_tags\":"@, json_array(quoted_all(views(n.entity_tags@))), ",\"retracted\":"@);
    let s8 = s7 + json_array(quoted_all(views(n.entity_tags@))) + ",\"retracted\":"@;
    lemma_field(s7 + json_array(quoted_all(views(n.entity_tags@))), ",\"retracted\":"@, json_bool(is_retracted(n)), ",\"cluster\":"@);
    let s9 = s8 + json_bool(is_retracted(n)) + ",\"cluster\":"@;
    lemma_field(s8 + json_bool(is_retracted(n)), ",\"cluster\":"@, decimal(cluster), ",\"doi\":"@);
    let s10 = s9 + decimal(cluster) + ",\"doi\":"@;
    lemma_field(s9 + decimal(cluster), ",\"doi\":"@, n.doi_text@, "}"@);
    let s11 = s10 + n.doi_text@ + "}"@;
}

/// An edge of the graph is shown with each of its fields under its own name: it
/// leads from its source to its target.
pub proof fn graph_edges_show_every_field(e: SubEdge)
    ensures
        contains_text(edge_json(e), "{\"id\":"@ + decimal(e.id as nat) + ",\"source\":"@),
        contains_text(edge_json(e), ",\"source\":"@ + decimal(e.source as nat) + ",\"target\":"@),
        contains_text(edge_json(e), ",\"target\":"@ + decimal(e.target as nat) + ",\"type\":"@),
        contains_text(edge_json(e), ",\"type\":"@ + json_quoted(e.edge_type@) + ",\"weight\":"@),
        contains_text(edge_json(e), ",\"weight\":"@ + e.weight_text@ + "}"@),
{
    let s0 = "{\"id\":"@;
    lemma_first_field(s0, decimal(e.id as nat), ",\"source\":"@);
    let s1 = s0 + decimal(e.id as nat) + ",\"source\":"@;
    lemma_field(s0 + decimal(e.id as nat), ",\"source\":"@, decimal(e.source as nat), ",\"target\":"@);
    let s2 = s1 + decimal(e.source as nat) + ",\"target\":"@;
    lemma_field(s1 + decimal(e.source as nat), ",\"target\":"@, decimal(e.target as nat), ",\"type\":"@);
    let s3 = s2 + decimal(e.target as nat) + ",\"type\":"@;
    lemma_field(s2 + decimal(e.target as nat), ",\"type\":"@, json_quoted(e.edge_type@), ",\"weight\":"@);
    let s4 = s3 + json_quoted(e.edge_type@) + ",\"weight\":"@;
    lemma_field(s3 + json_quoted(e.edge_type@), ",\"weight\":"@, e.weight_text@, "}"@);
    let s5 = s4 + e.weight_text@ + "}"@;
}

/// A memory that a recall found is named by its number, with its score and its
/// cosine.
pub proof fn hits_show_every_field(h: RecallHit)
    ensures
        contains_text(hit_json(h), "{\"cosine\":"@ + h.cosine@ + ",\"node_id\":"@),
        contains_text(hit_json(h), ",\"node_id\":"@ + decimal(h.node_id as nat) + ",\"score\":"@),
        contains_text(hit_json(h), ",\"score\":"@ + h.score@ + "}"@),
{
    let s0 = "{\"cosine\":"@;
    lemma_first_field(s0, h.cosine@, ",\"node_id\":"@);
    let s1 = s0 + h.cosine@ + ",\"node_id\":"@;
    lemma_field(s0 + h.cosine@, ",\"node_id\":"@, decimal(h.node_id as nat), ",\"score\":"@);
    let s2 = s1 + decimal(h.node_id as nat) + ",\"score\":"@;
    lemma_field(s1 + decimal(h.node_id as nat), ",\"score\":"@, h.score@, "}"@);
    let s3 = s2 + h.score@ + "}"@;
}

/// The reply to a link names the node it leads from, the node it leads to, its
/// label and its edge, each in its place.
pub proof fn links_are_told_as_made(from_id: u64, to_id: u64, label: Seq<char>, edge: u64)
    ensures
        contains_text(linked_text(from_id, to_id, label, edge), "linked node "@ + decimal(from_id as nat) + " -> node "@),
        contains_text(linked_text(from_id, to_id, label, edge), " -> node "@ + decimal(to_id as nat) + " ("@),
        contains_text(linked_text(from_id, to_id, label, edge), " ("@ + label + ") as edge "@),
        contains_text(linked_text(from_id, to_id, label, edge), ") as edge "@ + decimal(edge as nat)),
{
    let s0 = "linked node "@;
    lemma_first_field(s0, decimal(from_id as nat), " -> node "@);
    let s1 = s0 + decimal(from_id as nat) + " -> node "@;
    lemma_field(s0 + decimal(from_id as nat), " -> node "@, decimal(to_id as nat), " ("@);
    let s2 = s1 + decimal(to_id as nat) + " ("@;
    lemma_field(s1 + decimal(to_id as nat), " ("@, label, ") as edge "@);
    let s3 = s2 + label + ") as edge "@;
    lemma_last_field(s2 + label, ") as edge "@, decimal(edge as nat));
}

/// The reply to a supersession says which node gave way to which.
pub proof fn supersessions_are_told_as_made(new_id: u64, old_id: u64, edge: u64)
    ensures
        contains_text(superseded_text(new_id, old_id, edge), "superseded "@ + decimal(old_id as nat) + " by "@),
        contains_text(superseded_text(new_id, old_id, edge), " by "@ + decimal(new_id as nat) + " (edge "@),
        contains_text(superseded_text(new_id, old_id, edge), " (edge "@ + decimal(edge as nat) + ")"@),
{
    let s0 = "superseded "@;
    lemma_first_field(s0, decimal(old_id as nat), " by "@);
    let s1 = s0 + decimal(old_id as nat) + " by "@;
    lemma_field(s0 + decimal(old_id as nat), " by "@, decimal(new_id as nat), " (edge "@);
    let s2 = s1 + decimal(new_id as nat) + " (edge "@;
    lemma_field(s1 + decimal(new_id as nat), " (edge "@, decimal(edge as nat), ")"@);
    let s3 = s2 + decimal(edge as nat) + ")"@;
}

/// The account of the service shows each counter under its own name.
pub proof fn usage_shows_every_counter(ops: Ops, backlog: nat, known: nat, total: nat, stale: nat)
    ensures
        contains_text(usage_report(ops, backlog, known, total, stale), "usage (this daemon):\n  recalls: "@ + decimal(ops.recalls as nat) + " ("@),
        contains_text(usage_report(ops, backlog, known, total, stale), " ("@ + decimal(ops.reinforcing_recalls as nat) + " reinforcing)\n  remembers: "@),
        contains_text(usage_report(ops, backlog, known, total, stale), " reinforcing)\n  remembers: "@ + decimal(ops.remembers as nat) + "\n  relates: "@),
        contains_text(usage_report(ops, backlog, known, total, stale), "\n  relates: "@ + decimal(ops.relates as nat) + "\n  captured turns: "@),
        contains_text(usage_report(ops, backlog, known, total, stale), "\n  captured turns: "@ + decimal(ops.captured_turns as nat) + " ("@),
        contains_text(usage_report(ops, backlog, known, total, stale), " ("@ + decimal(known) + " known)\n  extraction pulls: "@),
        contains_text(usage_report(ops, backlog, known, total, stale), " known)\n  extraction pulls: "@ + decimal(ops.extraction_pulls as nat) + "\n  extraction backlog: "@),
        contains_text(usage_report(ops, backlog, known, total, stale), "\n  extraction backlog: "@ + decimal(backlog) + "\n  memories: "@),
        contains_text(usage_report(ops, backlog, known, total, stale), "\n  memories: "@ + decimal(total) + " ("@),
        contains_text(usage_report(ops, backlog, known, total, stale), " ("@ + decimal(stale) + " stale)\nfailures (this daemon):\n  dispatch errors: "@),
        contains_text(usage_report(ops, backlog, known, total, stale), " stale)\nfailures (this daemon):\n  dispatch errors: "@ + decimal(ops.dispatch_errors as nat) + " ("@),
        contains_text(usage_report(ops, backlog, known, total, stale), " ("@ + decimal(ops.ingest_errors as nat) + " ingest)\n  empty recalls: "@),
        contains_text(usage_report(ops, backlog, known, total, stale), " ingest)\n  empty recalls: "@ + decimal(ops.empty_recalls as nat) + "\n"@),
{
    let s0 = "usage (this daemon):\n  recalls: "@;
    lemma_first_field(s0, decimal(ops.recalls as nat), " ("@);
    let s1 = s0 + decimal(ops.recalls as nat) + " ("@;
    lemma_field(s0 + decimal(ops.recalls as nat), " ("@, decimal(ops.reinforcing_recalls as nat), " reinforcing)\n  remembers: "@);
    let s2 = s1 + decimal(ops.reinforcing_recalls as nat) + " reinforcing)\n  remembers: "@;
    lemma_field(s1 + decimal(ops.reinforcing_recalls as nat), " reinforcing)\n  remembers: "@, decimal(ops.remembers as nat), "\n  relates: "@);
    let s3 = s2 + decimal(ops.remembers as nat) + "\n  relates: "@;
    lemma_field(s2 + decimal(ops.remembers as nat), "\n  relates: "@, decimal(ops.relates as nat), "\n  captured turns: "@);
    let s4 = s3 + decimal(ops.relates as nat) + "\n  captured turns: "@;
    lemma_field(s3 + decimal(ops.relates as nat), "\n  captured turns: "@, decimal(ops.captured_turns as nat), " ("@);
    let s5 = s4 + decimal(ops.captured_turns as nat) + " ("@;
    lemma_field(s4 + decimal(ops.captured_turns as nat), " ("@, decimal(known), " known)\n  extraction pulls: "@);
    let s6 = s5 + decimal(known) + " known)\n  extraction pulls: "@;
    lemma_field(s5 + decimal(known), " known)\n  extraction pulls: "@, decimal(ops.extraction_pulls as nat), "\n  extraction backlog: "@);
    let s7 = s6 + decimal(ops.extraction_pulls as nat) + "\n  extraction backlog: "@;
    lemma_field(s6 + decimal(ops.extraction_pulls as nat), "\n  extraction backlog: "@, decimal(backlog), "\n  memories: "@);
    let s8 = s7 + decimal(backlog) + "\n  memories: "@;
    lemma_field(s7 + decimal(backlog), "\n  memories: "@, decimal(total), " ("@);
    let s9 = s8 + decimal(total) + " ("@;
    lemma_field(s8 + decimal(total), " ("@, decimal(stale), " stale)\nfailures (this daemon):\n  dispatch errors: "@);
    let s10 = s9 + decimal(stale) + " stale)\nfailures (this daemon):\n  dispatch errors: "@;
    lemma_field(s9 + decimal(stale), " stale)\nfailures (this daemon):\n  dispatch errors: "@, decimal(ops.dispatch_errors as nat), " ("@);
    let s11 = s10 + decimal(ops.dispatch_errors as nat) + " ("@;
    lemma_field(s10 + decimal(ops.dispatch_errors as nat), " ("@, decimal(ops.ingest_errors as nat), " ingest)\n  empty recalls: "@);
    let s12 = s11 + decimal(ops.ingest_errors as nat) + " ingest)\n  empty recalls: "@;
    lemma_field(s11 + decimal(ops.ingest_errors as nat), " ingest)\n  empty recalls: "@, decimal(ops.empty_recalls as nat), "\n"@);
    let s13 = s12 + decimal(ops.empty_recalls as nat) + "\n"@;
}

/// The account of a graph shows each figure under its own name.
pub proof fn graph_accounts_show_every_figure(s: MemoryStats)
    ensures
        contains_text(stats_head(s), "nodes:                "@ + decimal(s.node_count as nat) + "\nedges:                "@),
        contains_text(stats_head(s), "\nedges:                "@ + decimal(s.edge_count as nat) + "\norphans:              "@),
        contains_text(stats_head(s), "\norphans:              "@ + decimal(s.orphan_count as nat) + " ("@),
        contains_text(stats_head(s), " ("@ + s.orphan_percent@ + "%)\ncontradictions:       "@),
        contains_text(stats_head(s), "%)\ncontradictions:       "@ + decimal(s.contradiction_count as nat) + " ("@),
        contains_text(stats_head(s), " ("@ + s.contradiction_percent@ + "%)\nsupersedes:           "@),
        contains_text(stats_head(s), "%)\nsupersedes:           "@ + decimal(s.supersede_count as nat) + "\nretracted:            "@),
        contains_text(stats_head(s), "\nretracted:            "@ + decimal(s.retracted_count as nat) + "\nmissing embeddings:   "@),
        contains_text(stats_head(s), "\nmissing embeddings:   "@ + decimal(s.missing_embedding_count as nat) + "\navg salience:         "@),
        contains_text(stats_head(s), "\navg salience:         "@ + s.avg_salience@ + "\navg degree:           "@),
        contains_text(stats_head(s), "\navg degree:           "@ + s.average_degree@ + "\nstale (>30d):         "@),
        contains_text(stats_head(s), "\nstale (>30d):         "@ + s.stale_percent@ + "%\nsalience entropy:     "@),
        contains_text(stats_head(s), "%\nsalience entropy:     "@ + s.salience_entropy@ + " bits\npeers:                "@),
        contains_text(stats_head(s), " bits\npeers:                "@ + decimal(s.peer_count as nat) + "\nhealth grade:         "@),
        contains_text(stats_head(s), "\nhealth grade:         "@ + s.grade@ + "\n"@),
{
    let s0 = "nodes:                "@;
    lemma_first_field(s0, decimal(s.node_count as nat), "\nedges:                "@);
    let s1 = s0 + decimal(s.node_count as nat) + "\nedges:                "@;
    lemma_field(s0 + decimal(s.node_count as nat), "\nedges:                "@, decimal(s.edge_count as nat), "\norphans:              "@);
    let s2 = s1 + decimal(s.edge_count as nat) + "\norphans:              "@;
    lemma_field(s1 + decimal(s.edge_count as nat), "\norphans:              "@, decimal(s.orphan_count as nat), " ("@);
    let s3 = s2 + decimal(s.orphan_count as nat) + " ("@;
    lemma_field(s2 + decimal(s.orphan_count as nat), " ("@, s.orphan_percent@, "%)\ncontradictions:       "@);
    let s4 = s3 + s.orphan_percent@ + "%)\ncontradictions:       "@;
    lemma_field(s3 + s.orphan_percent@, "%)\ncontradictions:       "@, decimal(s.contradiction_count as nat), " ("@);
    let s5 = s4 + decimal(s.contradiction_count as nat) + " ("@;
    lemma_field(s4 + decimal(s.contradiction_count as nat), " ("@, s.contradiction_percent@, "%)\nsupersedes:           "@);
    let s6 = s5 + s.contradiction_percent@ + "%)\nsupersedes:           "@;
    lemma_field(s5 + s.contradiction_percent@, "%)\nsupersedes:           "@, decimal(s.supersede_count as nat), "\nretracted:            "@);
    let s7 = s6 + decimal(s.supersede_count as nat) + "\nretracted:            "@;
    lemma_field(s6 + decimal(s.supersede_count as nat), "\nretracted:            "@, decimal(s.retracted_count as nat), "\nmissing embeddings:   "@);
    let s8 = s7 + decimal(s.retracted_count as nat) + "\nmissing embeddings:   "@;
    lemma_field(s7 + decimal(s.retracted_count as nat), "\nmissing embeddings:   "@, decimal(s.missing_embedding_count as nat), "\navg salience:         "@);
    let s9 = s8 + decimal(s.missing_embedding_count as nat) + "\navg salience:         "@;
    lemma_field(s8 + decimal(s.missing_embedding_count as nat), "\navg salience:         "@, s.avg_salience@, "\navg degree:           "@);
    let s10 = s9 + s.avg_salience@ + "\navg degree:           "@;
    lemma_field(s9 + s.avg_salience@, "\navg degree:           "@, s.average_degree@, "\nstale (>30d):         "@);
    let s11 = s10 + s.average_degree@ + "\nstale (>30d):         "@;
    lemma_field(s10 + s.average_degree@, "\nstale (>30d):         "@, s.stale_percent@, "%\nsalience entropy:     "@);
    let s12 = s11 + s.stale_percent@ + "%\nsalience entropy:     "@;
    lemma_field(s11 + s.stale_percent@, "%\nsalience entropy:     "@, s.salience_entropy@, " bits\npeers:                "@);
    let s13 = s12 + s.salience_entropy@ + " bits\npeers:                "@;
    lemma_field(s12 + s.salience_entropy@, " bits\npeers:                "@, decimal(s.peer_count as nat), "\nhealth grade:         "@);
    let s14 = s13 + decimal(s.peer_count as nat) + "\nhealth grade:         "@;
    lemma_field(s13 + decimal(s.peer_count as nat), "\nhealth grade:         "@, s.grade@, "\n"@);
    let s15 = s14 + s.grade@ + "\n"@;
}

/// The account of past recalls shows each figure under its own name.
pub proof fn recall_accounts_show_every_figure(s: RecallStats)
    ensures
        contains_text(recall_stats_middle(s), "  abstentions:\n    empty: "@ + decimal(s.abstentions.empty as nat) + "\n    readout-only: "@),
        contains_text(recall_stats_middle(s), "\n    readout-only: "@ + decimal(s.abstentions.readout_only as nat) + "\n    cosine-only: "@),
        contains_text(recall_stats_middle(s), "\n    cosine-only: "@ + decimal(s.abstentions.cosine_only as nat) + "\n    both: "@),
        contains_text(recall_stats_middle(s), "\n    both: "@ + decimal(s.abstentions.both as nat) + "\n  cosine:\n    samples: "@),
        contains_text(recall_stats_middle(s), "\n  cosine:\n    samples: "@ + decimal(s.cosine.samples as nat) + "\n    nulls: "@),
        contains_text(recall_stats_middle(s), "\n    nulls: "@ + decimal(s.cosine.nulls as nat) + "\n    p50: "@),
        contains_text(recall_stats_middle(s), "\n    p50: "@ + quantile_text(s.cosine.p50) + "\n    p90: "@),
        contains_text(recall_stats_middle(s), "\n    p90: "@ + quantile_text(s.cosine.p90) + "\n    p95: "@),
        contains_text(recall_stats_middle(s), "\n    p95: "@ + quantile_text(s.cosine.p95) + "\n  auto exposure (exposure, not quality):\n    event exposure: "@),
        contains_text(recall_stats_middle(s), "\n  auto exposure (exposure, not quality):\n    event exposure: "@ + ratio_text(s.auto_exposure.event_percent@, s.auto_exposure.events_with_auto as nat, s.auto_exposure.eligible_events as nat) + "\n    slot exposure: "@),
        contains_text(recall_stats_middle(s), "\n    slot exposure: "@ + ratio_text(s.auto_exposure.slot_percent@, s.auto_exposure.auto_slots as nat, s.auto_exposure.result_slots as nat) + "\n  eligibility sweep:\n"@),
{
    let s0 = "  abstentions:\n    empty: "@;
    lemma_first_field(s0, decimal(s.abstentions.empty as nat), "\n    readout-only: "@);
    let s1 = s0 + decimal(s.abstentions.empty as nat) + "\n    readout-only: "@;
    lemma_field(s0 + decimal(s.abstentions.empty as nat), "\n    readout-only: "@, decimal(s.abstentions.readout_only as nat), "\n    cosine-only: "@);
    let s2 = s1 + decimal(s.abstentions.readout_only as nat) + "\n    cosine-only: "@;
    lemma_field(s1 + decimal(s.abstentions.readout_only as nat), "\n    cosine-only: "@, decimal(s.abstentions.cosine_only as nat), "\n    both: "@);
    let s3 = s2 + decimal(s.abstentions.cosine_only as nat) + "\n    both: "@;
    lemma_field(s2 + decimal(s.abstentions.cosine_only as nat), "\n    both: "@, decimal(s.abstentions.both as nat), "\n  cosine:\n    samples: "@);
    let s4 = s3 + decimal(s.abstentions.both as nat) + "\n  cosine:\n    samples: "@;
    lemma_field(s3 + decimal(s.abstentions.both as nat), "\n  cosine:\n    samples: "@, decimal(s.cosine.samples as nat), "\n    nulls: "@);
    let s5 = s4 + decimal(s.cosine.samples as nat) + "\n    nulls: "@;
    lemma_field(s4 + decimal(s.cosine.samples as nat), "\n    nulls: "@, decimal(s.cosine.nulls as nat), "\n    p50: "@);
    let s6 = s5 + decimal(s.cosine.nulls as nat) + "\n    p50: "@;
    lemma_field(s5 + decimal(s.cosine.nulls as nat), "\n    p50: "@, quantile_text(s.cosine.p50), "\n    p90: "@);
    let s7 = s6 + quantile_text(s.cosine.p50) + "\n    p90: "@;
    lemma_field(s6 + quantile_text(s.cosine.p50), "\n    p90: "@, quantile_text(s.cosine.p90), "\n    p95: "@);
    let s8 = s7 + quantile_text(s.cosine.p90) + "\n    p95: "@;
    lemma_field(s7 + quantile_text(s.cosine.p90), "\n    p95: "@, quantile_text(s.cosine.p95), "\n  auto exposure (exposure, not quality):\n    event exposure: "@);
    let s9 = s8 + quantile_text(s.cosine.p95) + "\n  auto exposure (exposure, not quality):\n    event exposure: "@;
    lemma_field(s8 + quantile_text(s.cosine.p95), "\n  auto exposure (exposure, not quality):\n    event exposure: "@, ratio_text(s.auto_exposure.event_percent@, s.auto_exposure.events_with_auto as nat, s.auto_exposure.eligible_events as nat), "\n    slot exposure: "@);
    let s10 = s9 + ratio_text(s.auto_exposure.event_percent@, s.auto_exposure.events_with_auto as nat, s.auto_exposure.eligible_events as nat) + "\n    slot exposure: "@;
    lemma_field(s9 + ratio_text(s.auto_exposure.event_percent@, s.auto_exposure.events_with_auto as nat, s.auto_exposure.eligible_events as nat), "\n    slot exposure: "@, ratio_text(s.auto_exposure.slot_percent@, s.auto_exposure.auto_slots as nat, s.auto_exposure.result_slots as nat), "\n  eligibility sweep:\n"@);
    let s11 = s10 + ratio_text(s.auto_exposure.slot_percent@, s.auto_exposure.auto_slots as nat, s.auto_exposure.result_slots as nat) + "\n  eligibility sweep:\n"@;
}

/// A part of the graph is shown with the nodes it was started from, whether it
/// was cut short, its nodes and its edges.
pub proof fn graphs_show_every_part(sub: Subgraph, seed_ids: Seq<u64>, clusters: Seq<(u64, u32)>)
    ensures
        contains_text(graph_json(sub, seed_ids, clusters), "{\"schema\":1,\"seed_ids\":"@ + json_numbers(seed_ids) + ",\"truncated\":"@),
        contains_text(graph_json(sub, seed_ids, clusters), ",\"truncated\":"@ + json_bool(sub.truncated) + ",\"nodes\":"@),
        contains_text(graph_json(sub, seed_ids, clusters), ",\"nodes\":"@ + json_array(node_items(sub, clusters)) + ",\"edges\":"@),
        contains_text(graph_json(sub, seed_ids, clusters), ",\"edges\":"@ + json_array(edge_items(sub)) + "}"@),
{
    let s0 = "{\"schema\":1,\"seed_ids\":"@;
    lemma_first_field(s0, json_numbers(seed_ids), ",\"truncated\":"@);
    let s1 = s0 + json_numbers(seed_ids) + ",\"truncated\":"@;
    lemma_field(s0 + json_numbers(seed_ids), ",\"truncated\":"@, json_bool(sub.truncated), ",\"nodes\":"@);
    let s2 = s1 + json_bool(sub.truncated) + ",\"nodes\":"@;
    lemma_field(s1 + json_bool(sub.truncated), ",\"nodes\":"@, json_array(node_items(sub, clusters)), ",\"edges\":"@);
    let s3 = s2 + json_array(node_items(sub, clusters)) + ",\"edges\":"@;
    lemma_field(s2 + json_array(node_items(sub, clusters)), ",\"edges\":"@, json_array(edge_items(sub)), "}"@);
    let s4 = s3 + json_array(edge_items(sub)) + "}"@;
}

/// A delivered turn is shown with its content and its number.
pub proof fn deliveries_show_every_field(item: PullItem)
    ensures
        contains_text(item_json(item), "{\"content\":"@ + json_quoted(item.content@) + ",\"node_id\":"@),
        contains_text(item_json(item), ",\"node_id\":"@ + decimal(item.id as nat) + "}"@),
{
    let s0 = "{\"content\":"@;
    lemma_first_field(s0, json_quoted(item.content@), ",\"node_id\":"@);
    let s1 = s0 + json_quoted(item.content@) + ",\"node_id\":"@;
    lemma_field(s0 + json_quoted(item.content@), ",\"node_id\":"@, decimal(item.id as nat), "}"@);
    let s2 = s1 + decimal(item.id as nat) + "}"@;
}

/// The reply to a promotion tells whether the fact was there before, and which
/// fact it is.
pub proof fn promoted_candidates_are_told(fact_id: u64, already: bool)
    ensures
        contains_text(promoted_candidate_json(fact_id, already), "{\"already_materialized\":"@ + json_bool(already) + ",\"atomic_fact_id\":"@),
        contains_text(promoted_candidate_json(fact_id, already), ",\"atomic_fact_id\":"@ + decimal(fact_id as nat) + ",\"node_id\":"@),
        contains_text(promoted_candidate_json(fact_id, already), ",\"node_id\":"@ + decimal(fact_id as nat) + "}"@),
{
    let s0 = "{\"already_materialized\":"@;
    lemma_first_field(s0, json_bool(already), ",\"atomic_fact_id\":"@);
    let s1 = s0 + json_bool(already) + ",\"atomic_fact_id\":"@;
    lemma_field(s0 + json_bool(already), ",\"atomic_fact_id\":"@, decimal(fact_id as nat), ",\"node_id\":"@);
    let s2 = s1 + decimal(fact_id as nat) + ",\"node_id\":"@;
    lemma_field(s1 + decimal(fact_id as nat), ",\"node_id\":"@, decimal(fact_id as nat), "}"@);
    let s3 = s2 + decimal(fact_id as nat) + "}"@;
}

/// The reply to the promotion of a relation tells whether it was there before, and
/// which relation it is.
pub proof fn promoted_relations_are_told(relation_id: u64, already: bool)
    ensures
        contains_text(promoted_relation_json(relation_id, already), "{\"already_materialized\":"@ + json_bool(already) + ",\"atomic_relation_id\":"@),
        contains_text(promoted_relation_json(relation_id, already), ",\"atomic_relation_id\":"@ + decimal(relation_id as nat) + ",\"edge_id\":"@),
        contains_text(promoted_relation_json(relation_id, already), ",\"edge_id\":"@ + decimal(relation_id as nat) + "}"@),
{
    let s0 = "{\"already_materialized\":"@;
    lemma_first_field(s0, json_bool(already), ",\"atomic_relation_id\":"@);
    let s1 = s0 + json_bool(already) + ",\"atomic_relation_id\":"@;
    lemma_field(s0 + json_bool(already), ",\"atomic_relation_id\":"@, decimal(relation_id as nat), ",\"edge_id\":"@);
    let s2 = s1 + decimal(relation_id as nat) + ",\"edge_id\":"@;
    lemma_field(s1 + decimal(relation_id as nat), ",\"edge_id\":"@, decimal(relation_id as nat), "}"@);
    let s3 = s2 + decimal(relation_id as nat) + "}"@;
}

/// Each node and each edge of a part of the graph is shown once, in its place,
/// with the distance and the community that are listed for it.
pub proof fn graphs_show_all_their_nodes(
    sub: Subgraph,
    clusters: Seq<(u64, u32)>,
    i: int,
    j: int,
)
    requires
        0 <= i < sub.nodes@.len(),
        0 <= j < sub.edges@.len(),
    ensures
        node_items(sub, clusters).len() == sub.nodes@.len(),
        node_items(sub, clusters)[i] == node_json(
            sub.nodes@[i],
            depth_of(sub.depths@, sub.nodes@[i].id),
            cluster_of(clusters, sub.nodes@[i].id),
        ),
        edge_items(sub).len() == sub.edges@.len(),
        edge_items(sub)[j] == edge_json(sub.edges@[j]),
{
}

/// A list, a recall and a delivery show all their items, in their order.
pub proof fn lists_keep_their_order(
    list: Seq<MemoryView>,
    items: Seq<PullItem>,
    numbers: Seq<u64>,
    texts: Seq<Seq<char>>,
)
    ensures
        list_json(list) == json_array(Seq::new(list.len(), |i: int| list_item(list[i]))),
        delivered_json(items) == json_array(Seq::new(items.len(), |i: int| item_json(items[i]))),
        item_ids(items) == Seq::new(items.len(), |i: int| items[i].id),
        json_numbers(numbers) == json_array(
            Seq::new(numbers.len(), |i: int| decimal(numbers[i] as nat)),
        ),
        quoted_all(texts) == Seq::new(texts.len(), |i: int| json_quoted(texts[i])),
{
    assert(list.map_values(|v: MemoryView| list_item(v)) =~= Seq::new(
        list.len(),
        |i: int| list_item(list[i]),
    ));
    assert(items.map_values(|i: PullItem| item_json(i)) =~= Seq::new(
        items.len(),
        |i: int| item_json(items[i]),
    ));
    assert(item_ids(items) =~= Seq::new(items.len(), |i: int| items[i].id));
    assert(numbers.map_values(|n: u64| decimal(n as nat)) =~= Seq::new(
        numbers.len(),
        |i: int| decimal(numbers[i] as nat),
    ));
    assert(quoted_all(texts) =~= Seq::new(texts.len(), |i: int| json_quoted(texts[i])));
}

/// Each scope, each kind of recall and each threshold has its own line, with its
/// own figures, in its place.
pub proof fn every_entry_has_its_line(
    scopes: Seq<(String, u64)>,
    scope: (String, u64),
    kinds: Seq<EventKindStats>,
    kind: EventKindStats,
    sweep: Seq<SweepPoint>,
    point: SweepPoint,
)
    ensures
        scope_lines(scopes.push(scope)) == scope_lines(scopes) + "  "@ + scope.0@ + ": "@ + decimal(
            scope.1 as nat,
        ) + "\n"@,
        scope_lines(Seq::empty()) == Seq::<char>::empty(),
        kind_lines(kinds.push(kind)) == kind_lines(kinds) + "    "@ + kind.event_kind.label()
            + ": attempts "@ + decimal(kind.attempts as nat) + ", eligible "@ + decimal(
            kind.eligible as nat,
        ) + "\n"@,
        kind_lines(Seq::empty()) == Seq::<char>::empty(),
        sweep_lines(sweep.push(point)) == sweep_lines(sweep) + "    "@ + point.threshold@
            + ": eligible "@ + decimal(point.eligible as nat) + " / attempts "@ + decimal(
            point.attempts as nat,
        ) + "\n"@,
        sweep_lines(Seq::empty()) == Seq::<char>::empty(),
{
    assert(scopes.push(scope).drop_last() =~= scopes);
    assert(kinds.push(kind).drop_last() =~= kinds);
    assert(sweep.push(point).drop_last() =~= sweep);
}

/// Each kind of recall has its own name.
pub proof fn kinds_of_recall_have_their_names(kind: RecallEventKind)
    ensures
        kind == RecallEventKind::SessionStart ==> kind.label() == "SessionStart"@,
        kind == RecallEventKind::UserPrompt ==> kind.label() == "UserPrompt"@,
        kind == RecallEventKind::Tool ==> kind.label() == "Tool"@,
        kind == RecallEventKind::Unknown ==> kind.label() == "Unknown"@,
{
}

/// The account of a namespace tells the figures of the store, then those of the
/// service: how many turns wait in this namespace, how many are known, and how
/// many memories there are. Scopes are told where there are any.
pub proof fn accounts_tell_of_their_namespace(
    r: RegistryView,
    key: Seq<char>,
    outcome: StatsOutcome,
)
    ensures
        account(r, key, outcome) == stats_text(outcome.stats) + "\n"@ + usage_report(
            r.ops,
            r.unextracted[key].len(),
            r.seen_turn_keys.len(),
            outcome.total as nat,
            outcome.stale as nat,
        ),
        outcome.stats.scope_distribution@.len() == 0 ==> stats_text(outcome.stats) == stats_head(
            outcome.stats,
        ),
        outcome.stats.scope_distribution@.len() > 0 ==> stats_text(outcome.stats) == stats_head(
            outcome.stats,
        ) + "scope distribution:\n"@ + scope_lines(outcome.stats.scope_distribution@),
{
}

/// What can be read of past recalls is told in full; what cannot be read is told
/// to be unavailable.
pub proof fn past_recalls_are_told_in_full(s: RecallStats)
    ensures
        recall_stats_text(Some(s)) == "recall telemetry (injection eligibility, not delivery)\n"@
            + "  attempts: "@ + decimal(s.total_attempts as nat) + "\n  by event kind:\n"@
            + kind_lines(s.by_event_kind@) + recall_stats_middle(s) + sweep_lines(s.sweep@),
        recall_stats_text(None) == "recall telemetry (injection eligibility, not delivery)\n"@
            + "  telemetry unavailable\n"@,
{
}

/// A note, a removal, and a truth value or a number that may be missing are told
/// as they are.
pub proof fn small_replies_are_told_as_they_are(id: u64)
    ensures
        stored_text(id) == "stored node "@ + decimal(id as nat),
        forgotten_text(id, true) == "forgot node "@ + decimal(id as nat) + " (hard delete)"@,
        forgotten_text(id, false) == "forgot node "@ + decimal(id as nat) + " (soft delete)"@,
        json_bool(true) == "true"@,
        json_bool(false) == "false"@,
        json_optional(Some(id)) == decimal(id as nat),
        json_optional(None) == "null"@,
{
}

}

//! What extraction and its review hold to: only stored turns are staged, an
//! auditor sees only what is authentic, and only what an auditor accepted
//! becomes a stored fact.

use crate::dispatch::extract::{
    audit_sources, captured, is_capture, is_turn, live_span, resolved_source, reused, reviewable,
    shown_source, snapshot_fault, source_fault, source_of, stage_fault, staged_sources_are_stored,
    turns_with_key, StageFault,
};
use crate::dispatch::promote::{
    candidate_in, candidate_kind, conflicts, evidence_object, fact_metadata, fact_of, number_text,
    optional_pair, promoted, promotes, promotion_fault, relates, relation_fault, relation_in,
    review_fault, AtomicFact, Promotion, RelationPromotion,
};
use crate::extract::{
    text_view, AuditSourceView, AuditSupport, CandidateKind, ExtractionAuditCandidateRow,
    ExtractionAuditRelationRow, ExtractionAuditResult, ExtractionAuditSourceAvailability,
    RelationKind, RelationVerdict, SourceView, ValidatedExtraction,
};
use crate::outside::sha256_hex;
use crate::store::{lemma_node_in, meta_value, Graph, Node};
use crate::text::{decimal, trim, views};
use vstd::prelude::*;
use vstd::utf8::{decode_utf8, encode_utf8, is_char_boundary};

verus! {

/// Whether a node is a captured turn with the given key: it records an episode,
/// it is marked as captured, and it carries the key.
pub open spec fn bears_turn(n: Node, turn_key: Seq<char>) -> bool {
    &&& n.episodic
    &&& meta_value(n.metadata@, "anamnesis:capture"@) == Some("true"@)
    &&& meta_value(n.metadata@, "anamnesis:turn_key"@) == Some(turn_key)
}

/// Whether a source is what is stored of a captured turn, field by field.
pub open spec fn is_stored_turn(n: Node, s: SourceView) -> bool {
    &&& bears_turn(n, s.turn_key)
    &&& s.node_id == n.id
    &&& s.session_id == n.session_id@
    &&& s.scope == n.scope@
    &&& s.content == n.content@
    &&& s.content_hash == sha256_hex(encode_utf8(n.content@))
    &&& s.at_ms == n.created_at
}

/// An extraction is staged only where each of its sources is a captured turn as
/// it is stored now, no turn is named twice, and the extraction is in the form
/// that the extractor's schema makes of it.
pub proof fn only_stored_turns_are_staged(
    graph: Graph,
    sources: Seq<SourceView>,
    extraction: ValidatedExtraction,
    canonical: Result<ValidatedExtraction, String>,
    i: int,
    j: int,
)
    requires
        stage_fault(graph, sources, extraction, canonical) is None,
        0 <= i < sources.len(),
        0 <= j < sources.len(),
    ensures
        exists|k: int|
            0 <= k < graph.nodes@.len() && is_stored_turn(#[trigger] graph.nodes@[k], sources[i]),
        i != j ==> sources[i].node_id != sources[j].node_id,
        canonical matches Ok(c) && c.items@.len() == extraction.items@.len()
            && c.relations@.len() == extraction.relations@.len(),
{
    staged_sources_are_stored(graph, sources, i, j);
    lemma_node_in(graph.nodes@, sources[i].node_id);
    let node = graph.node(sources[i].node_id)->0;
    let k = choose|k: int| 0 <= k < graph.nodes@.len() && graph.nodes@[k] == node;
    assert(is_stored_turn(graph.nodes@[k], sources[i]));
    if let Ok(c) = canonical {
        assert(c@.0.len() == c.items@.len() && extraction@.0.len() == extraction.items@.len());
        assert(c@.1.len() == c.relations@.len() && extraction@.1.len()
            == extraction.relations@.len());
    }
}

/// An extraction that is staged says what its canonical form says, item by item
/// and relation by relation.
pub proof fn staged_extractions_are_canonical(
    graph: Graph,
    sources: Seq<SourceView>,
    extraction: ValidatedExtraction,
    canonical: ValidatedExtraction,
    i: int,
    j: int,
)
    requires
        stage_fault(graph, sources, extraction, Ok(canonical)) is None,
        0 <= i < extraction.items@.len(),
        0 <= j < extraction.relations@.len(),
    ensures
        ({
            let (a, b) = (extraction.items@[i], canonical.items@[i]);
            &&& a.item_local_id@ == b.item_local_id@
            &&& a.content@ == b.content@
            &&& text_view(a.subject) == text_view(b.subject)
            &&& text_view(a.relation) == text_view(b.relation)
            &&& text_view(a.object) == text_view(b.object)
            &&& text_view(a.evidence_object) == text_view(b.evidence_object)
            &&& text_view(a.evidence_span) == text_view(b.evidence_span)
            &&& a.kind == b.kind
            &&& a.confidence == b.confidence
            &&& views(a.entity_tags@) == views(b.entity_tags@)
            &&& a.valid_from_ms == b.valid_from_ms
            &&& a.valid_until_ms == b.valid_until_ms
            &&& a.source_node_ids@ == b.source_node_ids@
        }),
        ({
            let (a, b) = (extraction.relations@[j], canonical.relations@[j]);
            &&& a.from_item_local_id@ == b.from_item_local_id@
            &&& a.to_item_local_id@ == b.to_item_local_id@
            &&& a.relation_type == b.relation_type
        }),
{
    assert(extraction@.0.len() == extraction.items@.len());
    assert(canonical@.0.len() == canonical.items@.len());
    assert(extraction@.1.len() == extraction.relations@.len());
    assert(canonical@.1.len() == canonical.relations@.len());
    assert(extraction@.0[i] == extraction.items@[i]@);
    assert(canonical@.0[i] == canonical.items@[i]@);
    assert(extraction@.1[j] == extraction.relations@[j]@);
    assert(canonical@.1[j] == canonical.relations@[j]@);
}

/// What is handed to an extractor is exactly the captured turns, in the order in
/// which they are stored.
pub proof fn exactly_the_captured_turns_are_handed_out(nodes: Seq<Node>)
    ensures
        captured(nodes).len() == nodes.filter(
            |n: Node|
                n.episodic && meta_value(n.metadata@, "anamnesis:capture"@) == Some("true"@)
                    && meta_value(n.metadata@, "anamnesis:turn_key"@) is Some,
        ).len(),
        forall|i: int|
            0 <= i < captured(nodes).len() ==> is_stored_turn(
                nodes.filter(
                    |n: Node|
                        n.episodic && meta_value(n.metadata@, "anamnesis:capture"@) == Some(
                            "true"@,
                        ) && meta_value(n.metadata@, "anamnesis:turn_key"@) is Some,
                )[i],
                #[trigger] captured(nodes)[i],
            ),
    decreases nodes.len(),
{
    reveal(Seq::filter);
    if nodes.len() > 0 {
        exactly_the_captured_turns_are_handed_out(nodes.drop_last());
        let p = |n: Node|
            n.episodic && meta_value(n.metadata@, "anamnesis:capture"@) == Some("true"@)
                && meta_value(n.metadata@, "anamnesis:turn_key"@) is Some;
        let fewer = captured(nodes.drop_last());
        assert(is_capture(nodes.last()) == p(nodes.last()));
        assert forall|i: int| 0 <= i < captured(nodes).len() implies is_stored_turn(
            nodes.filter(p)[i],
            #[trigger] captured(nodes)[i],
        ) by {
            if i < fewer.len() {
                assert(captured(nodes)[i] == fewer[i]);
                assert(nodes.filter(p)[i] == nodes.drop_last().filter(p)[i]);
            } else {
                assert(captured(nodes)[i] == source_of(nodes.last()));
            }
        }
    }
}

proof fn lemma_turns_with_key(nodes: Seq<Node>, turn_key: Seq<char>)
    ensures
        forall|i: int|
            0 <= i < turns_with_key(nodes, turn_key).len() ==> nodes.contains(
                #[trigger] turns_with_key(nodes, turn_key)[i],
            ) && bears_turn(turns_with_key(nodes, turn_key)[i], turn_key),
        forall|k: int|
            0 <= k < nodes.len() && bears_turn(#[trigger] nodes[k], turn_key) ==> turns_with_key(
                nodes,
                turn_key,
            ).len() > 0,
    decreases nodes.len(),
{
    if nodes.len() > 0 {
        let fewer = nodes.drop_last();
        lemma_turns_with_key(fewer, turn_key);
        let all = turns_with_key(nodes, turn_key);
        assert(is_turn(nodes.last(), turn_key) == bears_turn(nodes.last(), turn_key));
        assert forall|i: int| 0 <= i < all.len() implies nodes.contains(#[trigger] all[i])
            && bears_turn(all[i], turn_key) by {
            if i < turns_with_key(fewer, turn_key).len() {
                let n = turns_with_key(fewer, turn_key)[i];
                assert(all[i] == n);
                assert(fewer.contains(n));
                let k = choose|k: int| 0 <= k < fewer.len() && fewer[k] == n;
                assert(nodes[k] == n);
            } else {
                assert(nodes[nodes.len() - 1] == all[i]);
            }
        }
        assert forall|k: int| 0 <= k < nodes.len() && bears_turn(#[trigger] nodes[k], turn_key) implies all.len()
            > 0 by {
            if k < nodes.len() - 1 {
                assert(fewer[k] == nodes[k]);
            }
        }
    }
}

/// An auditor sees the content of a source only where a captured turn is stored
/// that bears its key, its session, its scope and its hash, and then sees that
/// turn's content. What was expected is shown as it was expected.
pub proof fn shown_sources_are_authentic(
    graph: Graph,
    node_id: u64,
    turn_key: Seq<char>,
    session_id: Seq<char>,
    scope: Seq<char>,
    content_hash: Seq<char>,
)
    ensures
        ({
            let s = resolved_source(graph, node_id, turn_key, session_id, scope, content_hash);
            &&& s.turn_key == turn_key
            &&& s.session_id == session_id
            &&& s.scope == scope
            &&& s.content_hash == content_hash
            &&& s.content is Some <==> s.availability
                == ExtractionAuditSourceAvailability::Available
            &&& s.content matches Some(content) ==> exists|k: int|
                0 <= k < graph.nodes@.len() && bears_turn(#[trigger] graph.nodes@[k], turn_key)
                    && graph.nodes@[k].id == s.node_id && graph.nodes@[k].content@ == content
                    && graph.nodes@[k].session_id@ == session_id && graph.nodes@[k].scope@ == scope
                    && sha256_hex(encode_utf8(content)) == content_hash
        }),
{
    let s = resolved_source(graph, node_id, turn_key, session_id, scope, content_hash);
    lemma_node_in(graph.nodes@, node_id);
    lemma_turns_with_key(graph.nodes@, turn_key);
    let hinted = graph.node(node_id);
    let found = turns_with_key(graph.nodes@, turn_key);
    if s.content is Some {
        let n = if hinted is Some && is_turn(hinted->0, turn_key) {
            hinted->0
        } else {
            found[0]
        };
        assert(graph.nodes@.contains(n));
        let k = choose|k: int| 0 <= k < graph.nodes@.len() && graph.nodes@[k] == n;
        assert(bears_turn(graph.nodes@[k], turn_key));
    }
}

/// A source that is stored under its number, bears its key and is unchanged is
/// shown.
pub proof fn unchanged_sources_are_shown(
    graph: Graph,
    node_id: u64,
    turn_key: Seq<char>,
    session_id: Seq<char>,
    scope: Seq<char>,
    content_hash: Seq<char>,
    n: Node,
)
    requires
        graph.node(node_id) == Some(n),
        bears_turn(n, turn_key),
        n.session_id@ == session_id,
        n.scope@ == scope,
        sha256_hex(encode_utf8(n.content@)) == content_hash,
    ensures
        ({
            let s = resolved_source(graph, node_id, turn_key, session_id, scope, content_hash);
            &&& s.content == Some(n.content@)
            &&& s.availability == ExtractionAuditSourceAvailability::Available
            &&& s.node_id == node_id
        }),
{
    lemma_node_in(graph.nodes@, node_id);
}

/// A source counts as gone only where nothing is stored under its number and no
/// captured turn bears its key; otherwise, where it cannot be shown, it does not
/// match.
pub proof fn only_lost_sources_are_unavailable(
    graph: Graph,
    node_id: u64,
    turn_key: Seq<char>,
    session_id: Seq<char>,
    scope: Seq<char>,
    content_hash: Seq<char>,
)
    ensures
        resolved_source(graph, node_id, turn_key, session_id, scope, content_hash).availability
            == ExtractionAuditSourceAvailability::SourceUnavailable <==> (forall|k: int|
            0 <= k < graph.nodes@.len() ==> (#[trigger] graph.nodes@[k]).id != node_id
                && !bears_turn(graph.nodes@[k], turn_key)),
{
    lemma_node_in(graph.nodes@, node_id);
    lemma_turns_with_key(graph.nodes@, turn_key);
    let found = turns_with_key(graph.nodes@, turn_key);
    if graph.node(node_id) is None && found.len() > 0 {
        assert(graph.nodes@.contains(found[0]));
        let k = choose|k: int| 0 <= k < graph.nodes@.len() && graph.nodes@[k] == found[0];
        assert(bears_turn(graph.nodes@[k], turn_key));
    }
    if graph.node(node_id) is Some {
        let n = graph.node(node_id)->0;
        let k = choose|k: int| 0 <= k < graph.nodes@.len() && graph.nodes@[k] == n;
        assert(graph.nodes@[k].id == node_id);
    }
}

/// A candidate can be judged only where it names its sources and every one of
/// them is shown with its content: a captured turn with its key, of its session
/// and its scope, with the hash that was staged.
pub proof fn judged_candidates_have_all_their_sources(
    graph: Graph,
    c: ExtractionAuditCandidateRow,
    i: int,
)
    requires
        reviewable(graph, c),
        0 <= i < c.source_turn_keys@.len(),
    ensures
        c.source_turn_keys@.len() > 0,
        c.source_node_ids@.len() == c.source_turn_keys@.len(),
        c.source_content_hashes@.len() == c.source_turn_keys@.len(),
        exists|k: int|
            0 <= k < graph.nodes@.len() && bears_turn(
                #[trigger] graph.nodes@[k],
                c.source_turn_keys@[i]@,
            ) && graph.nodes@[k].session_id@ == c.source_session_id@ && graph.nodes@[k].scope@
                == c.source_scope@ && sha256_hex(encode_utf8(graph.nodes@[k].content@))
                == c.source_content_hashes@[i]@,
{
    let s = audit_sources(graph, c)[i];
    assert(s.availability == ExtractionAuditSourceAvailability::Available);
    shown_sources_are_authentic(
        graph,
        c.source_node_ids@[i],
        c.source_turn_keys@[i]@,
        c.source_session_id@,
        c.source_scope@,
        c.source_content_hashes@[i]@,
    );
}

/// A candidate that claims any evidence can be judged only where it names all of
/// it, and its evidence has the hash that it expects.
pub proof fn judged_evidence_is_whole(graph: Graph, c: ExtractionAuditCandidateRow)
    requires
        reviewable(graph, c),
        c.subject is Some || c.relation is Some || c.object is Some || c.evidence_source_node_id
            is Some || c.evidence_span_start is Some || c.evidence_span_end is Some
            || c.evidence_span_sha256 is Some,
    ensures
        c.subject is Some,
        c.relation is Some,
        c.object is Some,
        c.evidence_source_node_id is Some,
        c.evidence_span_start is Some,
        c.evidence_span_end is Some,
        c.evidence_span_sha256 matches Some(hash) && (live_span(c, audit_sources(graph, c))
            matches Some(span) && sha256_hex(encode_utf8(span)) == hash@),
{
}

proof fn lemma_shown_source(sources: Seq<AuditSourceView>, node_id: u64)
    ensures
        shown_source(sources, node_id) matches Some(s) ==> sources.contains(s) && s.node_id
            == node_id && s.availability == ExtractionAuditSourceAvailability::Available,
    decreases sources.len(),
{
    if sources.len() > 0 {
        lemma_shown_source(sources.drop_last(), node_id);
        if let Some(s) = shown_source(sources.drop_last(), node_id) {
            let k = choose|k: int| 0 <= k < sources.drop_last().len() && sources.drop_last()[k] == s;
            assert(sources[k] == s);
        } else {
            assert(sources[sources.len() - 1] == sources.last());
        }
    }
}

/// The evidence that is shown is the stretch between the two positions of the
/// source that the candidate names, which can be shown, and has the hash that
/// the candidate expects.
pub proof fn shown_evidence_is_quoted(
    c: ExtractionAuditCandidateRow,
    sources: Seq<AuditSourceView>,
)
    ensures
        live_span(c, sources) matches Some(span) ==> {
            &&& c.evidence_source_node_id is Some
            &&& c.evidence_span_start is Some
            &&& c.evidence_span_end is Some
            &&& c.evidence_span_sha256 matches Some(hash)
            &&& sha256_hex(encode_utf8(span)) == hash@
            &&& c.evidence_span_start->0 <= c.evidence_span_end->0
            &&& exists|k: int|
                0 <= k < sources.len() && (#[trigger] sources[k]).node_id
                    == c.evidence_source_node_id->0 && sources[k].availability
                    == ExtractionAuditSourceAvailability::Available && (
                sources[k].content matches Some(content) && span == decode_utf8(
                    encode_utf8(content).subrange(
                        c.evidence_span_start->0 as int,
                        c.evidence_span_end->0 as int,
                    ),
                ))
        },
{
    if live_span(c, sources) is Some {
        let id = c.evidence_source_node_id->0;
        lemma_shown_source(sources, id);
        let s = shown_source(sources, id)->0;
        let k = choose|k: int| 0 <= k < sources.len() && sources[k] == s;
        assert(sources[k].node_id == id);
    }
}

/// The candidate that is found is the first one with the number that was asked
/// for; none is found only where no candidate has it.
pub proof fn candidates_are_found_by_number(rows: Seq<ExtractionAuditCandidateRow>, id: u64)
    ensures
        match candidate_in(rows, id) {
            Some(c) => exists|i: int|
                0 <= i < rows.len() && #[trigger] rows[i] == c && c.id == id && (forall|j: int|
                    0 <= j < i ==> (#[trigger] rows[j]).id != id),
            None => forall|j: int| 0 <= j < rows.len() ==> (#[trigger] rows[j]).id != id,
        },
    decreases rows.len(),
{
    if rows.len() > 0 {
        let fewer = rows.drop_last();
        candidates_are_found_by_number(fewer, id);
        if let Some(c) = candidate_in(fewer, id) {
            let i = choose|i: int|
                0 <= i < fewer.len() && #[trigger] fewer[i] == c && c.id == id && (forall|j: int|
                    0 <= j < i ==> (#[trigger] fewer[j]).id != id);
            assert(rows[i] == c);
            assert forall|j: int| 0 <= j < i implies (#[trigger] rows[j]).id != id by {
                assert(fewer[j] == rows[j]);
            }
        } else {
            assert forall|j: int| 0 <= j < rows.len() - 1 implies (#[trigger] rows[j]).id != id by {
                assert(fewer[j] == rows[j]);
            }
            assert(rows[rows.len() - 1] == rows.last());
        }
    }
}

/// The relation that is found is the first one with the number that was asked
/// for; none is found only where no relation has it.
pub proof fn relations_are_found_by_number(rows: Seq<ExtractionAuditRelationRow>, id: u64)
    ensures
        match relation_in(rows, id) {
            Some(c) => exists|i: int|
                0 <= i < rows.len() && #[trigger] rows[i] == c && c.id == id && (forall|j: int|
                    0 <= j < i ==> (#[trigger] rows[j]).id != id),
            None => forall|j: int| 0 <= j < rows.len() ==> (#[trigger] rows[j]).id != id,
        },
    decreases rows.len(),
{
    if rows.len() > 0 {
        let fewer = rows.drop_last();
        relations_are_found_by_number(fewer, id);
        if let Some(c) = relation_in(fewer, id) {
            let i = choose|i: int|
                0 <= i < fewer.len() && #[trigger] fewer[i] == c && c.id == id && (forall|j: int|
                    0 <= j < i ==> (#[trigger] fewer[j]).id != id);
            assert(rows[i] == c);
            assert forall|j: int| 0 <= j < i implies (#[trigger] rows[j]).id != id by {
                assert(fewer[j] == rows[j]);
            }
        } else {
            assert forall|j: int| 0 <= j < rows.len() - 1 implies (#[trigger] rows[j]).id != id by {
                assert(fewer[j] == rows[j]);
            }
            assert(rows[rows.len() - 1] == rows.last());
        }
    }
}

/// The fact that is found for a candidate is the first one that keeps the
/// candidate's key; none is found only where no fact keeps it.
pub proof fn facts_are_found_by_key(facts: Seq<AtomicFact>, key: Seq<char>)
    ensures
        match promoted(facts, key) {
            Some(f) => exists|i: int|
                0 <= i < facts.len() && #[trigger] facts[i] == f && meta_value(
                    f.metadata@,
                    "anamnesis:extraction_idempotency_key"@,
                ) == Some(key) && (forall|j: int|
                    0 <= j < i ==> meta_value(
                        (#[trigger] facts[j]).metadata@,
                        "anamnesis:extraction_idempotency_key"@,
                    ) != Some(key)),
            None => forall|j: int|
                0 <= j < facts.len() ==> meta_value(
                    (#[trigger] facts[j]).metadata@,
                    "anamnesis:extraction_idempotency_key"@,
                ) != Some(key),
        },
    decreases facts.len(),
{
    if facts.len() > 0 {
        let fewer = facts.drop_last();
        facts_are_found_by_key(fewer, key);
        if let Some(f) = promoted(fewer, key) {
            let i = choose|i: int|
                0 <= i < fewer.len() && #[trigger] fewer[i] == f && meta_value(
                    f.metadata@,
                    "anamnesis:extraction_idempotency_key"@,
                ) == Some(key) && (forall|j: int|
                    0 <= j < i ==> meta_value(
                        (#[trigger] fewer[j]).metadata@,
                        "anamnesis:extraction_idempotency_key"@,
                    ) != Some(key));
            assert(facts[i] == f);
            assert forall|j: int| 0 <= j < i implies meta_value(
                (#[trigger] facts[j]).metadata@,
                "anamnesis:extraction_idempotency_key"@,
            ) != Some(key) by {
                assert(fewer[j] == facts[j]);
            }
        } else {
            assert forall|j: int| 0 <= j < facts.len() - 1 implies meta_value(
                (#[trigger] facts[j]).metadata@,
                "anamnesis:extraction_idempotency_key"@,
            ) != Some(key) by {
                assert(fewer[j] == facts[j]);
            }
            assert(facts[facts.len() - 1] == facts.last());
        }
    }
}

/// A judgement is taken exactly where the candidate exists and can be judged.
pub proof fn only_authentic_candidates_are_judged(
    graph: Graph,
    rows: Seq<ExtractionAuditCandidateRow>,
    i: int,
)
    requires
        0 <= i < rows.len(),
        forall|j: int| 0 <= j < i ==> (#[trigger] rows[j]).id != rows[i].id,
    ensures
        review_fault(graph, rows, rows[i].id) is None <==> reviewable(graph, rows[i]),
{
    candidates_are_found_by_number(rows, rows[i].id);
    let c = candidate_in(rows, rows[i].id)->0;
    let k = choose|k: int|
        0 <= k < rows.len() && #[trigger] rows[k] == c && c.id == rows[i].id && (forall|j: int|
            0 <= j < k ==> (#[trigger] rows[j]).id != rows[i].id);
    assert(k == i);
}

/// A candidate is promoted only where an auditor judged it supported and found
/// no contamination, and only where it can be judged. Any other verdict, and a
/// contamination of any kind, refuses it.
pub proof fn only_accepted_candidates_are_promoted(
    graph: Graph,
    rows: Seq<ExtractionAuditCandidateRow>,
    i: int,
)
    requires
        0 <= i < rows.len(),
        forall|j: int| 0 <= j < i ==> (#[trigger] rows[j]).id != rows[i].id,
    ensures
        promotion_fault(graph, rows, rows[i].id) is None <==> rows[i].support == Some(
            AuditSupport::Supported,
        ) && rows[i].contamination is None && rows[i].reviewed_at is Some && reviewable(
            graph,
            rows[i],
        ),
        rows[i].support == Some(AuditSupport::Unsupported) || rows[i].support == Some(
            AuditSupport::Partial,
        ) || rows[i].support is None ==> promotion_fault(graph, rows, rows[i].id) is Some,
{
    candidates_are_found_by_number(rows, rows[i].id);
    let c = candidate_in(rows, rows[i].id)->0;
    let k = choose|k: int|
        0 <= k < rows.len() && #[trigger] rows[k] == c && c.id == rows[i].id && (forall|j: int|
            0 <= j < k ==> (#[trigger] rows[j]).id != rows[i].id);
    assert(k == i);
}

/// A candidate that is not there is never promoted nor judged.
pub proof fn missing_candidates_are_refused(
    graph: Graph,
    rows: Seq<ExtractionAuditCandidateRow>,
    id: u64,
)
    requires
        forall|j: int| 0 <= j < rows.len() ==> (#[trigger] rows[j]).id != id,
    ensures
        promotion_fault(graph, rows, id) is Some,
        review_fault(graph, rows, id) is Some,
{
    candidates_are_found_by_number(rows, id);
}

/// A candidate becomes a fact with its own content, sources, tags and times. The
/// fact is found under the content, and under the object of its evidence where
/// there is one.
pub proof fn facts_say_what_their_candidate_says(
    facts: Seq<AtomicFact>,
    c: ExtractionAuditCandidateRow,
    p: Promotion,
)
    requires
        promotes(facts, c, p),
    ensures
        p matches Promotion::Add { input } ==> {
            &&& input.content@ == c.content@
            &&& input.source_ids@ == c.source_node_ids@
            &&& views(input.entity_tags@) == views(c.entity_tags@)
            &&& input.valid_from == c.valid_from_ms
            &&& input.valid_until == c.valid_until_ms
            &&& c.evidence_object is None && c.object is None ==> input.embedding_surface@
                == c.content@
            &&& c.evidence_object matches Some(o) ==> input.embedding_surface@ == (if trim(
                o@,
            ).len() > 0 {
                c.content@ + "\nEvidence object: "@ + trim(o@)
            } else {
                c.content@
            })
            &&& c.evidence_object is None ==> (c.object matches Some(o) ==> input.embedding_surface@
                == (if trim(o@).len() > 0 {
                c.content@ + "\nEvidence object: "@ + trim(o@)
            } else {
                c.content@
            }))
        },
        p matches Promotion::Refresh { fact_id, valid_from, valid_until } ==> {
            &&& valid_from == c.valid_from_ms
            &&& valid_until == c.valid_until_ms
            &&& exists|i: int|
                0 <= i < facts.len() && (#[trigger] facts[i]).id == fact_id && meta_value(
                    facts[i].metadata@,
                    "anamnesis:extraction_idempotency_key"@,
                ) == Some(c.idempotency_key@)
        },
        p is Add <==> (forall|j: int|
            0 <= j < facts.len() ==> meta_value(
                (#[trigger] facts[j]).metadata@,
                "anamnesis:extraction_idempotency_key"@,
            ) != Some(c.idempotency_key@)),
{
    facts_are_found_by_key(facts, c.idempotency_key@);
}

/// The name of a kind of candidate, as it is kept with a fact.
pub proof fn kinds_have_their_names(kind: CandidateKind)
    ensures
        kind == CandidateKind::Fact ==> candidate_kind(kind) == "fact"@,
        kind == CandidateKind::Entity ==> candidate_kind(kind) == "entity"@,
        kind == CandidateKind::Event ==> candidate_kind(kind) == "event"@,
        kind == CandidateKind::Preference ==> candidate_kind(kind) == "preference"@,
        kind == CandidateKind::Decision ==> candidate_kind(kind) == "decision"@,
        kind == CandidateKind::Causal ==> candidate_kind(kind) == "causal"@,
        kind == CandidateKind::Lesson ==> candidate_kind(kind) == "lesson"@,
        kind == CandidateKind::Convention ==> candidate_kind(kind) == "convention"@,
        kind == CandidateKind::Gotcha ==> candidate_kind(kind) == "gotcha"@,
{
}

proof fn lemma_optional_pair(
    pairs: Seq<(Seq<char>, Seq<char>)>,
    key: Seq<char>,
    value: Option<Seq<char>>,
)
    ensures
        value matches Some(v) ==> (pairs + optional_pair(
            key,
            value,
        )).contains((key, v)),
        forall|p: (Seq<char>, Seq<char>)|
            pairs.contains(p) ==> #[trigger] (pairs + optional_pair(
                key,
                value,
            )).contains(p),
{
    let more = optional_pair(key, value);
    let all = pairs + more;
    if let Some(v) = value {
        assert(all[pairs.len() as int] == (key, v));
    }
    assert forall|p: (Seq<char>, Seq<char>)| pairs.contains(p) implies #[trigger] all.contains(p) by {
        let i = choose|i: int| 0 <= i < pairs.len() && pairs[i] == p;
        assert(all[i] == p);
    }
}

/// A fact keeps where it came from: the key, the number and the profile of its
/// candidate, the session, the kind, the claim and the place of its evidence,
/// each under its own name.
pub proof fn facts_keep_their_origin(c: ExtractionAuditCandidateRow)
    ensures
        fact_metadata(c).contains(
            ("anamnesis:extraction_idempotency_key"@, c.idempotency_key@),
        ),
        fact_metadata(c).contains(("anamnesis:extraction_candidate_id"@, decimal(c.id as nat))),
        fact_metadata(c).contains(("anamnesis:extraction_profile_id"@, c.profile_id@)),
        fact_metadata(c).contains(("anamnesis:source_session_id"@, c.source_session_id@)),
        fact_metadata(c).contains(("anamnesis:fact-kind"@, candidate_kind(c.kind))),
        c.subject matches Some(s) ==> fact_metadata(c).contains(
            ("anamnesis:ground-subject"@, s@),
        ),
        c.relation matches Some(s) ==> fact_metadata(c).contains(
            ("anamnesis:ground-relation"@, s@),
        ),
        c.object matches Some(s) ==> fact_metadata(c).contains(("anamnesis:ground-object"@, s@)),
        c.evidence_object matches Some(s) ==> fact_metadata(c).contains(
            ("anamnesis:evidence-object"@, s@),
        ),
        c.evidence_object is None ==> (c.object matches Some(s) ==> fact_metadata(c).contains(
            ("anamnesis:evidence-object"@, s@),
        )),
        c.evidence_source_node_id matches Some(n) ==> fact_metadata(c).contains(
            ("anamnesis:evidence-source-node-id"@, decimal(n as nat)),
        ),
        c.evidence_span_start matches Some(n) ==> fact_metadata(c).contains(
            ("anamnesis:evidence-span-start"@, decimal(n as nat)),
        ),
        c.evidence_span_end matches Some(n) ==> fact_metadata(c).contains(
            ("anamnesis:evidence-span-end"@, decimal(n as nat)),
        ),
        c.evidence_span_sha256 matches Some(s) ==> fact_metadata(c).contains(
            ("anamnesis:evidence-span-sha256"@, s@),
        ),
        fact_metadata(c).len() <= 13,
{
    let p0 = seq![
        ("anamnesis:extraction_idempotency_key"@, c.idempotency_key@),
        ("anamnesis:extraction_candidate_id"@, decimal(c.id as nat)),
        ("anamnesis:extraction_profile_id"@, c.profile_id@),
        ("anamnesis:source_session_id"@, c.source_session_id@),
        ("anamnesis:fact-kind"@, candidate_kind(c.kind)),
    ];
    assert(p0.contains(p0[0]) && p0.contains(p0[1]) && p0.contains(p0[2]) && p0.contains(p0[3])
        && p0.contains(p0[4]));
    let (k1, v1) = ("anamnesis:ground-subject"@, text_view(c.subject));
    let (k2, v2) = ("anamnesis:ground-relation"@, text_view(c.relation));
    let (k3, v3) = ("anamnesis:ground-object"@, text_view(c.object));
    let (k4, v4) = ("anamnesis:evidence-object"@, evidence_object(c));
    let (k5, v5) = (
        "anamnesis:evidence-source-node-id"@,
        number_text(c.evidence_source_node_id),
    );
    let (k6, v6) = (
        "anamnesis:evidence-span-start"@,
        number_text(c.evidence_span_start),
    );
    let (k7, v7) = (
        "anamnesis:evidence-span-end"@,
        number_text(c.evidence_span_end),
    );
    let (k8, v8) = ("anamnesis:evidence-span-sha256"@, text_view(c.evidence_span_sha256));
    let p1 = p0 + optional_pair(k1, v1);
    let p2 = p1 + optional_pair(k2, v2);
    let p3 = p2 + optional_pair(k3, v3);
    let p4 = p3 + optional_pair(k4, v4);
    let p5 = p4 + optional_pair(k5, v5);
    let p6 = p5 + optional_pair(k6, v6);
    let p7 = p6 + optional_pair(k7, v7);
    lemma_optional_pair(p0, k1, v1);
    lemma_optional_pair(p1, k2, v2);
    lemma_optional_pair(p2, k3, v3);
    lemma_optional_pair(p3, k4, v4);
    lemma_optional_pair(p4, k5, v5);
    lemma_optional_pair(p5, k6, v6);
    lemma_optional_pair(p6, k7, v7);
    lemma_optional_pair(p7, k8, v8);
}

/// A relation is promoted only where an auditor judged it correct, both its ends
/// are candidates, and both of them are stored as facts.
pub proof fn only_accepted_relations_are_promoted(
    facts: Seq<AtomicFact>,
    audit: ExtractionAuditResult,
    id: u64,
)
    requires
        relation_fault(facts, audit, id) is None,
    ensures
        exists|i: int|
            0 <= i < audit.relations@.len() && (#[trigger] audit.relations@[i]).id == id
                && audit.relations@[i].verdict == Some(RelationVerdict::Correct)
                && audit.relations@[i].reviewed_at is Some && relation_in(audit.relations@, id)
                == Some(audit.relations@[i]) && candidate_in(
                audit.candidates@,
                audit.relations@[i].candidate_from,
            ) is Some && candidate_in(audit.candidates@, audit.relations@[i].candidate_to) is Some,
        ({
            let rel = relation_in(audit.relations@, id)->0;
            let from = candidate_in(audit.candidates@, rel.candidate_from)->0;
            let to = candidate_in(audit.candidates@, rel.candidate_to)->0;
            &&& exists|k: int|
                0 <= k < facts.len() && meta_value(
                    (#[trigger] facts[k]).metadata@,
                    "anamnesis:extraction_idempotency_key"@,
                ) == Some(from.idempotency_key@) && facts[k] == fact_of(
                    facts,
                    audit,
                    rel.candidate_from,
                )
            &&& exists|k: int|
                0 <= k < facts.len() && meta_value(
                    (#[trigger] facts[k]).metadata@,
                    "anamnesis:extraction_idempotency_key"@,
                ) == Some(to.idempotency_key@) && facts[k] == fact_of(
                    facts,
                    audit,
                    rel.candidate_to,
                )
        }),
{
    relations_are_found_by_number(audit.relations@, id);
    let rel = relation_in(audit.relations@, id)->0;
    let i = choose|i: int|
        0 <= i < audit.relations@.len() && #[trigger] audit.relations@[i] == rel && rel.id == id && (
        forall|j: int| 0 <= j < i ==> (#[trigger] audit.relations@[j]).id != id);
    assert(audit.relations@[i].id == id);
    let from = candidate_in(audit.candidates@, rel.candidate_from)->0;
    let to = candidate_in(audit.candidates@, rel.candidate_to)->0;
    facts_are_found_by_key(facts, from.idempotency_key@);
    facts_are_found_by_key(facts, to.idempotency_key@);
}

/// A relation that an auditor did not judge correct is refused.
pub proof fn rejected_relations_are_refused(
    facts: Seq<AtomicFact>,
    audit: ExtractionAuditResult,
    i: int,
)
    requires
        0 <= i < audit.relations@.len(),
        forall|j: int| 0 <= j < i ==> (#[trigger] audit.relations@[j]).id != audit.relations@[i].id,
        audit.relations@[i].verdict != Some(RelationVerdict::Correct)
            || audit.relations@[i].reviewed_at is None,
    ensures
        relation_fault(facts, audit, audit.relations@[i].id) is Some,
{
    let id = audit.relations@[i].id;
    relations_are_found_by_number(audit.relations@, id);
    let rel = relation_in(audit.relations@, id)->0;
    let k = choose|k: int|
        0 <= k < audit.relations@.len() && #[trigger] audit.relations@[k] == rel && rel.id == id && (
        forall|j: int| 0 <= j < k ==> (#[trigger] audit.relations@[j]).id != id);
    assert(k == i);
}

/// The name of a kind of relation, as it is kept with a fact.
pub open spec fn kind_name(kind: RelationKind) -> Seq<char> {
    match kind {
        RelationKind::Reason => "reason"@,
        RelationKind::Causal => "causal"@,
        RelationKind::Contradicts => "contradicts"@,
        RelationKind::Supports => "supports"@,
    }
}

/// A promoted relation is kept with its source fact, under its number, as its
/// kind and the number of its target fact. One that is kept already asks for
/// nothing, and one that is kept otherwise conflicts.
pub proof fn relations_are_kept_with_their_source(
    source: AtomicFact,
    relation_id: u64,
    to: u64,
    kind: RelationKind,
    p: RelationPromotion,
)
    ensures
        relates(source, relation_id, to, kind, p) ==> (match meta_value(
            source.metadata@,
            "anamnesis:atomic-relation:"@ + decimal(relation_id as nat),
        ) {
            None => p matches RelationPromotion::Link { fact_id, key, value } && fact_id
                == source.id && key@ == "anamnesis:atomic-relation:"@ + decimal(relation_id as nat)
                && value@ == kind_name(kind) + ":"@ + decimal(to as nat),
            Some(v) => p is AlreadyThere && v == kind_name(kind) + ":"@ + decimal(to as nat),
        }),
        conflicts(source, relation_id, to, kind) <==> (meta_value(
            source.metadata@,
            "anamnesis:atomic-relation:"@ + decimal(relation_id as nat),
        ) matches Some(v) && v != kind_name(kind) + ":"@ + decimal(to as nat)),
{
}

/// A candidate that names its sources, all of which can be shown, can be judged
/// where it claims nothing, and where it names all of its claim and of its
/// evidence and the evidence is found.
pub proof fn whole_candidates_can_be_judged(graph: Graph, c: ExtractionAuditCandidateRow)
    requires
        c.source_turn_keys@.len() > 0,
        c.source_node_ids@.len() == c.source_turn_keys@.len(),
        c.source_content_hashes@.len() == c.source_turn_keys@.len(),
        forall|i: int|
            0 <= i < c.source_turn_keys@.len() ==> resolved_source(
                graph,
                c.source_node_ids@[i],
                (#[trigger] c.source_turn_keys@[i])@,
                c.source_session_id@,
                c.source_scope@,
                c.source_content_hashes@[i]@,
            ).availability == ExtractionAuditSourceAvailability::Available,
        ({
            ||| c.subject is None && c.relation is None && c.object is None
                && c.evidence_source_node_id is None && c.evidence_span_start is None
                && c.evidence_span_end is None && c.evidence_span_sha256 is None
            ||| c.subject is Some && c.relation is Some && c.object is Some
                && c.evidence_source_node_id is Some && c.evidence_span_start is Some
                && c.evidence_span_end is Some && c.evidence_span_sha256 is Some && live_span(
                c,
                audit_sources(graph, c),
            ) is Some
        }),
    ensures
        reviewable(graph, c),
{
    let sources = audit_sources(graph, c);
    assert forall|i: int| 0 <= i < sources.len() implies (#[trigger] sources[i]).availability
        == ExtractionAuditSourceAvailability::Available by {
        assert(c.source_turn_keys@[i]@ == c.source_turn_keys@[i]@);
    }
}

/// Evidence is found where the first source with the number that the candidate
/// names which can be shown has the expected hash between the two positions, and
/// both lie between characters.
pub proof fn evidence_with_its_hash_is_found(
    c: ExtractionAuditCandidateRow,
    sources: Seq<AuditSourceView>,
    k: int,
)
    requires
        0 <= k < sources.len(),
        c.evidence_source_node_id == Some(sources[k].node_id),
        sources[k].availability == ExtractionAuditSourceAvailability::Available,
        forall|j: int|
            0 <= j < k ==> (#[trigger] sources[j]).node_id != sources[k].node_id
                || sources[j].availability != ExtractionAuditSourceAvailability::Available,
        sources[k].content is Some,
        c.evidence_span_start is Some,
        c.evidence_span_end is Some,
        c.evidence_span_sha256 is Some,
        c.evidence_span_start->0 <= c.evidence_span_end->0,
        is_char_boundary(encode_utf8(sources[k].content->0), c.evidence_span_start->0 as int),
        is_char_boundary(encode_utf8(sources[k].content->0), c.evidence_span_end->0 as int),
        sha256_hex(
            encode_utf8(
                decode_utf8(
                    encode_utf8(sources[k].content->0).subrange(
                        c.evidence_span_start->0 as int,
                        c.evidence_span_end->0 as int,
                    ),
                ),
            ),
        ) == c.evidence_span_sha256->0@,
    ensures
        live_span(c, sources) == Some(
            decode_utf8(
                encode_utf8(sources[k].content->0).subrange(
                    c.evidence_span_start->0 as int,
                    c.evidence_span_end->0 as int,
                ),
            ),
        ),
{
    let id = sources[k].node_id;
    crate::dispatch::extract::evidence_is_read_from_the_first_shown_source(sources, id);
    assert(sources[k].node_id == id);
    let s = shown_source(sources, id);
    assert(s is Some);
    let i = choose|i: int|
        {
            &&& 0 <= i < sources.len()
            &&& #[trigger] sources[i] == s->0
            &&& s->0.node_id == id
            &&& s->0.availability == ExtractionAuditSourceAvailability::Available
            &&& forall|j: int|
                0 <= j < i ==> (#[trigger] sources[j]).node_id != id || sources[j].availability
                    != ExtractionAuditSourceAvailability::Available
        };
    assert(i == k) by {
        assert(sources[i].node_id == id && sources[k].node_id == id);
    }
}

proof fn lemma_only_turn(nodes: Seq<Node>, turn_key: Seq<char>, k: int)
    requires
        0 <= k < nodes.len(),
        bears_turn(nodes[k], turn_key),
        forall|j: int|
            0 <= j < nodes.len() && j != k ==> !bears_turn(#[trigger] nodes[j], turn_key),
    ensures
        turns_with_key(nodes, turn_key) == seq![nodes[k]],
    decreases nodes.len(),
{
    let fewer = nodes.drop_last();
    assert(is_turn(nodes.last(), turn_key) == bears_turn(nodes.last(), turn_key));
    if k == nodes.len() - 1 {
        lemma_turns_with_key(fewer, turn_key);
        if turns_with_key(fewer, turn_key).len() > 0 {
            let n = turns_with_key(fewer, turn_key)[0];
            assert(fewer.contains(n));
            let j = choose|j: int| 0 <= j < fewer.len() && fewer[j] == n;
            assert(nodes[j] == n);
        }
        assert(turns_with_key(nodes, turn_key) =~= seq![nodes[k]]);
    } else {
        assert forall|j: int| 0 <= j < fewer.len() && j != k implies !bears_turn(
            #[trigger] fewer[j],
            turn_key,
        ) by {
            assert(fewer[j] == nodes[j]);
        }
        assert(fewer[k] == nodes[k]);
        assert(!bears_turn(nodes[nodes.len() - 1], turn_key));
        lemma_only_turn(fewer, turn_key, k);
    }
}

/// A source that is stored under another number than the one it had, as the only
/// turn with its key, is shown under the number it has now.
pub proof fn moved_sources_are_shown(
    graph: Graph,
    node_id: u64,
    turn_key: Seq<char>,
    k: int,
)
    requires
        0 <= k < graph.nodes@.len(),
        bears_turn(graph.nodes@[k], turn_key),
        forall|j: int|
            0 <= j < graph.nodes@.len() && j != k ==> !bears_turn(
                #[trigger] graph.nodes@[j],
                turn_key,
            ),
    ensures
        ({
            let n = graph.nodes@[k];
            let s = resolved_source(
                graph,
                node_id,
                turn_key,
                n.session_id@,
                n.scope@,
                sha256_hex(encode_utf8(n.content@)),
            );
            &&& s.content == Some(n.content@)
            &&& s.availability == ExtractionAuditSourceAvailability::Available
            &&& s.node_id == n.id
        }),
{
    lemma_only_turn(graph.nodes@, turn_key, k);
    lemma_node_in(graph.nodes@, node_id);
    if let Some(hinted) = graph.node(node_id) {
        if bears_turn(hinted, turn_key) {
            let j = choose|j: int| 0 <= j < graph.nodes@.len() && graph.nodes@[j] == hinted;
            assert(graph.nodes@[j] == hinted);
        }
    }
}

/// A candidate that names no source is never judged.
pub proof fn candidates_without_sources_are_not_judged(
    graph: Graph,
    c: ExtractionAuditCandidateRow,
)
    requires
        c.source_turn_keys@.len() == 0,
    ensures
        !reviewable(graph, c),
{
}

/// What is wrong with a source is told by what is stored: a node that an earlier
/// source names, a node that is not there, a node that is no captured turn, or a
/// turn that is no longer what the source says. Nothing is wrong with a source
/// that is stored as it says.
pub proof fn sources_are_refused_for_what_is_stored(
    graph: Graph,
    sources: Seq<SourceView>,
    i: int,
)
    requires
        0 <= i < sources.len(),
    ensures
        ({
            let s = sources[i];
            let fault = source_fault(graph, sources, i);
            let again = exists|j: int| 0 <= j < i && (#[trigger] sources[j]).node_id == s.node_id;
            &&& again ==> fault == Some(StageFault::ReusedNode)
            &&& !again && graph.node(s.node_id) is None ==> fault == Some(
                StageFault::MissingNode { node_id: s.node_id },
            )
            &&& !again ==> (graph.node(s.node_id) matches Some(n) ==> {
                let captured = n.episodic && meta_value(n.metadata@, "anamnesis:capture"@) == Some(
                    "true"@,
                ) && meta_value(n.metadata@, "anamnesis:turn_key"@) is Some;
                &&& !captured ==> fault == Some(StageFault::NotCaptured)
                &&& captured && is_stored_turn(n, s) ==> fault is None
                &&& captured && !is_stored_turn(n, s) ==> fault == Some(StageFault::Changed)
            })
        }),
{
    let s = sources[i];
    assert(reused(sources, i) <==> exists|j: int|
        0 <= j < i && (#[trigger] sources[j]).node_id == s.node_id);
    if let Some(n) = graph.node(s.node_id) {
        if is_capture(n) {
            let t = source_of(n);
            assert(is_stored_turn(n, t));
            if is_stored_turn(n, s) {
                assert(t == s);
            }
        }
    }
}

proof fn lemma_earlier_source(graph: Graph, sources: Seq<SourceView>, j: int)
    requires
        0 <= j < sources.len() - 1,
    ensures
        source_fault(graph, sources.drop_last(), j) == source_fault(graph, sources, j),
{
    let fewer = sources.drop_last();
    assert(fewer[j] == sources[j]);
    if reused(fewer, j) {
        let k = choose|k: int| 0 <= k < j && (#[trigger] fewer[k]).node_id == fewer[j].node_id;
        assert(sources[k] == fewer[k]);
    }
    if reused(sources, j) {
        let k = choose|k: int| 0 <= k < j && (#[trigger] sources[k]).node_id == sources[j].node_id;
        assert(sources[k] == fewer[k]);
    }
}

proof fn lemma_no_source_fault(graph: Graph, sources: Seq<SourceView>)
    requires
        forall|j: int|
            0 <= j < sources.len() ==> #[trigger] source_fault(graph, sources, j) is None,
    ensures
        snapshot_fault(graph, sources) is None,
    decreases sources.len(),
{
    if sources.len() > 0 {
        let fewer = sources.drop_last();
        assert forall|j: int| 0 <= j < fewer.len() implies #[trigger] source_fault(graph, fewer, j)
            is None by {
            lemma_earlier_source(graph, sources, j);
        }
        lemma_no_source_fault(graph, fewer);
        assert(source_fault(graph, sources, sources.len() - 1) is None);
    }
}

proof fn lemma_first_source_fault(graph: Graph, sources: Seq<SourceView>, i: int)
    requires
        0 <= i < sources.len(),
        source_fault(graph, sources, i) is Some,
        forall|j: int| 0 <= j < i ==> #[trigger] source_fault(graph, sources, j) is None,
    ensures
        snapshot_fault(graph, sources) == source_fault(graph, sources, i),
    decreases sources.len(),
{
    let fewer = sources.drop_last();
    assert forall|j: int| 0 <= j < i implies #[trigger] source_fault(graph, fewer, j) is None by {
        lemma_earlier_source(graph, sources, j);
    }
    if i < fewer.len() {
        lemma_earlier_source(graph, sources, i);
        lemma_first_source_fault(graph, fewer, i);
    } else {
        lemma_no_source_fault(graph, fewer);
    }
}

/// An extraction is refused for its first source with a fault.
pub proof fn stagings_are_refused_for_their_first_fault(
    graph: Graph,
    sources: Seq<SourceView>,
    extraction: ValidatedExtraction,
    canonical: Result<ValidatedExtraction, String>,
    i: int,
)
    requires
        0 <= i < sources.len(),
        source_fault(graph, sources, i) is Some,
        forall|j: int| 0 <= j < i ==> #[trigger] source_fault(graph, sources, j) is None,
    ensures
        stage_fault(graph, sources, extraction, canonical) == source_fault(graph, sources, i),
{
    lemma_first_source_fault(graph, sources, i);
}

/// An extraction whose sources are as they are stored is refused only as the
/// extractor's schema refuses it, or because it is not what the schema makes of
/// it; otherwise it is staged.
pub proof fn authentic_extractions_are_staged(
    graph: Graph,
    sources: Seq<SourceView>,
    extraction: ValidatedExtraction,
    canonical: Result<ValidatedExtraction, String>,
)
    requires
        forall|j: int|
            0 <= j < sources.len() ==> #[trigger] source_fault(graph, sources, j) is None,
    ensures
        match canonical {
            Err(message) => stage_fault(graph, sources, extraction, canonical) == Some(
                StageFault::Rejected { message },
            ),
            Ok(c) => if c@ == extraction@ {
                stage_fault(graph, sources, extraction, canonical) is None
            } else {
                stage_fault(graph, sources, extraction, canonical) == Some(StageFault::NotCanonical)
            },
        },
{
    lemma_no_source_fault(graph, sources);
}

}

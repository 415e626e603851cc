//! Evidence and promotion, over rows that are written out by hand.

use anamnesis::dispatch::extract::{
    content_hash, live_evidence_span, policy_not_ready, StageFault,
};
use anamnesis::dispatch::promote::{
    candidate_routing_surface, promote_reviewed_candidate, promote_reviewed_relation, AtomicFact,
    Promotion, RelationPromotion, META_IDEMPOTENCY_KEY,
};
use anamnesis::extract::{
    CandidateKind, ExtractionAuditCandidateRow, ExtractionAuditSource,
    ExtractionAuditSourceAvailability, RelationKind,
};
use anamnesis::proto::EngineErrorKind;

/// A candidate whose evidence is the bytes from `start` to `end` of a content.
fn candidate(content: &str, start: u64, end: u64, hash: String) -> ExtractionAuditCandidateRow {
    ExtractionAuditCandidateRow {
        id: 4,
        run_id: 1,
        profile_id: "profile".to_string(),
        item_local_id: "item".to_string(),
        idempotency_key: "key".to_string(),
        content: "the roof leaks".to_string(),
        kind: CandidateKind::Fact,
        confidence: 0,
        entity_tags: vec!["roof".to_string()],
        subject: None,
        relation: None,
        object: Some("rain".to_string()),
        evidence_object: None,
        evidence_span: None,
        evidence_source_node_id: Some(7),
        evidence_span_start: Some(start),
        evidence_span_end: Some(end),
        evidence_span_sha256: Some(hash),
        valid_from_ms: Some(10),
        valid_until_ms: None,
        source_session_id: "session".to_string(),
        source_scope: "universal".to_string(),
        source_turn_keys: vec!["turn".to_string()],
        source_content_hashes: vec![content_hash(content)],
        source_node_ids: vec![7],
        sources: vec![ExtractionAuditSource {
            node_id: 7,
            turn_key: "turn".to_string(),
            session_id: "session".to_string(),
            scope: "universal".to_string(),
            content_hash: content_hash(content),
            content: Some(content.to_string()),
            availability: ExtractionAuditSourceAvailability::Available,
        }],
        support: None,
        contamination: None,
        reviewed_at: None,
        reviewed_by: None,
    }
}

#[test]
fn evidence_is_read_between_byte_positions() {
    let text = "a caf\u{e9} leaks";
    let found = candidate(text, 2, 7, content_hash("caf\u{e9}"));
    assert_eq!(live_evidence_span(&found), Some("caf\u{e9}".to_string()));

    let other_hash = candidate(text, 2, 7, content_hash("cafe"));
    assert_eq!(live_evidence_span(&other_hash), None);
    let inside_a_character = candidate(text, 2, 6, content_hash("caf"));
    assert_eq!(live_evidence_span(&inside_a_character), None);
    let out_of_order = candidate(text, 7, 2, content_hash(""));
    assert_eq!(live_evidence_span(&out_of_order), None);
    let beyond_the_end = candidate(text, 2, 99, content_hash("caf\u{e9}"));
    assert_eq!(live_evidence_span(&beyond_the_end), None);

    let mut hidden = candidate(text, 2, 7, content_hash("caf\u{e9}"));
    hidden.sources[0].availability = ExtractionAuditSourceAvailability::SourceMismatch;
    assert_eq!(live_evidence_span(&hidden), None);
}

#[test]
fn the_routing_surface_names_the_object_of_the_evidence() {
    let mut row = candidate("rain", 0, 4, content_hash("rain"));
    assert_eq!(
        candidate_routing_surface(&row),
        "the roof leaks\nEvidence object: rain"
    );
    row.evidence_object = Some("  water ".to_string());
    assert_eq!(
        candidate_routing_surface(&row),
        "the roof leaks\nEvidence object: water"
    );
    row.evidence_object = Some("  ".to_string());
    assert_eq!(candidate_routing_surface(&row), "the roof leaks");
}

#[test]
fn promoting_twice_refreshes_the_first_fact() {
    let row = candidate("rain", 0, 4, content_hash("rain"));
    let input = match promote_reviewed_candidate(&Vec::new(), &row) {
        Ok(Promotion::Add { input }) => input,
        other => panic!("a new candidate is added: {other:?}"),
    };
    assert_eq!(
        input.metadata[0],
        (META_IDEMPOTENCY_KEY.to_string(), "key".to_string())
    );
    assert!(input
        .metadata
        .contains(&("anamnesis:fact-kind".to_string(), "fact".to_string())));
    assert!(input
        .metadata
        .contains(&("anamnesis:evidence-object".to_string(), "rain".to_string())));
    let stored = AtomicFact {
        id: 31,
        valid_from: input.valid_from,
        valid_until: input.valid_until,
        metadata: input.metadata,
    };
    match promote_reviewed_candidate(&vec![stored], &row) {
        Ok(Promotion::Refresh {
            fact_id,
            valid_from,
            valid_until,
        }) => assert_eq!((fact_id, valid_from, valid_until), (31, Some(10), None)),
        other => panic!("a known candidate is refreshed: {other:?}"),
    }
}

#[test]
fn a_candidate_without_sources_is_not_promoted() {
    let mut row = candidate("rain", 0, 4, content_hash("rain"));
    row.source_node_ids.clear();
    let error = promote_reviewed_candidate(&Vec::new(), &row).unwrap_err();
    assert_eq!(error.kind, EngineErrorKind::InvalidInput);
    assert_eq!(
        error.message,
        "reviewed extraction candidate requires at least one raw source"
    );
}

#[test]
fn a_promoted_relation_keeps_its_target_and_kind() {
    let mut source = AtomicFact {
        id: 1,
        valid_from: None,
        valid_until: None,
        metadata: Vec::new(),
    };
    match promote_reviewed_relation(&source, 5, 12, RelationKind::Causal).unwrap() {
        RelationPromotion::Link {
            fact_id,
            key,
            value,
        } => {
            assert_eq!(fact_id, 1);
            assert_eq!(key, "anamnesis:atomic-relation:5");
            assert_eq!(value, "causal:12");
            source.metadata.push((key, value));
        }
        other => panic!("a new relation is linked: {other:?}"),
    }
    assert!(matches!(
        promote_reviewed_relation(&source, 5, 12, RelationKind::Causal),
        Ok(RelationPromotion::AlreadyThere)
    ));
    for (to, kind) in [(13, RelationKind::Causal), (12, RelationKind::Supports)] {
        let error = promote_reviewed_relation(&source, 5, to, kind).unwrap_err();
        assert_eq!(error.kind, EngineErrorKind::InvalidInput);
        assert_eq!(
            error.message,
            "atomic relation 5 conflicts with an existing target"
        );
    }
    assert!(matches!(
        promote_reviewed_relation(&source, 6, 13, RelationKind::Causal),
        Ok(RelationPromotion::Link { .. })
    ));
}

#[test]
fn faults_of_the_store_keep_their_kind() {
    assert_eq!(policy_not_ready().kind, EngineErrorKind::Storage);
    assert_eq!(
        policy_not_ready().message,
        "policy store was not ready after initialization"
    );
    let missing = StageFault::MissingNode { node_id: 9 }.error();
    assert_eq!(missing.kind, EngineErrorKind::NotFound);
    assert_eq!(missing.message, "node not found: 9");
    assert_eq!(
        StageFault::NotCanonical.error().kind,
        EngineErrorKind::InvalidInput
    );
}

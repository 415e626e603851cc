use anamnesis::{
    valid_at, Confidence, EdgeEndpoint, EdgeId, EdgeKind, EntityKind, MemoryId, MemoryKind, NodeId,
    NodeKind, Origin, OriginError, OriginInput, PeerId, ScopeError, ScopePath, SourceKind,
    TemporalError, TemporalValidity, Timestamp,
};

#[test]
fn schema_kinds_have_stable_keys() {
    assert_eq!(NodeKind::Memory.as_str(), "memory");
    assert_eq!(MemoryKind::Decision.as_str(), "decision");
    assert_eq!(EntityKind::Agent.as_str(), "agent");
    assert_eq!(EdgeKind::Sequence.as_str(), "sequence");
}

#[test]
fn schema_kinds_stay_stable() {
    assert_eq!(NodeKind::Source.as_str(), "source");
    assert_eq!(MemoryKind::Evidence.as_str(), "evidence");
    assert_eq!(EntityKind::Agent.as_str(), "agent");
    assert_eq!(EdgeKind::Sequence.as_str(), "sequence");
}

#[test]
fn ids_and_time_are_distinct_coordinate_spaces() {
    let node = NodeId::new(7);
    let edge = EdgeId::new(7);
    let memory = MemoryId::new(7);

    assert_eq!(node.get(), edge.get());
    assert_eq!(memory.get(), 7);
    assert_eq!(Timestamp::from_millis(42).as_millis(), 42);
    assert_eq!(PeerId::new(u64::MAX).get(), u64::MAX);
}

#[test]
fn scope_paths_are_stable_and_hierarchical() {
    let project = ScopePath::from_segments(["project", "anamnesis"]).unwrap();
    let child = ScopePath::from_segments(["project", "anamnesis", "core"]).unwrap();

    assert!(project.contains(&child));
    assert!(!child.contains(&project));
    assert_eq!(ScopePath::universal().as_str(), "universal");
}

#[test]
fn malformed_scope_paths_are_rejected() {
    assert!(ScopePath::from_segments(["project", ""]).is_err());
    assert!(ScopePath::from_segments(["project/core"]).is_err());
    assert!(ScopePath::from_segments(["universal"]).is_err());
}

#[test]
fn each_scope_error_has_an_input() {
    let none: [&str; 0] = [];
    assert_eq!(ScopePath::from_segments(none), Err(ScopeError::Empty));
    assert_eq!(
        ScopePath::from_segments(["project", ""]),
        Err(ScopeError::EmptySegment)
    );
    assert_eq!(
        ScopePath::from_segments(["project/core"]),
        Err(ScopeError::ContainsSlash)
    );
    assert_eq!(
        ScopePath::from_segments(["universal"]),
        Err(ScopeError::ReservedUniversalSegment)
    );
}

#[test]
fn scope_containment_is_a_partial_order_under_universal() {
    let project = ScopePath::from_segments(["project"]).unwrap();
    let child = ScopePath::from_segments(["project", "core"]).unwrap();
    let grandchild = ScopePath::from_segments(["project", "core", "graph"]).unwrap();
    let sibling = ScopePath::from_segments(["projects"]).unwrap();

    assert!(project.contains(&project));
    assert!(project.contains(&child) && child.contains(&grandchild));
    assert!(project.contains(&grandchild));
    assert!(!project.contains(&sibling), "a name is not a path prefix");
    for scope in [&project, &child, &grandchild, &sibling] {
        assert!(ScopePath::universal().contains(scope));
        assert!(!scope.contains(&ScopePath::universal()));
        assert_eq!(ScopePath::new(scope.as_str()).as_ref(), Ok(scope));
    }
}

#[test]
fn origin_preserves_source_scope_and_confidence() {
    let origin = Origin::new(OriginInput {
        agent_id: "codex".to_string(),
        source_kind: SourceKind::AgentObservation,
        session_id: "session-1".to_string(),
        scope: ScopePath::from_segments(["project", "anamnesis"]).unwrap(),
        confidence: 0.82f64.to_bits(),
    })
    .unwrap();

    assert_eq!(origin.agent_id(), "codex");
    assert_eq!(origin.session_id(), "session-1");
    assert_eq!(f64::from_bits(origin.confidence().get()), 0.82);
    assert_eq!(origin.scope().as_str(), "project/anamnesis");
}

#[test]
fn origin_rejects_invalid_confidence_and_empty_identity() {
    let scope = ScopePath::from_segments(["project", "anamnesis"]).unwrap();

    assert_eq!(
        Origin::new(OriginInput {
            agent_id: String::new(),
            source_kind: SourceKind::HumanInput,
            session_id: "session-1".to_string(),
            scope: scope.clone(),
            confidence: 0.5f64.to_bits(),
        }),
        Err(OriginError::EmptyAgentId)
    );
    assert_eq!(
        Origin::new(OriginInput {
            agent_id: "codex".to_string(),
            source_kind: SourceKind::HumanInput,
            session_id: String::new(),
            scope: scope.clone(),
            confidence: 0.5f64.to_bits(),
        }),
        Err(OriginError::EmptySessionId)
    );
    assert_eq!(
        Origin::new(OriginInput {
            agent_id: "codex".to_string(),
            source_kind: SourceKind::HumanInput,
            session_id: "session-1".to_string(),
            scope,
            confidence: 1.1f64.to_bits(),
        }),
        Err(OriginError::InvalidConfidence)
    );
}

#[test]
fn confidence_is_the_closed_unit_interval() {
    for ok in [0.0, -0.0, f64::MIN_POSITIVE, 5e-324, 0.5, 1.0] {
        let confidence = Confidence::new(f64::to_bits(ok)).unwrap();
        assert_eq!(confidence.get(), f64::to_bits(ok));
    }
    for bad in [
        -5e-324,
        -1.0,
        1.0 + f64::EPSILON,
        2.0,
        f64::INFINITY,
        f64::NEG_INFINITY,
        f64::NAN,
        -f64::NAN,
    ] {
        assert_eq!(
            Confidence::new(f64::to_bits(bad)),
            Err(OriginError::InvalidConfidence),
            "{bad}"
        );
    }
}

#[test]
fn temporal_validity_supports_as_of_queries() {
    let validity = TemporalValidity::new(
        Some(Timestamp::from_millis(10)),
        Some(Timestamp::from_millis(20)),
    )
    .unwrap();

    assert!(!valid_at(validity, Timestamp::from_millis(9)));
    assert!(valid_at(validity, Timestamp::from_millis(10)));
    assert!(valid_at(validity, Timestamp::from_millis(19)));
    assert!(!valid_at(validity, Timestamp::from_millis(20)));
    assert_eq!(
        TemporalValidity::new(
            Some(Timestamp::from_millis(20)),
            Some(Timestamp::from_millis(10)),
        ),
        Err(TemporalError::InvertedRange)
    );
}

#[test]
fn an_unbounded_validity_always_holds() {
    for ms in [0, 1, u64::MAX] {
        assert!(valid_at(TemporalValidity::always(), Timestamp::from_millis(ms)));
    }
    assert_eq!(TemporalValidity::always().valid_from(), None);
    assert_eq!(TemporalValidity::always().valid_until(), None);
}

#[test]
fn edge_endpoint_records_fact_shape_without_engine_policy() {
    let endpoint = EdgeEndpoint::new(NodeId::new(1), NodeId::new(2), EdgeKind::Derives);

    assert_eq!(endpoint.source(), NodeId::new(1));
    assert_eq!(endpoint.target(), NodeId::new(2));
    assert_eq!(endpoint.kind(), EdgeKind::Derives);
}

#[test]
fn a_joined_path_spells_itself() {
    let path = ScopePath::from_segments(["team", "project"]).unwrap();
    assert_eq!(ScopePath::new(path.as_str()), Ok(path.clone()));
    assert_eq!(
        ScopePath::new("universal/project"),
        Err(ScopeError::ReservedUniversalSegment)
    );
    assert_eq!(path.clone(), path);
}

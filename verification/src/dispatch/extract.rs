//! Extraction and its review: which captured turns are handed out, what is
//! taken back, what an auditor may judge, and what becomes a stored fact.

use crate::capture::{META_CAPTURE, META_TURN_KEY};
use crate::dispatch::finish::counted;
use crate::dispatch::{extraction_error_response, extraction_reply};
use crate::extract::{
    text_view, AuditSourceView, ExtractionAuditCandidateRow, ExtractionAuditResult,
    ExtractionAuditSource, ExtractionAuditSourceAvailability, ExtractionProfileStatus,
    ExtractionSource, SourceView, ValidatedExtraction,
};
use crate::memory::MemoryRegistry;
use crate::outside::{sha256_hex, sha256_text};
use crate::proto::{failure, invalid, success, EngineError, EngineErrorKind, Reply, Response};
use crate::store::{Graph, Node};
use crate::text::{decimal, push_decimal, same};
use vstd::prelude::*;
use vstd::utf8::{decode_utf8, encode_utf8, is_char_boundary};

verus! {

/// The hash by which a content is recognised again.
pub open spec fn hash_of(content: Seq<char>) -> Seq<char> {
    sha256_hex(encode_utf8(content))
}

/// The hash by which a content is recognised again.
pub fn content_hash(content: &str) -> (r: String)
    ensures
        r@ == hash_of(content@),
{
    sha256_text(content.as_bytes())
}

/// Whether a node is a captured turn.
pub open spec fn is_capture(node: Node) -> bool {
    &&& node.episodic
    &&& node.meta(META_CAPTURE@) == Some("true"@)
    &&& node.meta(META_TURN_KEY@) is Some
}

/// Whether a node is a captured turn.
pub fn is_capture_node(node: &Node) -> (r: bool)
    ensures
        r == is_capture(*node),
{
    if !node.episodic {
        return false;
    }
    match node.get(META_CAPTURE) {
        Some(v) => same(v, "true") && node.get(META_TURN_KEY).is_some(),
        None => false,
    }
}

/// Whether a node is the captured turn with the given key.
pub open spec fn is_turn(node: Node, turn_key: Seq<char>) -> bool {
    is_capture(node) && node.meta(META_TURN_KEY@) == Some(turn_key)
}

fn is_turn_node(node: &Node, turn_key: &str) -> (r: bool)
    ensures
        r == is_turn(*node, turn_key@),
{
    if !is_capture_node(node) {
        return false;
    }
    match node.get(META_TURN_KEY) {
        Some(k) => same(k, turn_key),
        None => false,
    }
}

/// A captured turn as it is handed to an extractor.
pub open spec fn source_of(node: Node) -> SourceView {
    SourceView {
        node_id: node.id,
        turn_key: node.meta(META_TURN_KEY@)->0,
        session_id: node.session_id@,
        scope: node.scope@,
        content: node.content@,
        content_hash: hash_of(node.content@),
        at_ms: node.created_at,
    }
}

fn source_from_node(node: &Node) -> (r: Option<ExtractionSource>)
    ensures
        match r {
            Some(s) => is_capture(*node) && s@ == source_of(*node),
            None => !is_capture(*node),
        },
{
    if !is_capture_node(node) {
        return None;
    }
    match node.get(META_TURN_KEY) {
        Some(k) => Some(
            ExtractionSource {
                node_id: node.id,
                turn_key: k.to_owned(),
                session_id: node.session_id.clone(),
                scope: node.scope.clone(),
                content: node.content.clone(),
                content_hash: content_hash(node.content.as_str()),
                at_ms: node.created_at,
            },
        ),
        None => None,
    }
}

/// The captured turns among the nodes, in order.
pub open spec fn captured(nodes: Seq<Node>) -> Seq<SourceView>
    decreases nodes.len(),
{
    if nodes.len() == 0 {
        Seq::empty()
    } else if is_capture(nodes.last()) {
        captured(nodes.drop_last()).push(source_of(nodes.last()))
    } else {
        captured(nodes.drop_last())
    }
}

/// Sources by their characters.
pub open spec fn source_views(v: Seq<ExtractionSource>) -> Seq<SourceView> {
    v.map_values(|s: ExtractionSource| s@)
}

/// The captured turns of a namespace, as they are handed to an extractor.
pub fn capture_sources(graph: &Graph) -> (r: Vec<ExtractionSource>)
    ensures
        source_views(r@) == captured(graph.nodes@),
{
    let mut out: Vec<ExtractionSource> = Vec::new();
    let mut i: usize = 0;
    assert(graph.nodes@.take(0) =~= Seq::<Node>::empty());
    assert(source_views(out@) =~= captured(graph.nodes@.take(0)));
    while i < graph.nodes.len()
        invariant
            0 <= i <= graph.nodes@.len(),
            source_views(out@) == captured(graph.nodes@.take(i as int)),
        decreases graph.nodes@.len() - i,
    {
        proof {
            let next = graph.nodes@.take(i + 1);
            assert(next.drop_last() =~= graph.nodes@.take(i as int));
            assert(next.last() == graph.nodes@[i as int]);
        }
        if let Some(source) = source_from_node(&graph.nodes[i]) {
            let ghost before = out@;
            out.push(source);
            assert(source_views(out@) =~= source_views(before).push(source@));
        }
        i += 1;
    }
    assert(graph.nodes@.take(i as int) =~= graph.nodes@);
    out
}

/// Why an extraction cannot be taken back.
#[derive(Debug, Clone, PartialEq, Eq)]
pub enum StageFault {
    /// Two sources name the same node.
    ReusedNode,
    /// A source names a node that does not exist.
    MissingNode { node_id: u64 },
    /// A source names a node that is not a captured turn.
    NotCaptured,
    /// A source is no longer what is stored.
    Changed,
    /// The extraction does not pass the extractor's schema.
    Rejected { message: String },
    /// The extraction is not in its canonical form.
    NotCanonical,
}

impl StageFault {
    /// What the caller is told.
    pub open spec fn text(self) -> Seq<char> {
        match self {
            StageFault::ReusedNode => "extraction sources must not reuse a node id"@,
            StageFault::MissingNode { node_id } => "node not found: "@ + decimal(node_id as nat),
            StageFault::NotCaptured => "extraction source node is not a captured episodic node"@,
            StageFault::Changed => "extraction source snapshot no longer matches memory"@,
            StageFault::Rejected { message } => message@,
            StageFault::NotCanonical =>
                "extraction payload does not match its canonical validation"@,
        }
    }

    /// The same fault as the store would report it.
    pub fn error(self) -> (r: EngineError)
        ensures
            r.message@ == self.text(),
            r.kind == (if self is MissingNode {
                EngineErrorKind::NotFound
            } else {
                EngineErrorKind::InvalidInput
            }),
    {
        match self {
            StageFault::ReusedNode => EngineError::invalid_input(
                "extraction sources must not reuse a node id".to_owned(),
            ),
            StageFault::MissingNode { node_id } => {
                let mut message = "node not found: ".to_owned();
                push_decimal(&mut message, node_id);
                EngineError { kind: EngineErrorKind::NotFound, message }
            },
            StageFault::NotCaptured => EngineError::invalid_input(
                "extraction source node is not a captured episodic node".to_owned(),
            ),
            StageFault::Changed => EngineError::invalid_input(
                "extraction source snapshot no longer matches memory".to_owned(),
            ),
            StageFault::Rejected { message } => EngineError::invalid_input(message),
            StageFault::NotCanonical => EngineError::invalid_input(
                "extraction payload does not match its canonical validation".to_owned(),
            ),
        }
    }
}

/// Whether a source before the `i`-th one names the same node.
pub open spec fn reused(sources: Seq<SourceView>, i: int) -> bool {
    exists|j: int| 0 <= j < i && (#[trigger] sources[j]).node_id == sources[i].node_id
}

/// What is wrong with the `i`-th source.
pub open spec fn source_fault(graph: Graph, sources: Seq<SourceView>, i: int) -> Option<StageFault> {
    let s = sources[i];
    if reused(sources, i) {
        Some(StageFault::ReusedNode)
    } else {
        match graph.node(s.node_id) {
            None => Some(StageFault::MissingNode { node_id: s.node_id }),
            Some(node) => if !is_capture(node) {
                Some(StageFault::NotCaptured)
            } else if source_of(node) != s {
                Some(StageFault::Changed)
            } else {
                None
            },
        }
    }
}

/// What is wrong with the first source at which something is.
pub open spec fn snapshot_fault(graph: Graph, sources: Seq<SourceView>) -> Option<StageFault>
    decreases sources.len(),
{
    if sources.len() == 0 {
        None
    } else {
        match snapshot_fault(graph, sources.drop_last()) {
            Some(f) => Some(f),
            None => source_fault(graph, sources, sources.len() - 1),
        }
    }
}

proof fn lemma_snapshot_fault(graph: Graph, sources: Seq<SourceView>, n: int)
    requires
        0 <= n <= sources.len(),
        snapshot_fault(graph, sources.take(n)) is Some,
    ensures
        snapshot_fault(graph, sources) == snapshot_fault(graph, sources.take(n)),
    decreases sources.len(),
{
    if n < sources.len() {
        assert(sources.drop_last().take(n) =~= sources.take(n));
        lemma_snapshot_fault(graph, sources.drop_last(), n);
    } else {
        assert(sources.take(n) =~= sources);
    }
}

proof fn lemma_source_fault_prefix(graph: Graph, sources: Seq<SourceView>, i: int)
    requires
        0 <= i < sources.len(),
    ensures
        source_fault(graph, sources.take(i + 1), i) == source_fault(graph, sources, i),
{
    let t = sources.take(i + 1);
    assert(t[i] == sources[i]);
    if reused(sources, i) {
        let j = choose|j: int| 0 <= j < i && (#[trigger] sources[j]).node_id == sources[i].node_id;
        assert(t[j].node_id == t[i].node_id);
    }
    if reused(t, i) {
        let j = choose|j: int| 0 <= j < i && (#[trigger] t[j]).node_id == t[i].node_id;
        assert(sources[j].node_id == sources[i].node_id);
    }
}

fn is_reused(sources: &Vec<ExtractionSource>, i: usize) -> (r: bool)
    requires
        i < sources@.len(),
    ensures
        r == reused(source_views(sources@), i as int),
{
    let ghost all = source_views(sources@);
    let mut j: usize = 0;
    while j < i
        invariant
            0 <= j <= i < sources@.len(),
            all == source_views(sources@),
            forall|k: int| 0 <= k < j ==> (#[trigger] all[k]).node_id != all[i as int].node_id,
        decreases i - j,
    {
        if sources[j].node_id == sources[i].node_id {
            assert(all[j as int].node_id == all[i as int].node_id);
            return true;
        }
        j += 1;
    }
    false
}

fn check_source(graph: &Graph, sources: &Vec<ExtractionSource>, i: usize) -> (r: Option<StageFault>)
    requires
        i < sources@.len(),
    ensures
        r == source_fault(*graph, source_views(sources@), i as int),
{
    assert(source_views(sources@)[i as int] == sources@[i as int]@);
    if is_reused(sources, i) {
        return Some(StageFault::ReusedNode);
    }
    let node_id: u64 = sources[i].node_id;
    match graph.find(node_id) {
        None => Some(StageFault::MissingNode { node_id }),
        Some(node) => match source_from_node(node) {
            None => Some(StageFault::NotCaptured),
            Some(stored) => if stored.same_as(&sources[i]) {
                None
            } else {
                Some(StageFault::Changed)
            },
        },
    }
}

/// Checks that the sources of an extraction are still what is stored.
pub fn validate_stage_snapshot(graph: &Graph, sources: &Vec<ExtractionSource>) -> (r: Result<
    (),
    StageFault,
>)
    ensures
        match r {
            Ok(_) => snapshot_fault(*graph, source_views(sources@)) is None,
            Err(f) => snapshot_fault(*graph, source_views(sources@)) == Some(f),
        },
{
    let ghost all = source_views(sources@);
    let mut i: usize = 0;
    assert(all.take(0) =~= Seq::<SourceView>::empty());
    while i < sources.len()
        invariant
            0 <= i <= sources@.len(),
            all == source_views(sources@),
            snapshot_fault(*graph, all.take(i as int)) is None,
        decreases sources@.len() - i,
    {
        let fault = check_source(graph, sources, i);
        proof {
            let next = all.take(i + 1);
            assert(next.drop_last() =~= all.take(i as int));
            lemma_source_fault_prefix(*graph, all, i as int);
            assert(snapshot_fault(*graph, next) == source_fault(*graph, all, i as int));
        }
        if let Some(f) = fault {
            proof {
                lemma_snapshot_fault(*graph, all, i + 1);
            }
            return Err(f);
        }
        i += 1;
    }
    assert(all.take(i as int) =~= all);
    Ok(())
}

/// What is wrong with an extraction that is to be staged, where `canonical` is
/// what the extractor's schema makes of it.
pub open spec fn stage_fault(
    graph: Graph,
    sources: Seq<SourceView>,
    extraction: ValidatedExtraction,
    canonical: Result<ValidatedExtraction, String>,
) -> Option<StageFault> {
    match snapshot_fault(graph, sources) {
        Some(f) => Some(f),
        None => match canonical {
            Err(message) => Some(StageFault::Rejected { message }),
            Ok(c) => if c@ == extraction@ {
                None
            } else {
                Some(StageFault::NotCanonical)
            },
        },
    }
}

/// Decides whether an extraction is staged: its sources must be what is
/// stored, and it must be in the canonical form.
pub fn stage_namespace(
    graph: &Graph,
    sources: &Vec<ExtractionSource>,
    extraction: &ValidatedExtraction,
    canonical: Result<ValidatedExtraction, String>,
) -> (r: Result<(), StageFault>)
    ensures
        match r {
            Ok(_) => stage_fault(*graph, source_views(sources@), *extraction, canonical) is None,
            Err(f) => stage_fault(*graph, source_views(sources@), *extraction, canonical) == Some(f),
        },
{
    match validate_stage_snapshot(graph, sources) {
        Err(f) => Err(f),
        Ok(_) => match canonical {
            Err(message) => Err(StageFault::Rejected { message }),
            Ok(c) => if c.same_as(extraction) {
                Ok(())
            } else {
                Err(StageFault::NotCanonical)
            },
        },
    }
}

/// What a caller is told whose extractor may not be used; nothing where it
/// may.
pub open spec fn profile_fault(status: ExtractionProfileStatus) -> Option<Seq<char>> {
    match status {
        ExtractionProfileStatus::Shadow => None,
        ExtractionProfileStatus::Revoked => Some("revoked extraction profile cannot be used"@),
        ExtractionProfileStatus::Approved => Some(
            "unsupported extraction profile status for shadow scans: Approved"@,
        ),
    }
}

/// Decides whether an extractor may scan: only one in the shadow may.
pub fn processed_turn_keys(status: ExtractionProfileStatus) -> (r: Result<(), EngineError>)
    ensures
        match r {
            Ok(_) => profile_fault(status) is None,
            Err(e) => e.kind == EngineErrorKind::InvalidInput && profile_fault(status) == Some(
                e.message@,
            ),
        },
{
    match status {
        ExtractionProfileStatus::Shadow => Ok(()),
        ExtractionProfileStatus::Revoked => Err(
            EngineError::invalid_input("revoked extraction profile cannot be used".to_owned()),
        ),
        ExtractionProfileStatus::Approved => Err(
            EngineError::invalid_input(
                "unsupported extraction profile status for shadow scans: Approved".to_owned(),
            ),
        ),
    }
}

/// What a stored turn shows to an auditor who expects the given origin and
/// hash: its content only where they are met.
pub open spec fn live_source(
    node: Node,
    turn_key: Seq<char>,
    session_id: Seq<char>,
    scope: Seq<char>,
    content_hash: Seq<char>,
) -> AuditSourceView {
    let exact = node.session_id@ == session_id && node.scope@ == scope && hash_of(node.content@)
        == content_hash;
    AuditSourceView {
        node_id: node.id,
        turn_key,
        session_id,
        scope,
        content_hash,
        content: if exact {
            Some(node.content@)
        } else {
            None
        },
        availability: if exact {
            ExtractionAuditSourceAvailability::Available
        } else {
            ExtractionAuditSourceAvailability::SourceMismatch
        },
    }
}

/// Shows a stored turn to an auditor.
pub fn audit_source_from_live_node(
    node: &Node,
    turn_key: &str,
    session_id: &str,
    scope: &str,
    expected_hash: &str,
) -> (r: ExtractionAuditSource)
    ensures
        r@ == live_source(*node, turn_key@, session_id@, scope@, expected_hash@),
{
    let live_hash = content_hash(node.content.as_str());
    let exact = same(node.session_id.as_str(), session_id) && same(node.scope.as_str(), scope)
        && same(live_hash.as_str(), expected_hash);
    ExtractionAuditSource {
        node_id: node.id,
        turn_key: turn_key.to_owned(),
        session_id: session_id.to_owned(),
        scope: scope.to_owned(),
        content_hash: expected_hash.to_owned(),
        content: if exact {
            Some(node.content.clone())
        } else {
            None
        },
        availability: if exact {
            ExtractionAuditSourceAvailability::Available
        } else {
            ExtractionAuditSourceAvailability::SourceMismatch
        },
    }
}

/// The captured turns with the given key, in order.
pub open spec fn turns_with_key(nodes: Seq<Node>, turn_key: Seq<char>) -> Seq<Node>
    decreases nodes.len(),
{
    if nodes.len() == 0 {
        Seq::empty()
    } else if is_turn(nodes.last(), turn_key) {
        turns_with_key(nodes.drop_last(), turn_key).push(nodes.last())
    } else {
        turns_with_key(nodes.drop_last(), turn_key)
    }
}

/// A source that cannot be shown.
pub open spec fn hidden_source(
    node_id: u64,
    turn_key: Seq<char>,
    session_id: Seq<char>,
    scope: Seq<char>,
    content_hash: Seq<char>,
    availability: ExtractionAuditSourceAvailability,
) -> AuditSourceView {
    AuditSourceView { node_id, turn_key, session_id, scope, content_hash, content: None, availability }
}

/// The source that a candidate names: the node with its number where that is
/// the turn in question, or else the one turn with its key. Without such a
/// turn it cannot be shown: it is gone where nothing bears its number or its
/// key, and it does not match otherwise.
pub open spec fn resolved_source(
    graph: Graph,
    node_id: u64,
    turn_key: Seq<char>,
    session_id: Seq<char>,
    scope: Seq<char>,
    content_hash: Seq<char>,
) -> AuditSourceView {
    let hinted = graph.node(node_id);
    let found = turns_with_key(graph.nodes@, turn_key);
    if hinted is Some && is_turn(hinted->0, turn_key) {
        live_source(hinted->0, turn_key, session_id, scope, content_hash)
    } else if found.len() == 1 {
        live_source(found[0], turn_key, session_id, scope, content_hash)
    } else {
        hidden_source(
            node_id,
            turn_key,
            session_id,
            scope,
            content_hash,
            if hinted is None && found.len() == 0 {
                ExtractionAuditSourceAvailability::SourceUnavailable
            } else {
                ExtractionAuditSourceAvailability::SourceMismatch
            },
        )
    }
}

fn find_turns(graph: &Graph, turn_key: &str) -> (r: (usize, Option<usize>))
    ensures
        r.0 == turns_with_key(graph.nodes@, turn_key@).len(),
        match r.1 {
            Some(i) => i < graph.nodes@.len() && r.0 > 0 && turns_with_key(
                graph.nodes@,
                turn_key@,
            )[0] == graph.nodes@[i as int],
            None => r.0 == 0,
        },
{
    let mut count: usize = 0;
    let mut first: Option<usize> = None;
    let mut i: usize = 0;
    assert(graph.nodes@.take(0) =~= Seq::<Node>::empty());
    while i < graph.nodes.len()
        invariant
            0 <= i <= graph.nodes@.len(),
            count <= i,
            count == turns_with_key(graph.nodes@.take(i as int), turn_key@).len(),
            match first {
                Some(f) => f < graph.nodes@.len() && count > 0 && turns_with_key(
                    graph.nodes@.take(i as int),
                    turn_key@,
                )[0] == graph.nodes@[f as int],
                None => count == 0,
            },
        decreases graph.nodes@.len() - i,
    {
        proof {
            let next = graph.nodes@.take(i + 1);
            assert(next.drop_last() =~= graph.nodes@.take(i as int));
            assert(next.last() == graph.nodes@[i as int]);
        }
        if is_turn_node(&graph.nodes[i], turn_key) {
            count += 1;
            if first.is_none() {
                first = Some(i);
            }
        }
        i += 1;
    }
    assert(graph.nodes@.take(i as int) =~= graph.nodes@);
    (count, first)
}

/// Finds the source that a candidate names.
pub fn resolve_audit_source(
    graph: &Graph,
    node_id: u64,
    turn_key: &str,
    session_id: &str,
    scope: &str,
    expected_hash: &str,
) -> (r: ExtractionAuditSource)
    ensures
        r@ == resolved_source(*graph, node_id, turn_key@, session_id@, scope@, expected_hash@),
{
    let hinted = graph.find(node_id);
    if let Some(node) = hinted {
        if is_turn_node(node, turn_key) {
            return audit_source_from_live_node(node, turn_key, session_id, scope, expected_hash);
        }
    }
    let (count, first) = find_turns(graph, turn_key);
    if count == 1 {
        if let Some(i) = first {
            return audit_source_from_live_node(
                &graph.nodes[i],
                turn_key,
                session_id,
                scope,
                expected_hash,
            );
        }
    }
    ExtractionAuditSource {
        node_id,
        turn_key: turn_key.to_owned(),
        session_id: session_id.to_owned(),
        scope: scope.to_owned(),
        content_hash: expected_hash.to_owned(),
        content: None,
        availability: if hinted.is_none() && count == 0 {
            ExtractionAuditSourceAvailability::SourceUnavailable
        } else {
            ExtractionAuditSourceAvailability::SourceMismatch
        },
    }
}

/// Sources of a candidate by their characters.
pub open spec fn audit_views(v: Seq<ExtractionAuditSource>) -> Seq<AuditSourceView> {
    v.map_values(|s: ExtractionAuditSource| s@)
}

/// Whether the lists in which a candidate names its sources fit together.
pub open spec fn names_sources(c: ExtractionAuditCandidateRow) -> bool {
    &&& c.source_turn_keys@.len() > 0
    &&& c.source_node_ids@.len() == c.source_turn_keys@.len()
    &&& c.source_content_hashes@.len() == c.source_turn_keys@.len()
}

/// The sources of a candidate; none where its lists do not fit together.
pub open spec fn audit_sources(graph: Graph, c: ExtractionAuditCandidateRow) -> Seq<AuditSourceView> {
    if names_sources(c) {
        Seq::new(
            c.source_turn_keys@.len(),
            |i: int|
                resolved_source(
                    graph,
                    c.source_node_ids@[i],
                    c.source_turn_keys@[i]@,
                    c.source_session_id@,
                    c.source_scope@,
                    c.source_content_hashes@[i]@,
                ),
        )
    } else {
        Seq::empty()
    }
}

/// Finds the sources of a candidate.
pub fn candidate_audit_sources(graph: &Graph, candidate: &ExtractionAuditCandidateRow) -> (r: Vec<
    ExtractionAuditSource,
>)
    ensures
        audit_views(r@) == audit_sources(*graph, *candidate),
{
    let count: usize = candidate.source_turn_keys.len();
    let mut out: Vec<ExtractionAuditSource> = Vec::new();
    if count == 0 || candidate.source_node_ids.len() != count
        || candidate.source_content_hashes.len() != count {
        assert(audit_views(out@) =~= audit_sources(*graph, *candidate));
        return out;
    }
    let mut i: usize = 0;
    while i < count
        invariant
            0 <= i <= count,
            count == candidate.source_turn_keys@.len(),
            names_sources(*candidate),
            out@.len() == i,
            forall|j: int|
                0 <= j < i ==> (#[trigger] out@[j])@ == audit_sources(*graph, *candidate)[j],
        decreases count - i,
    {
        out.push(
            resolve_audit_source(
                graph,
                candidate.source_node_ids[i],
                candidate.source_turn_keys[i].as_str(),
                candidate.source_session_id.as_str(),
                candidate.source_scope.as_str(),
                candidate.source_content_hashes[i].as_str(),
            ),
        );
        i += 1;
    }
    assert(audit_views(out@) =~= audit_sources(*graph, *candidate));
    out
}

/// The part of a text between two byte positions; nothing where they are out
/// of order, out of range or inside a character.
pub open spec fn byte_span(s: Seq<char>, start: int, end: int) -> Option<Seq<char>> {
    let bytes = encode_utf8(s);
    if 0 <= start <= end && is_char_boundary(bytes, start) && is_char_boundary(bytes, end) {
        Some(decode_utf8(bytes.subrange(start, end)))
    } else {
        None
    }
}

proof fn lemma_boundary(bytes: Seq<u8>, i: int)
    requires
        vstd::utf8::valid_utf8(bytes),
        is_char_boundary(bytes, i),
    ensures
        0 <= i <= bytes.len(),
    decreases bytes.len(),
{
    reveal_with_fuel(is_char_boundary, 2);
}

proof fn lemma_boundary_in_prefix(bytes: Seq<u8>, start: int, end: int)
    requires
        vstd::utf8::valid_utf8(bytes),
        0 <= start <= end,
        is_char_boundary(bytes, start),
        is_char_boundary(bytes, end),
    ensures
        end <= bytes.len(),
        is_char_boundary(bytes.subrange(0, end), start),
{
    lemma_boundary(bytes, end);
    let head = bytes.subrange(0, end);
    vstd::utf8::valid_utf8_split(bytes, end);
    if start == end {
        vstd::utf8::is_char_boundary_start_end_of_seq(head);
    } else {
        vstd::utf8::is_char_boundary_iff_not_is_continuation_byte(bytes, start);
        vstd::utf8::is_char_boundary_iff_not_is_continuation_byte(head, start);
        assert(head[start] == bytes[start]);
    }
}

fn text_between(s: &str, start: u64, end: u64) -> (r: Option<String>)
    ensures
        text_view(r) == byte_span(s@, start as int, end as int),
{
    proof {
        vstd::utf8::encode_utf8_valid_utf8(s@);
    }
    let ghost bytes = encode_utf8(s@);
    let len: usize = s.as_bytes().len();
    if start > end || end as u128 > len as u128 {
        proof {
            if is_char_boundary(bytes, end as int) {
                lemma_boundary(bytes, end as int);
            }
        }
        return None;
    }
    let from: usize = start as usize;
    let to: usize = end as usize;
    if !s.is_char_boundary(from) || !s.is_char_boundary(to) {
        return None;
    }
    proof {
        lemma_boundary_in_prefix(bytes, start as int, end as int);
    }
    let (head, _) = s.split_at(to);
    let (_, span) = head.split_at(from);
    proof {
        vstd::utf8::encode_utf8_decode_utf8(span@);
        assert(bytes.subrange(0, end as int).subrange(start as int, end as int) =~= bytes.subrange(
            start as int,
            end as int,
        ));
    }
    Some(span.to_owned())
}

/// The first source with the given number that can be shown.
pub open spec fn shown_source(sources: Seq<AuditSourceView>, node_id: u64) -> Option<AuditSourceView>
    decreases sources.len(),
{
    if sources.len() == 0 {
        None
    } else {
        let last = sources.last();
        match shown_source(sources.drop_last(), node_id) {
            Some(s) => Some(s),
            None => if last.node_id == node_id && last.availability
                == ExtractionAuditSourceAvailability::Available {
                Some(last)
            } else {
                None
            },
        }
    }
}

/// The evidence of a candidate as it stands in its sources: the part between
/// the two positions of the source it names, where its hash is the one that is
/// expected.
pub open spec fn live_span(
    c: ExtractionAuditCandidateRow,
    sources: Seq<AuditSourceView>,
) -> Option<Seq<char>> {
    match (
        c.evidence_source_node_id,
        c.evidence_span_start,
        c.evidence_span_end,
        c.evidence_span_sha256,
    ) {
        (Some(node_id), Some(start), Some(end), Some(hash)) => match shown_source(sources, node_id) {
            Some(source) => match source.content {
                Some(content) => match byte_span(content, start as int, end as int) {
                    Some(span) => if hash_of(span) == hash@ {
                        Some(span)
                    } else {
                        None
                    },
                    None => None,
                },
                None => None,
            },
            None => None,
        },
        _ => None,
    }
}

fn find_shown(sources: &Vec<ExtractionAuditSource>, node_id: u64) -> (r: Option<usize>)
    ensures
        match r {
            Some(i) => i < sources@.len() && shown_source(audit_views(sources@), node_id) == Some(
                sources@[i as int]@,
            ),
            None => shown_source(audit_views(sources@), node_id) is None,
        },
{
    let ghost all = audit_views(sources@);
    let mut found: Option<usize> = None;
    let mut i: usize = 0;
    assert(all.take(0) =~= Seq::<AuditSourceView>::empty());
    while i < sources.len()
        invariant
            0 <= i <= sources@.len(),
            all == audit_views(sources@),
            match found {
                Some(f) => f < sources@.len() && shown_source(all.take(i as int), node_id) == Some(
                    sources@[f as int]@,
                ),
                None => shown_source(all.take(i as int), node_id) is None,
            },
        decreases sources@.len() - i,
    {
        proof {
            let next = all.take(i + 1);
            assert(next.drop_last() =~= all.take(i as int));
            assert(next.last() == sources@[i as int]@);
        }
        if found.is_none() && sources[i].node_id == node_id && sources[i].availability
            == ExtractionAuditSourceAvailability::Available {
            found = Some(i);
        }
        i += 1;
    }
    assert(all.take(i as int) =~= all);
    found
}

/// Reads the evidence of a candidate out of its sources.
pub fn live_evidence_span_from_sources(
    candidate: &ExtractionAuditCandidateRow,
    sources: &Vec<ExtractionAuditSource>,
) -> (r: Option<String>)
    ensures
        text_view(r) == live_span(*candidate, audit_views(sources@)),
{
    match (
        candidate.evidence_source_node_id,
        candidate.evidence_span_start,
        candidate.evidence_span_end,
        &candidate.evidence_span_sha256,
    ) {
        (Some(node_id), Some(start), Some(end), Some(hash)) => match find_shown(sources, node_id) {
            Some(i) => match &sources[i].content {
                Some(content) => match text_between(content.as_str(), start, end) {
                    Some(span) => {
                        let actual = content_hash(span.as_str());
                        if same(actual.as_str(), hash.as_str()) {
                            Some(span)
                        } else {
                            None
                        }
                    },
                    None => None,
                },
                None => None,
            },
            None => None,
        },
        _ => None,
    }
}

/// Reads the evidence of a candidate out of the sources it carries.
pub fn live_evidence_span(candidate: &ExtractionAuditCandidateRow) -> (r: Option<String>)
    ensures
        text_view(r) == live_span(*candidate, audit_views(candidate.sources@)),
{
    live_evidence_span_from_sources(candidate, &candidate.sources)
}

/// Whether a candidate names anything of the claim it makes or of its
/// evidence.
pub open spec fn claims_evidence(c: ExtractionAuditCandidateRow) -> bool {
    c.subject is Some || c.relation is Some || c.object is Some || c.evidence_source_node_id is Some
        || c.evidence_span_start is Some || c.evidence_span_end is Some || c.evidence_span_sha256 is Some
}

/// Whether a candidate names all of the claim it makes and of its evidence.
pub open spec fn names_evidence(c: ExtractionAuditCandidateRow) -> bool {
    c.subject is Some && c.relation is Some && c.object is Some && c.evidence_source_node_id is Some
        && c.evidence_span_start is Some && c.evidence_span_end is Some && c.evidence_span_sha256 is Some
}

/// Whether an auditor can judge a candidate: all its sources can be shown,
/// and its evidence, if it claims any, stands in them.
pub open spec fn reviewable(graph: Graph, c: ExtractionAuditCandidateRow) -> bool {
    let sources = audit_sources(graph, c);
    &&& claims_evidence(c) ==> names_evidence(c) && live_span(c, sources) is Some
    &&& names_sources(c)
    &&& forall|i: int|
        0 <= i < sources.len() ==> (#[trigger] sources[i]).availability
            == ExtractionAuditSourceAvailability::Available
}

/// Decides whether an auditor can judge a candidate.
pub fn candidate_sources_available(graph: &Graph, candidate: &ExtractionAuditCandidateRow) -> (r:
    bool)
    ensures
        r == reviewable(*graph, *candidate),
{
    let sources = candidate_audit_sources(graph, candidate);
    let ghost all = audit_sources(*graph, *candidate);
    let c = candidate;
    let any = c.subject.is_some() || c.relation.is_some() || c.object.is_some()
        || c.evidence_source_node_id.is_some() || c.evidence_span_start.is_some()
        || c.evidence_span_end.is_some() || c.evidence_span_sha256.is_some();
    let every = c.subject.is_some() && c.relation.is_some() && c.object.is_some()
        && c.evidence_source_node_id.is_some() && c.evidence_span_start.is_some()
        && c.evidence_span_end.is_some() && c.evidence_span_sha256.is_some();
    if any && !(every && live_evidence_span_from_sources(candidate, &sources).is_some()) {
        return false;
    }
    let count: usize = c.source_turn_keys.len();
    if count == 0 || c.source_node_ids.len() != count || c.source_content_hashes.len() != count {
        return false;
    }
    let mut i: usize = 0;
    while i < sources.len()
        invariant
            0 <= i <= sources@.len(),
            audit_views(sources@) == all,
            all == audit_sources(*graph, *candidate),
            forall|j: int|
                0 <= j < i ==> (#[trigger] all[j]).availability
                    == ExtractionAuditSourceAvailability::Available,
        decreases sources@.len() - i,
    {
        assert(all[i as int] == sources@[i as int]@);
        if sources[i].availability != ExtractionAuditSourceAvailability::Available {
            return false;
        }
        i += 1;
    }
    true
}

/// Whether `after` is `before` with its sources and its evidence read anew.
pub open spec fn refreshed(
    graph: Graph,
    before: ExtractionAuditCandidateRow,
    after: ExtractionAuditCandidateRow,
) -> bool {
    &&& after == ExtractionAuditCandidateRow {
        sources: after.sources,
        evidence_span: after.evidence_span,
        ..before
    }
    &&& audit_views(after.sources@) == audit_sources(graph, before)
    &&& text_view(after.evidence_span) == live_span(before, audit_sources(graph, before))
}

/// Reads the sources of all candidates, and their evidence, anew.
pub fn enrich_audit_sources(graph: &Graph, result: &mut ExtractionAuditResult)
    ensures
        final(result).relations == old(result).relations,
        final(result).candidates@.len() == old(result).candidates@.len(),
        forall|i: int|
            0 <= i < old(result).candidates@.len() ==> refreshed(
                *graph,
                old(result).candidates@[i],
                #[trigger] final(result).candidates@[i],
            ),
{
    let ghost before = *result;
    let mut i: usize = 0;
    while i < result.candidates.len()
        invariant
            0 <= i <= result.candidates@.len() == before.candidates@.len(),
            result.relations == before.relations,
            forall|j: int|
                0 <= j < i ==> refreshed(
                    *graph,
                    before.candidates@[j],
                    #[trigger] result.candidates@[j],
                ),
            forall|j: int|
                i <= j < before.candidates@.len() ==> #[trigger] result.candidates@[j]
                    == before.candidates@[j],
        decreases result.candidates@.len() - i,
    {
        let sources = candidate_audit_sources(graph, &result.candidates[i]);
        let span = live_evidence_span_from_sources(&result.candidates[i], &sources);
        result.candidates[i].sources = sources;
        result.candidates[i].evidence_span = span;
        i += 1;
    }
}

/// Gives the reply to a job of extraction whose result is a text of its own.
pub fn extraction_response(
    registry: &mut MemoryRegistry,
    result: Result<String, EngineError>,
) -> (r: Response)
    requires
        old(registry)@.ops.room(),
    ensures
        final(registry)@ == counted(old(registry)@, result),
        r@ == (match result {
            Ok(text) => success(text@),
            Err(e) => extraction_reply(e),
        }),
{
    match result {
        Ok(text) => Response::ok(text),
        Err(e) => {
            registry.count_failure();
            extraction_error_response(e)
        },
    }
}

/// Gives the reply to a failed run that was to be recorded.
pub fn dispatch_record_failure(
    registry: &mut MemoryRegistry,
    result: Result<(), EngineError>,
) -> (r: Response)
    requires
        old(registry)@.ops.room(),
    ensures
        final(registry)@ == counted(old(registry)@, result),
        r@ == (match result {
            Ok(_) => success("recorded extraction failure"@),
            Err(e) => extraction_reply(e),
        }),
{
    match result {
        Ok(_) => Response::ok("recorded extraction failure".to_owned()),
        Err(e) => {
            registry.count_failure();
            extraction_error_response(e)
        },
    }
}

/// Gives the reply to a list of what is to be reviewed.
pub fn dispatch_audit_list(
    registry: &mut MemoryRegistry,
    result: Result<String, EngineError>,
) -> (r: Response)
    requires
        old(registry)@.ops.room(),
    ensures
        final(registry)@ == counted(old(registry)@, result),
        r@ == (match result {
            Ok(text) => success(text@),
            Err(e) => failure(e.message@),
        }),
{
    match result {
        Ok(text) => Response::ok(text),
        Err(e) => {
            registry.count_failure();
            Response::internal(e.message)
        },
    }
}

/// Why a judgement or a promotion was not done.
#[derive(Debug)]
pub enum AuditFault {
    /// It was refused; the caller is at fault.
    Refused { message: String },
    /// The store failed.
    Failed { error: EngineError },
}

/// The reply to a judgement or a promotion that was not done.
pub open spec fn fault_reply(fault: AuditFault) -> Reply {
    match fault {
        AuditFault::Refused { message } => invalid(message@),
        AuditFault::Failed { error } => failure(error.message@),
    }
}

/// A judgement or a promotion that is refused.
pub fn refused(message: &str) -> (r: AuditFault)
    ensures
        r matches AuditFault::Refused { message: m } && m@ == message@,
{
    AuditFault::Refused { message: message.to_owned() }
}

/// Counts a judgement or a promotion that was not done, and gives the reply to
/// it.
pub fn answer_fault(registry: &mut MemoryRegistry, fault: AuditFault) -> (r: Response)
    requires
        old(registry)@.ops.room(),
    ensures
        final(registry)@ == old(registry)@.with_ops(old(registry)@.ops.failed()),
        r@ == fault_reply(fault),
{
    registry.count_failure();
    match fault {
        AuditFault::Refused { message } => Response::invalid_params(message),
        AuditFault::Failed { error } => Response::internal(error.message),
    }
}

/// Gives the reply to a judgement on a candidate.
pub fn finish_candidate_audit(
    registry: &mut MemoryRegistry,
    result: Result<(), AuditFault>,
) -> (r: Response)
    requires
        old(registry)@.ops.room(),
    ensures
        final(registry)@ == counted(old(registry)@, result),
        r@ == (match result {
            Ok(_) => success("updated extraction candidate audit"@),
            Err(fault) => fault_reply(fault),
        }),
{
    match result {
        Ok(_) => Response::ok("updated extraction candidate audit".to_owned()),
        Err(fault) => answer_fault(registry, fault),
    }
}

/// Gives the reply to a judgement on a relation.
pub fn dispatch_update_relation_audit(
    registry: &mut MemoryRegistry,
    result: Result<(), EngineError>,
) -> (r: Response)
    requires
        old(registry)@.ops.room(),
    ensures
        final(registry)@ == counted(old(registry)@, result),
        r@ == (match result {
            Ok(_) => success("updated extraction relation audit"@),
            Err(e) => failure(e.message@),
        }),
{
    match result {
        Ok(_) => Response::ok("updated extraction relation audit".to_owned()),
        Err(e) => {
            registry.count_failure();
            Response::internal(e.message)
        },
    }
}

/// The failure of a policy store that is not there although it was opened.
pub fn policy_not_ready() -> (r: EngineError)
    ensures
        r.kind == EngineErrorKind::Storage,
        r.message@ == "policy store was not ready after initialization"@,
{
    EngineError {
        kind: EngineErrorKind::Storage,
        message: "policy store was not ready after initialization".to_owned(),
    }
}

/// A source shows its content exactly where it can be shown, and then the
/// content has the hash under which it was staged.
pub proof fn only_available_sources_show_content(
    graph: Graph,
    node_id: u64,
    turn_key: Seq<char>,
    session_id: Seq<char>,
    scope: Seq<char>,
    content_hash: Seq<char>,
)
    ensures
        ({
            let s = resolved_source(graph, node_id, turn_key, session_id, scope, content_hash);
            &&& s.content is Some <==> s.availability
                == ExtractionAuditSourceAvailability::Available
            &&& s.content matches Some(content) ==> hash_of(content) == content_hash
        }),
{
}

/// The evidence of a candidate that can be reviewed has the hash that the
/// candidate expects, wherever it claims evidence.
pub proof fn reviewable_evidence_is_authentic(graph: Graph, c: ExtractionAuditCandidateRow)
    requires
        reviewable(graph, c),
        claims_evidence(c),
    ensures
        live_span(c, audit_sources(graph, c)) matches Some(span) && Some(hash_of(span)) == text_view(
            c.evidence_span_sha256,
        ),
{
}

proof fn lemma_no_snapshot_fault(graph: Graph, sources: Seq<SourceView>, i: int)
    requires
        snapshot_fault(graph, sources) is None,
        0 <= i < sources.len(),
    ensures
        source_fault(graph, sources, i) is None,
    decreases sources.len(),
{
    if i < sources.len() - 1 {
        let fewer = sources.drop_last();
        lemma_no_snapshot_fault(graph, fewer, i);
        lemma_source_fault_prefix(graph, sources, i);
        lemma_source_fault_prefix(graph, fewer, i);
        assert(fewer.take(i + 1) =~= sources.take(i + 1));
    }
}

/// The sources of an extraction that is staged are captured turns, as they
/// are stored, and no turn is named twice.
pub proof fn staged_sources_are_stored(graph: Graph, sources: Seq<SourceView>, i: int, j: int)
    requires
        snapshot_fault(graph, sources) is None,
        0 <= i < sources.len(),
        0 <= j < sources.len(),
    ensures
        graph.node(sources[i].node_id) matches Some(node) && is_capture(node) && source_of(node)
            == sources[i],
        i != j ==> sources[i].node_id != sources[j].node_id,
{
    lemma_no_snapshot_fault(graph, sources, i);
    lemma_no_snapshot_fault(graph, sources, j);
    if i < j {
        assert(!reused(sources, j));
    } else if j < i {
        assert(!reused(sources, i));
    }
}

/// A captured turn that is handed out is one of the nodes.
pub proof fn lemma_captured(nodes: Seq<Node>, s: SourceView)
    requires
        captured(nodes).contains(s),
    ensures
        exists|k: int|
            0 <= k < nodes.len() && is_capture(#[trigger] nodes[k]) && source_of(nodes[k]) == s,
    decreases nodes.len(),
{
    if nodes.len() > 0 {
        let fewer = captured(nodes.drop_last());
        if is_capture(nodes.last()) && source_of(nodes.last()) == s {
            assert(nodes[nodes.len() - 1] == nodes.last());
        } else {
            let at = choose|at: int| 0 <= at < captured(nodes).len() && captured(nodes)[at] == s;
            assert(fewer.contains(s)) by {
                if is_capture(nodes.last()) {
                    assert(captured(nodes) == fewer.push(source_of(nodes.last())));
                    assert(at < fewer.len());
                    assert(fewer[at] == s);
                }
            }
            lemma_captured(nodes.drop_last(), s);
            let k = choose|k: int|
                0 <= k < nodes.drop_last().len() && is_capture(#[trigger] nodes.drop_last()[k])
                    && source_of(nodes.drop_last()[k]) == s;
            assert(nodes[k] == nodes.drop_last()[k]);
        }
    }
}

/// What was handed out can be taken back: as long as the nodes are the same,
/// any choice of the captured turns passes as the sources of an extraction,
/// provided that it names no turn twice.
pub proof fn handed_out_sources_can_be_staged(graph: Graph, sources: Seq<SourceView>)
    requires
        forall|i: int, j: int|
            0 <= i < graph.nodes@.len() && 0 <= j < graph.nodes@.len() && i != j ==> (
            #[trigger] graph.nodes@[i]).id != (#[trigger] graph.nodes@[j]).id,
        forall|i: int| 0 <= i < sources.len() ==> captured(graph.nodes@).contains(#[trigger] sources[i]),
        forall|i: int, j: int|
            0 <= i < j < sources.len() ==> (#[trigger] sources[i]).node_id != (
            #[trigger] sources[j]).node_id,
    ensures
        snapshot_fault(graph, sources) is None,
    decreases sources.len(),
{
    if sources.len() > 0 {
        let fewer = sources.drop_last();
        assert forall|i: int| 0 <= i < fewer.len() implies captured(graph.nodes@).contains(
            #[trigger] fewer[i],
        ) by {
            assert(fewer[i] == sources[i]);
        }
        assert forall|i: int, j: int| 0 <= i < j < fewer.len() implies (
        #[trigger] fewer[i]).node_id != (#[trigger] fewer[j]).node_id by {
            assert(fewer[i] == sources[i] && fewer[j] == sources[j]);
        }
        handed_out_sources_can_be_staged(graph, fewer);
        let last = sources.len() - 1;
        let s = sources[last];
        lemma_captured(graph.nodes@, s);
        let k = choose|k: int|
            0 <= k < graph.nodes@.len() && is_capture(#[trigger] graph.nodes@[k]) && source_of(
                graph.nodes@[k],
            ) == s;
        crate::store::lemma_node_in(graph.nodes@, s.node_id);
        assert(graph.nodes@[k].id == s.node_id);
        let found = graph.node(s.node_id)->0;
        let m = choose|m: int| 0 <= m < graph.nodes@.len() && graph.nodes@[m] == found;
        assert(graph.nodes@[m].id == graph.nodes@[k].id);
        assert(m == k);
        assert(!reused(sources, last)) by {
            if reused(sources, last) {
                let j = choose|j: int|
                    0 <= j < last && (#[trigger] sources[j]).node_id == sources[last].node_id;
                assert(sources[j].node_id != sources[last].node_id);
            }
        }
    }
}

/// Only an extractor in the shadow may scan, and the others are told why not.
pub proof fn only_shadows_scan(status: ExtractionProfileStatus)
    ensures
        profile_fault(status) is None <==> status == ExtractionProfileStatus::Shadow,
        status == ExtractionProfileStatus::Revoked ==> profile_fault(status) == Some(
            "revoked extraction profile cannot be used"@,
        ),
        status == ExtractionProfileStatus::Approved ==> profile_fault(status) == Some(
            "unsupported extraction profile status for shadow scans: Approved"@,
        ),
{
}

/// A candidate whose sources are read anew keeps its content, its claim, its
/// origin and the judgement on it; its sources are those that the graph holds
/// now, one for each that it names, and its evidence is read from them.
pub proof fn refreshing_changes_only_what_is_read(
    graph: Graph,
    before: ExtractionAuditCandidateRow,
    after: ExtractionAuditCandidateRow,
)
    requires
        refreshed(graph, before, after),
    ensures
        after.id == before.id && after.run_id == before.run_id && after.profile_id
            == before.profile_id && after.item_local_id == before.item_local_id
            && after.idempotency_key == before.idempotency_key,
        after.content == before.content && after.kind == before.kind && after.confidence
            == before.confidence && after.entity_tags == before.entity_tags,
        after.subject == before.subject && after.relation == before.relation && after.object
            == before.object && after.evidence_object == before.evidence_object,
        after.evidence_source_node_id == before.evidence_source_node_id
            && after.evidence_span_start == before.evidence_span_start && after.evidence_span_end
            == before.evidence_span_end && after.evidence_span_sha256
            == before.evidence_span_sha256,
        after.valid_from_ms == before.valid_from_ms && after.valid_until_ms
            == before.valid_until_ms,
        after.source_session_id == before.source_session_id && after.source_scope
            == before.source_scope && after.source_turn_keys == before.source_turn_keys
            && after.source_content_hashes == before.source_content_hashes && after.source_node_ids
            == before.source_node_ids,
        after.support == before.support && after.contamination == before.contamination
            && after.reviewed_at == before.reviewed_at && after.reviewed_by == before.reviewed_by,
        before.source_turn_keys@.len() > 0 && before.source_node_ids@.len()
            == before.source_turn_keys@.len() && before.source_content_hashes@.len()
            == before.source_turn_keys@.len() ==> {
            &&& after.sources@.len() == before.source_turn_keys@.len()
            &&& forall|i: int|
                0 <= i < after.sources@.len() ==> (#[trigger] after.sources@[i])@
                    == resolved_source(
                    graph,
                    before.source_node_ids@[i],
                    before.source_turn_keys@[i]@,
                    before.source_session_id@,
                    before.source_scope@,
                    before.source_content_hashes@[i]@,
                )
        },
        !names_sources(before) ==> after.sources@.len() == 0,
        names_sources(before) <==> before.source_turn_keys@.len() > 0
            && before.source_node_ids@.len() == before.source_turn_keys@.len()
            && before.source_content_hashes@.len() == before.source_turn_keys@.len(),
        text_view(after.evidence_span) == live_span(before, audit_views(after.sources@)),
{
    let shown = audit_views(after.sources@);
    assert(shown.len() == after.sources@.len());
    assert forall|i: int| 0 <= i < after.sources@.len() implies #[trigger] shown[i]
        == after.sources@[i]@ by {}
    assert(shown == audit_sources(graph, before));
    if names_sources(before) {
        assert forall|i: int| 0 <= i < after.sources@.len() implies (#[trigger] after.sources@[i])@
            == resolved_source(
            graph,
            before.source_node_ids@[i],
            before.source_turn_keys@[i]@,
            before.source_session_id@,
            before.source_scope@,
            before.source_content_hashes@[i]@,
        ) by {
            assert(shown[i] == after.sources@[i]@);
        }
    }
}

/// Lists of sources are compared entry by entry.
pub proof fn sources_are_seen_entry_by_entry(
    a: Seq<ExtractionSource>,
    b: Seq<ExtractionAuditSource>,
)
    ensures
        source_views(a).len() == a.len(),
        forall|i: int| 0 <= i < a.len() ==> (#[trigger] source_views(a)[i]) == a[i]@,
        audit_views(b).len() == b.len(),
        forall|i: int| 0 <= i < b.len() ==> (#[trigger] audit_views(b)[i]) == b[i]@,
{
}

/// An extraction that is not staged is refused for the first source that is not
/// what is stored, else by the extractor's schema, else because it is not in the
/// canonical form; and the caller is told which.
pub proof fn refused_stagings_are_told_why(fault: StageFault)
    ensures
        fault == StageFault::ReusedNode ==> fault.text()
            == "extraction sources must not reuse a node id"@,
        fault matches StageFault::MissingNode { node_id } ==> fault.text() == "node not found: "@
            + decimal(node_id as nat),
        fault == StageFault::NotCaptured ==> fault.text()
            == "extraction source node is not a captured episodic node"@,
        fault == StageFault::Changed ==> fault.text()
            == "extraction source snapshot no longer matches memory"@,
        fault matches StageFault::Rejected { message } ==> fault.text() == message@,
        fault == StageFault::NotCanonical ==> fault.text()
            == "extraction payload does not match its canonical validation"@,
{
}

/// The source that evidence is read from is the first with the number that the
/// candidate names which can be shown; there is none only where none such can be.
pub proof fn evidence_is_read_from_the_first_shown_source(
    sources: Seq<AuditSourceView>,
    node_id: u64,
)
    ensures
        match shown_source(sources, node_id) {
            Some(s) => exists|i: int|
                {
                    &&& 0 <= i < sources.len()
                    &&& #[trigger] sources[i] == s
                    &&& s.node_id == node_id
                    &&& s.availability == ExtractionAuditSourceAvailability::Available
                    &&& forall|j: int|
                        0 <= j < i ==> (#[trigger] sources[j]).node_id != node_id
                            || sources[j].availability
                            != ExtractionAuditSourceAvailability::Available
                },
            None => forall|j: int|
                0 <= j < sources.len() ==> (#[trigger] sources[j]).node_id != node_id
                    || sources[j].availability != ExtractionAuditSourceAvailability::Available,
        },
    decreases sources.len(),
{
    if sources.len() > 0 {
        let fewer = sources.drop_last();
        evidence_is_read_from_the_first_shown_source(fewer, node_id);
        assert forall|j: int| 0 <= j < fewer.len() implies fewer[j] == #[trigger] sources[j] by {}
        assert(sources[sources.len() - 1] == sources.last());
        if let Some(s) = shown_source(fewer, node_id) {
            let i = choose|i: int|
                {
                    &&& 0 <= i < fewer.len()
                    &&& #[trigger] fewer[i] == s
                    &&& s.node_id == node_id
                    &&& s.availability == ExtractionAuditSourceAvailability::Available
                    &&& forall|j: int|
                        0 <= j < i ==> (#[trigger] fewer[j]).node_id != node_id
                            || fewer[j].availability
                            != ExtractionAuditSourceAvailability::Available
                };
            assert(sources[i] == s);
            assert forall|j: int| 0 <= j < i implies (#[trigger] sources[j]).node_id != node_id
                || sources[j].availability != ExtractionAuditSourceAvailability::Available by {
                assert(fewer[j] == sources[j]);
            }
        } else {
            assert forall|j: int| 0 <= j < fewer.len() implies (#[trigger] sources[j]).node_id
                != node_id || sources[j].availability
                != ExtractionAuditSourceAvailability::Available by {
                assert(fewer[j] == sources[j]);
            }
        }
    }
}

/// The turns with a key are all the captured turns that bear it, in their order.
pub proof fn turns_are_found_by_key(nodes: Seq<Node>, turn_key: Seq<char>)
    ensures
        turns_with_key(nodes, turn_key) == nodes.filter(|n: Node| is_turn(n, turn_key)),
    decreases nodes.len(),
{
    reveal(Seq::filter);
    if nodes.len() > 0 {
        turns_are_found_by_key(nodes.drop_last(), turn_key);
    }
}

}
